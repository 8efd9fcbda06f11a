//! The order of the transcript: what enters the two sponges, and when each
//! challenge leaves them. Prover and verifier must follow it to the letter.
//!
//! The base-field sponge takes the digest of the index, the commitments of the
//! earlier proofs and the witness commitments, and gives `beta` and `gamma`; it takes the permutation
//! commitment and gives `alpha`; it takes the quotient commitment and gives
//! `zeta`. The scalar-field sponge then takes the digest of the first, the
//! evaluation of the linearized polynomial, the digest of the earlier proofs'
//! challenges, the evaluations of the public input and all other evaluations,
//! and gives `v` and `u`.

use crate::commitment::{absorb_commitment, commitment_steps, commitments_steps, PolyComm};
use crate::curve::Point;
use crate::evaluations::{chunked_view, PointEvaluations, ProofEvaluations};
use crate::field::{BaseField, ScalarField};
use crate::scalar_challenge::ScalarChallenge;
use crate::sponge::{scalars_view, FqSponge, FqSpongeStep, FrSponge, FrSpongeStep};
use vstd::prelude::*;

verus! {

/// What an earlier proof hands on to the next: the challenges of its opening
/// and the commitment they were derived from.
#[derive(Clone, Debug, PartialEq, Eq)]
pub struct RecursionChallenge {
    pub chals: Vec<ScalarField>,
    pub comm: PolyComm<Point>,
}

/// The commitments of the earlier proofs.
pub open spec fn recursion_commitments(prev: Seq<RecursionChallenge>) -> Seq<PolyComm<Point>> {
    prev.map_values(|c: RecursionChallenge| c.comm)
}

/// The steps of the base-field sponge before it gives `beta`.
pub open spec fn steps_before_beta(
    index_digest: nat,
    prev: Seq<RecursionChallenge>,
    w_comm: Seq<PolyComm<Point>>,
) -> Seq<FqSpongeStep> {
    seq![FqSpongeStep::AbsorbFq(seq![index_digest])] + commitments_steps(
        recursion_commitments(prev),
    ) + commitments_steps(w_comm)
}

/// The steps of the base-field sponge before it gives `alpha`.
pub open spec fn steps_before_alpha(
    index_digest: nat,
    prev: Seq<RecursionChallenge>,
    w_comm: Seq<PolyComm<Point>>,
    z_comm: PolyComm<Point>,
) -> Seq<FqSpongeStep> {
    steps_before_beta(index_digest, prev, w_comm).push(FqSpongeStep::Challenge).push(
        FqSpongeStep::Challenge,
    ) + commitment_steps(z_comm)
}

/// The steps of the base-field sponge before it gives `zeta`.
pub open spec fn steps_before_zeta(
    index_digest: nat,
    prev: Seq<RecursionChallenge>,
    w_comm: Seq<PolyComm<Point>>,
    z_comm: PolyComm<Point>,
    t_comm: PolyComm<Point>,
) -> Seq<FqSpongeStep> {
    steps_before_alpha(index_digest, prev, w_comm, z_comm).push(
        FqSpongeStep::Challenge,
    ) + commitment_steps(t_comm)
}

/// The challenges of the base-field sponge, and the sponge as it stands
/// once it has given the last of them.
pub struct FqOracles<EFqSponge> {
    pub beta: ScalarField,
    pub gamma: ScalarField,
    pub alpha_chal: ScalarChallenge,
    pub zeta_chal: ScalarChallenge,
    pub digest: ScalarField,
    pub sponge: EFqSponge,
}

/// Runs the base-field sponge over the commitments of a proof.
pub fn fq_oracles<EFqSponge: FqSponge>(
    index_digest: &BaseField,
    prev_challenges: &Vec<RecursionChallenge>,
    w_comm: &[PolyComm<Point>; 15],
    z_comm: &PolyComm<Point>,
    t_comm: &PolyComm<Point>,
) -> (r: FqOracles<EFqSponge>)
    ensures
        r.beta@ == EFqSponge::squeeze(
            steps_before_beta(index_digest@, prev_challenges@, w_comm@),
        ),
        r.gamma@ == EFqSponge::squeeze(
            steps_before_beta(index_digest@, prev_challenges@, w_comm@).push(
                FqSpongeStep::Challenge,
            ),
        ),
        r.alpha_chal.0@ == EFqSponge::squeeze(
            steps_before_alpha(index_digest@, prev_challenges@, w_comm@, *z_comm),
        ),
        r.zeta_chal.0@ == EFqSponge::squeeze(
            steps_before_zeta(
                index_digest@,
                prev_challenges@,
                w_comm@,
                *z_comm,
                *t_comm,
            ),
        ),
        r.sponge.transcript() == steps_before_zeta(
            index_digest@,
            prev_challenges@,
            w_comm@,
            *z_comm,
            *t_comm,
        ).push(FqSpongeStep::Challenge),
        r.digest@ == EFqSponge::squeeze(r.sponge.transcript()),
{
    let mut fq_sponge = EFqSponge::new();
    let digest: [BaseField; 1] = [*index_digest];
    fq_sponge.absorb_fq(digest.as_slice());
    let ghost start = seq![FqSpongeStep::AbsorbFq(seq![index_digest@])];
    proof {
        assert(crate::sponge::bases_view(digest@) == seq![index_digest@]);
        assert(recursion_commitments(prev_challenges@.take(0)) == Seq::<PolyComm<Point>>::empty());
        assert(fq_sponge.transcript() == start + commitments_steps(
            recursion_commitments(prev_challenges@.take(0)),
        ));
    }
    let mut i: usize = 0;
    while i < prev_challenges.len()
        invariant
            i <= prev_challenges.len(),
            fq_sponge.transcript() == start + commitments_steps(
                recursion_commitments(prev_challenges@.take(i as int)),
            ),
        decreases prev_challenges.len() - i,
    {
        absorb_commitment(&mut fq_sponge, &prev_challenges[i].comm);
        proof {
            let before = recursion_commitments(prev_challenges@.take(i as int));
            let after = recursion_commitments(prev_challenges@.take(i + 1));
            assert(after.drop_last() == before);
            assert(after.last() == prev_challenges[i as int].comm);
        }
        i += 1;
    }
    proof {
        assert(prev_challenges@.take(prev_challenges.len() as int) == prev_challenges@);
    }
    let ghost earlier = start + commitments_steps(recursion_commitments(prev_challenges@));
    proof {
        assert(fq_sponge.transcript() == earlier + commitments_steps(w_comm@.take(0)));
    }
    let mut j: usize = 0;
    while j < 15
        invariant
            j <= 15,
            fq_sponge.transcript() == earlier + commitments_steps(w_comm@.take(j as int)),
        decreases 15 - j,
    {
        absorb_commitment(&mut fq_sponge, &w_comm[j]);
        proof {
            assert(w_comm@.take(j + 1).drop_last() == w_comm@.take(j as int));
            assert(w_comm@.take(j + 1).last() == w_comm[j as int]);
        }
        j += 1;
    }
    proof {
        assert(w_comm@.take(15) == w_comm@);
    }
    let beta = fq_sponge.challenge();
    let gamma = fq_sponge.challenge();
    absorb_commitment(&mut fq_sponge, z_comm);
    let alpha_chal = ScalarChallenge(fq_sponge.challenge());
    absorb_commitment(&mut fq_sponge, t_comm);
    let zeta_chal = ScalarChallenge(fq_sponge.challenge());
    let sponge = fq_sponge.fork();
    let digest = fq_sponge.digest();
    FqOracles { beta, gamma, alpha_chal, zeta_chal, digest, sponge }
}

/// The steps by which the challenges of the earlier proofs enter a sponge of
/// their own.
pub open spec fn recursion_challenge_steps(prev: Seq<RecursionChallenge>) -> Seq<FrSpongeStep> {
    prev.map_values(|c: RecursionChallenge| FrSpongeStep::AbsorbMultiple(scalars_view(c.chals@)))
}

/// The steps of the scalar-field sponge before it gives `v`.
pub open spec fn steps_before_v(
    fq_digest: nat,
    ft_eval1: nat,
    prev_digest: nat,
    public_evals: PointEvaluations<Seq<nat>>,
    evals: ProofEvaluations<PointEvaluations<Vec<ScalarField>>>,
) -> Seq<FrSpongeStep> {
    seq![
        FrSpongeStep::Absorb(fq_digest),
        FrSpongeStep::Absorb(ft_eval1),
        FrSpongeStep::Absorb(prev_digest),
        FrSpongeStep::AbsorbMultiple(public_evals.zeta),
        FrSpongeStep::AbsorbMultiple(public_evals.zeta_omega),
        FrSpongeStep::AbsorbEvaluations(evals.in_order()),
    ]
}

/// The digest of the challenges of the earlier proofs.
pub fn recursion_challenge_digest<EFrSponge: FrSponge>(
    prev_challenges: &Vec<RecursionChallenge>,
) -> (d: ScalarField)
    ensures
        d@ == EFrSponge::squeeze(recursion_challenge_steps(prev_challenges@)),
{
    let mut fr_sponge = EFrSponge::new();
    let mut i: usize = 0;
    proof {
        assert(fr_sponge.transcript() == recursion_challenge_steps(prev_challenges@.take(0)));
    }
    while i < prev_challenges.len()
        invariant
            i <= prev_challenges.len(),
            fr_sponge.transcript() == recursion_challenge_steps(prev_challenges@.take(i as int)),
        decreases prev_challenges.len() - i,
    {
        fr_sponge.absorb_multiple(prev_challenges[i].chals.as_slice());
        proof {
            assert(recursion_challenge_steps(prev_challenges@.take(i + 1))
                == recursion_challenge_steps(prev_challenges@.take(i as int)).push(
                FrSpongeStep::AbsorbMultiple(scalars_view(prev_challenges[i as int].chals@)),
            ));
        }
        i += 1;
    }
    proof {
        assert(prev_challenges@.take(prev_challenges.len() as int) == prev_challenges@);
    }
    fr_sponge.digest()
}

/// Runs the scalar-field sponge over the evaluations of a proof and gives the
/// two challenges that batch the opening: `v` across polynomials, `u` across
/// points.
pub fn fr_oracles<EFrSponge: FrSponge>(
    fq_digest: &ScalarField,
    ft_eval1: &ScalarField,
    prev_challenges: &Vec<RecursionChallenge>,
    public_evals: &PointEvaluations<Vec<ScalarField>>,
    evals: &ProofEvaluations<PointEvaluations<Vec<ScalarField>>>,
) -> (r: (ScalarChallenge, ScalarChallenge))
    ensures
        r.0.0@ == EFrSponge::squeeze(
            steps_before_v(
                fq_digest@,
                ft_eval1@,
                EFrSponge::squeeze(recursion_challenge_steps(prev_challenges@)),
                chunked_view(*public_evals),
                *evals,
            ),
        ),
        r.1.0@ == EFrSponge::squeeze(
            steps_before_v(
                fq_digest@,
                ft_eval1@,
                EFrSponge::squeeze(recursion_challenge_steps(prev_challenges@)),
                chunked_view(*public_evals),
                *evals,
            ).push(FrSpongeStep::Challenge),
        ),
{
    let mut fr_sponge = EFrSponge::new();
    fr_sponge.absorb(fq_digest);
    fr_sponge.absorb(ft_eval1);
    let prev_challenge_digest = recursion_challenge_digest::<EFrSponge>(prev_challenges);
    fr_sponge.absorb(&prev_challenge_digest);
    fr_sponge.absorb_multiple(public_evals.zeta.as_slice());
    fr_sponge.absorb_multiple(public_evals.zeta_omega.as_slice());
    fr_sponge.absorb_evaluations(evals);
    proof {
        assert(fr_sponge.transcript() == steps_before_v(
            fq_digest@,
            ft_eval1@,
            prev_challenge_digest@,
            chunked_view(*public_evals),
            *evals,
        ));
    }
    let v_chal = fr_sponge.challenge();
    let u_chal = fr_sponge.challenge();
    (v_chal, u_chal)
}

} // verus!
