//! What a verifier does before it hands a proof to the commitment scheme: it
//! derives every challenge anew, from the commitments and the evaluations of
//! the proof and from nothing else.

use crate::commitment::endos;
use crate::evaluations::{chunked_view, PointEvaluations};
use crate::field::ScalarField;
use crate::oracles::{fq_oracles, fr_oracles};
use crate::prover::{
    are_oracles_of, steps_before_evaluations, OpeningRequest, Oracles, ProverProof,
};
use crate::sponge::{FqSponge, FrSponge};
use crate::verifier_index::VerifierIndex;
use vstd::prelude::*;

verus! {

/// Derives the challenges of a proof. `public_evals` are the evaluations of
/// the public input at the two points, which a verifier works out from the
/// public input itself. With the
/// challenges comes the sponge as it stands before the evaluations, from
/// which the commitment scheme goes on.
pub fn oracles<EFqSponge: FqSponge, EFrSponge: FrSponge>(
    proof: &ProverProof,
    index: &VerifierIndex,
    public_evals: &PointEvaluations<Vec<ScalarField>>,
) -> (r: (Oracles, EFqSponge))
    ensures
        are_oracles_of::<EFqSponge, EFrSponge>(
            r.0,
            *index,
            proof.prev_challenges@,
            proof.commitments,
            proof.ft_eval1@,
            chunked_view(*public_evals),
            proof.evals,
        ),
        r.1.transcript() == steps_before_evaluations::<EFqSponge>(
            *index,
            proof.prev_challenges@,
            proof.commitments,
        ),
{
    let (_, endo_r) = endos();
    let index_digest = index.digest::<EFqSponge>();
    let fq = fq_oracles::<EFqSponge>(
        &index_digest,
        &proof.prev_challenges,
        &proof.commitments.w_comm,
        &proof.commitments.z_comm,
        &proof.commitments.t_comm,
    );
    let alpha = fq.alpha_chal.to_field(&endo_r);
    let zeta = fq.zeta_chal.to_field(&endo_r);
    let (v_chal, u_chal) = fr_oracles::<EFrSponge>(
        &fq.digest,
        &proof.ft_eval1,
        &proof.prev_challenges,
        public_evals,
        &proof.evals,
    );
    let v = v_chal.to_field(&endo_r);
    let u = u_chal.to_field(&endo_r);
    (Oracles { beta: fq.beta, gamma: fq.gamma, alpha, zeta, v, u }, fq.sponge)
}

/// A verifier that derives the challenges of a proof from what the prover
/// has put into it finds the challenges of the prover, and its sponge stands
/// where the prover's stood.
pub proof fn lemma_verifier_finds_the_challenges_of_the_prover<
    EFqSponge: FqSponge,
    EFrSponge: FrSponge,
>(
    request: OpeningRequest<EFqSponge>,
    index: VerifierIndex,
    found: Oracles,
    sponge: EFqSponge,
)
    requires
        request.has_oracles_of::<EFrSponge>(index),
        are_oracles_of::<EFqSponge, EFrSponge>(
            found,
            index,
            request.prev_challenges@,
            request.commitments,
            request.ft_eval1@,
            request.public_evaluations(index),
            request.evals,
        ),
        sponge.transcript() == steps_before_evaluations::<EFqSponge>(
            index,
            request.prev_challenges@,
            request.commitments,
        ),
    ensures
        found.beta@ == request.oracles.beta@,
        found.gamma@ == request.oracles.gamma@,
        found.alpha@ == request.oracles.alpha@,
        found.zeta@ == request.oracles.zeta@,
        found.v@ == request.oracles.v@,
        found.u@ == request.oracles.u@,
        sponge.transcript() == request.sponge.transcript(),
{
}

} // verus!
