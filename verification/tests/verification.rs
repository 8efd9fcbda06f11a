use public_input_prover::commitment::{PolyComm, SRS};
use public_input_prover::curve::Point;
use public_input_prover::domain::Domain;
use public_input_prover::evaluations::{PointEvaluations, ProofEvaluations};
use public_input_prover::field::{BaseField, ScalarField};
use public_input_prover::prover::{OpeningProof, OpeningRequest, ProverProof};
use public_input_prover::scalar_challenge::ScalarChallenge;
use public_input_prover::sponge::{FqSponge, FrSponge};
use public_input_prover::verification::oracles;
use public_input_prover::verifier_index::{verifier_index, VerifierIndex};

/// A sponge that folds what it absorbs into one number. It is no hash, but it
/// tells transcripts apart.
#[derive(Clone, Debug, PartialEq)]
struct Mixer {
    state: u64,
}

impl Mixer {
    fn mix(&mut self, tag: u64, limbs: [u64; 4]) {
        for x in [tag, limbs[0], limbs[1], limbs[2], limbs[3]] {
            self.state = (self.state ^ x).wrapping_mul(0x100000001b3).rotate_left(17);
        }
    }

    fn squeeze(&mut self) -> u64 {
        self.mix(99, [0; 4]);
        self.state
    }
}

impl FqSponge for Mixer {
    fn new() -> Self {
        Mixer { state: 0xcbf29ce484222325 }
    }

    fn fork(&self) -> Self {
        self.clone()
    }

    fn absorb_g(&mut self, g: &[Point]) {
        self.mix(1, [g.len() as u64, 0, 0, 0]);
        for p in g {
            self.mix(2, p.x.to_limbs());
            self.mix(3, p.y.to_limbs());
        }
    }

    fn absorb_fq(&mut self, x: &[BaseField]) {
        self.mix(4, [x.len() as u64, 0, 0, 0]);
        for e in x {
            self.mix(5, e.to_limbs());
        }
    }

    fn absorb_fr(&mut self, x: &[ScalarField]) {
        self.mix(6, [x.len() as u64, 0, 0, 0]);
        for e in x {
            self.mix(7, e.to_limbs());
        }
    }

    fn challenge(&mut self) -> ScalarField {
        ScalarField::from_u64(self.squeeze())
    }

    fn challenge_fq(&mut self) -> BaseField {
        BaseField::from_u64(self.squeeze())
    }

    fn digest(mut self) -> ScalarField {
        ScalarField::from_u64(self.squeeze())
    }

    fn digest_fq(mut self) -> BaseField {
        BaseField::from_u64(self.squeeze())
    }
}

impl FrSponge for Mixer {
    fn new() -> Self {
        Mixer { state: 0x84222325cbf29ce4 }
    }

    fn absorb(&mut self, x: &ScalarField) {
        self.mix(8, x.to_limbs());
    }

    fn absorb_multiple(&mut self, x: &[ScalarField]) {
        self.mix(9, [x.len() as u64, 0, 0, 0]);
        for e in x {
            self.mix(10, e.to_limbs());
        }
    }

    fn challenge(&mut self) -> ScalarChallenge {
        ScalarChallenge(ScalarField::from_u64(self.squeeze()))
    }

    fn digest(mut self) -> ScalarField {
        ScalarField::from_u64(self.squeeze())
    }

    fn absorb_evaluations(&mut self, e: &ProofEvaluations<PointEvaluations<Vec<ScalarField>>>) {
        for p in e.to_ordered() {
            FrSponge::absorb_multiple(self, &p.zeta);
            FrSponge::absorb_multiple(self, &p.zeta_omega);
        }
    }
}

fn multiple(k: u64) -> Point {
    Point::prime_subgroup_generator().mul(&ScalarField::from_u64(k))
}

fn single(p: Point) -> PolyComm<Point> {
    PolyComm { unshifted: vec![p], shifted: None }
}

fn index() -> VerifierIndex {
    let srs = SRS { g: vec![multiple(1), multiple(5), multiple(1), multiple(1)], h: multiple(2) };
    verifier_index(srs, Domain::new(8).unwrap(), 4, 0).unwrap()
}

fn request(index: &VerifierIndex) -> OpeningRequest<Mixer> {
    let witness = [5u64, 10, 15, 20].iter().map(|v| ScalarField::from_u64(*v)).collect();
    ProverProof::create_recursive_public_input_only::<Mixer, Mixer>(
        witness,
        &single(multiple(5)),
        index,
        vec![],
    )
    .unwrap()
}

fn opening() -> OpeningProof {
    OpeningProof {
        lr: Vec::new(),
        delta: multiple(3),
        z1: ScalarField::from_u64(1),
        z2: ScalarField::from_u64(2),
        sg: multiple(4),
    }
}

/// The evaluations of the public input, which is the negated witness.
fn public_evaluations(
    r: &OpeningRequest<Mixer>,
    index: &VerifierIndex,
) -> PointEvaluations<Vec<ScalarField>> {
    let powers = PointEvaluations {
        zeta: r.elm[0].pow(index.max_poly_size as u64),
        zeta_omega: r.elm[1].pow(index.max_poly_size as u64),
    };
    let w0 = r.evals.w[0].combine(&powers);
    PointEvaluations { zeta: vec![w0.zeta.neg()], zeta_omega: vec![w0.zeta_omega.neg()] }
}

#[test]
fn the_challenges_differ_from_one_another() {
    let index = index();
    let o = request(&index).oracles;
    let all = [o.beta, o.gamma, o.alpha, o.zeta, o.v, o.u];
    for i in 0..6 {
        for j in (i + 1)..6 {
            assert_ne!(all[i], all[j]);
        }
    }
}

#[test]
fn a_verifier_finds_the_challenges_of_the_prover() {
    let index = index();
    let r = request(&index);
    let public_evals = public_evaluations(&r, &index);
    let expected = r.oracles;
    let sponge = r.sponge.clone();
    let proof = r.into_proof(opening());
    let (found, at) = oracles::<Mixer, Mixer>(&proof, &index, &public_evals);
    assert_eq!(found, expected);
    assert_eq!(at, sponge);
    // A second verifier finds them too.
    let (again, _) = oracles::<Mixer, Mixer>(&proof, &index, &public_evals);
    assert_eq!(again, found);
}

#[test]
fn a_changed_proof_gives_other_challenges() {
    let index = index();
    let r = request(&index);
    let public_evals = public_evaluations(&r, &index);
    let honest = r.oracles;
    let proof = r.into_proof(opening());

    let mut changed = proof.clone();
    changed.commitments.w_comm[3] = single(multiple(9));
    let (found, _) = oracles::<Mixer, Mixer>(&changed, &index, &public_evals);
    assert_ne!(found.beta, honest.beta);
    assert_ne!(found.zeta, honest.zeta);

    let mut changed = proof.clone();
    changed.commitments.t_comm.unshifted[6] = multiple(9);
    let (found, _) = oracles::<Mixer, Mixer>(&changed, &index, &public_evals);
    assert_eq!(found.beta, honest.beta);
    assert_eq!(found.alpha, honest.alpha);
    assert_ne!(found.zeta, honest.zeta);

    let mut changed = proof.clone();
    changed.evals.s[2].zeta_omega[0] = ScalarField::from_u64(77);
    let (found, _) = oracles::<Mixer, Mixer>(&changed, &index, &public_evals);
    assert_eq!(found.zeta, honest.zeta);
    assert_ne!(found.v, honest.v);
    assert_ne!(found.u, honest.u);

    let mut changed = proof.clone();
    changed.ft_eval1 = changed.ft_eval1.add(&ScalarField::one());
    let (found, _) = oracles::<Mixer, Mixer>(&changed, &index, &public_evals);
    assert_ne!(found.v, honest.v);

    // So does another public input.
    let mut other = public_evals.clone();
    other.zeta[0] = other.zeta[0].neg();
    let (found, _) = oracles::<Mixer, Mixer>(&proof, &index, &other);
    assert_eq!(found.zeta, honest.zeta);
    assert_ne!(found.v, honest.v);
}
