use public_input_prover::commitment::{PolyComm, SRS};
use public_input_prover::curve::Point;
use public_input_prover::domain::Domain;
use public_input_prover::field::{BaseField, ScalarField};
use public_input_prover::oracles::RecursionChallenge;
use public_input_prover::permutation::perm_scalars;
use public_input_prover::polynomial::DensePolynomial;
use public_input_prover::prover::{
    pad_witness, OpenedPolynomial, OpeningProof, OpeningRequest, PolynomialToOpen, ProverError,
    ProverProof,
};
use public_input_prover::sponge::{DummyFqSponge, DummyFrSponge};
use public_input_prover::verifier_index::{
    verifier_index, Alphas, ConfigurationError, VerifierIndex,
};

const ZETA: [u64; 4] =
    [0xde09869441f29476, 0x93fe9d982804c69e, 0xe71d819f97cebb3a, 0x1dc4964fc611e14b];
const ZETA_OMEGA: [u64; 4] =
    [0xb6d19e9ff151d3a8, 0xe06007c06551e8ed, 0x9a4d06b2b299d3b, 0xa713e7540b34b23];

fn scalar(limbs: [u64; 4]) -> ScalarField {
    ScalarField::from_limbs(limbs).unwrap()
}

fn scalars(values: &[u64]) -> Vec<ScalarField> {
    values.iter().map(|v| ScalarField::from_u64(*v)).collect()
}

fn multiple(k: u64) -> Point {
    Point::prime_subgroup_generator().mul(&ScalarField::from_u64(k))
}

fn single(p: Point) -> PolyComm<Point> {
    PolyComm { unshifted: vec![p], shifted: None }
}

/// Public parameters of `size` generators of which only the first two and
/// the blinding generator are told apart.
fn srs(size: usize) -> SRS {
    let mut g = vec![multiple(1); size];
    if size > 1 {
        g[1] = multiple(5);
    }
    SRS { g, h: multiple(2) }
}

fn index(circuit_size: usize, srs_size: usize) -> VerifierIndex {
    verifier_index(srs(srs_size), Domain::new(circuit_size).unwrap(), 4, 0).unwrap()
}

fn opening() -> OpeningProof {
    OpeningProof {
        lr: vec![(multiple(1), multiple(2))],
        delta: multiple(3),
        z1: ScalarField::from_u64(1),
        z2: ScalarField::from_u64(2),
        sg: multiple(4),
    }
}

fn request(
    witness: &[u64],
    index: &VerifierIndex,
) -> OpeningRequest<DummyFqSponge> {
    ProverProof::create_recursive_public_input_only::<DummyFqSponge, DummyFrSponge>(
        scalars(witness),
        &single(multiple(5)),
        index,
        vec![],
    )
    .unwrap()
}

fn coefficients(p: &PolynomialToOpen) -> Vec<ScalarField> {
    match &p.polynomial {
        OpenedPolynomial::Coefficients(d) => d.coeffs.clone(),
        OpenedPolynomial::Challenges(_) => panic!("the polynomial of an earlier proof"),
    }
}

#[test]
fn test_public_input_only_prover() {
    let circuit_size = (2 << 16) - 1;
    let domain = Domain::new(circuit_size).unwrap();
    let srs = srs(domain.size() as usize);
    let num_prev_challenges = 0;
    let num_public_inputs = 4;
    let verifier_index =
        verifier_index(srs, domain, num_public_inputs, num_prev_challenges).unwrap();
    let public_inputs = vec![
        ScalarField::from_u64(5u64),
        ScalarField::from_u64(10u64),
        ScalarField::from_u64(15u64),
        ScalarField::from_u64(20u64),
    ];
    let request = ProverProof::create_recursive_public_input_only::<DummyFqSponge, DummyFrSponge>(
        public_inputs.clone(),
        &single(multiple(5)),
        &verifier_index,
        vec![],
    )
    .unwrap();

    // The stand-in sponges answer one, which the endomorphism maps to `ZETA`.
    assert_eq!(request.oracles.beta, ScalarField::one());
    assert_eq!(request.oracles.gamma, ScalarField::one());
    assert_eq!(request.oracles.alpha, scalar(ZETA));
    assert_eq!(request.oracles.zeta, scalar(ZETA));
    assert_eq!(request.oracles.v, scalar(ZETA));
    assert_eq!(request.oracles.u, scalar(ZETA));
    assert_eq!(request.elm, [scalar(ZETA), scalar(ZETA_OMEGA)]);

    // The witness at the two points.
    assert_eq!(
        request.evals.w[0].zeta,
        vec![scalar([0x8ea4b106104567e, 0xe7e44f399009c0c9, 0xa2d36daacf446308, 0x31f77ed7e1dff162])]
    );
    assert_eq!(
        request.evals.w[0].zeta_omega,
        vec![scalar([
            0xf4c2328db13119bb,
            0x3ddc0470cbb552bd,
            0x615012f4225ab3b2,
            0x11ace8d85c5de9d9
        ])]
    );
    assert_eq!(
        request.evals.s[3].zeta,
        vec![scalar([0xa29570ea33727d64, 0x7f544a315ea6b960, 0xd9684aed1ff16b92, 0x8fd64f3b6bb020f])]
    );
    assert_eq!(
        request.ft_eval1,
        scalar([0x5b1835db19962378, 0x71707c63c7e40384, 0x4c89f7c495b1cb22, 0xf8ef15b54338854])
    );

    // The linearized polynomial and its blinding factor.
    assert_eq!(request.polynomials.len(), 45);
    assert_eq!(
        coefficients(&request.polynomials[1]),
        vec![
            ScalarField::zero(),
            scalar([0xf0f26d6921293c70, 0x53274c20e8cb975d, 0xf6173b8997f24e1a, 0x1fccd353910e3a91])
        ]
    );
    assert_eq!(
        request.polynomials[1].blinders.unshifted,
        vec![scalar([
            0x7b4909bc6455e9e5,
            0xf7a299147eb995cd,
            0xc4dffa29fd643bb,
            0x3cb4982dcd9edad4
        ])]
    );

    // The witness polynomial takes the public input on the first rows of the
    // domain and zero on the others.
    let witness_poly = DensePolynomial::from_coefficients_vec(coefficients(&request.polynomials[9]));
    let omega = verifier_index.domain.group_gen();
    for (i, input) in public_inputs.iter().enumerate() {
        assert_eq!(witness_poly.evaluate(&omega.pow(i as u64)), *input);
    }
    assert_eq!(witness_poly.evaluate(&omega.pow(4)), ScalarField::zero());
    assert_eq!(witness_poly.evaluate(&omega.pow(131071)), ScalarField::zero());

    let proof = request.into_proof(opening());
    assert_eq!(proof.proof, opening());
    assert!(proof.prev_challenges.is_empty());
    assert_eq!(proof.commitments.w_comm[0], single(multiple(7)));
}

#[test]
fn another_public_input_gives_another_proof() {
    let index = index(8, 8);
    let honest = request(&[5, 10, 15, 20], &index);
    for i in 0..4 {
        let mut inputs = scalars(&[5, 10, 15, 20]);
        inputs[i] = inputs[i].neg();
        let other = ProverProof::create_recursive_public_input_only::<DummyFqSponge, DummyFrSponge>(
            inputs,
            &single(multiple(5)),
            &index,
            vec![],
        )
        .unwrap();
        assert_ne!(other.evals.w[0], honest.evals.w[0]);
        assert_ne!(other.ft_eval1, honest.ft_eval1);
    }
}

#[test]
fn the_same_inputs_give_the_same_proof() {
    let index = index(8, 8);
    let a = request(&[5, 10, 15, 20], &index);
    let b = request(&[5, 10, 15, 20], &index);
    assert_eq!(a.oracles, b.oracles);
    assert_eq!(a.commitments, b.commitments);
    assert_eq!(a.evals, b.evals);
    assert_eq!(a.ft_eval1, b.ft_eval1);
    assert_eq!(a.polynomials, b.polynomials);
    assert_eq!(a.elm, b.elm);
    assert_eq!(a.into_proof(opening()), b.into_proof(opening()));
}

#[test]
fn commitments_of_the_circuit() {
    let index = index(8, 8);
    let r = request(&[5, 10, 15, 20], &index);
    let h = multiple(2);
    // The witness with the blinding factor one.
    assert_eq!(r.commitments.w_comm[0], single(multiple(7)));
    for i in 1..15 {
        assert_eq!(r.commitments.w_comm[i], single(h));
    }
    assert_eq!(r.commitments.z_comm, single(multiple(1)));
    assert_eq!(r.commitments.t_comm, PolyComm { unshifted: vec![h; 7], shifted: None });
    assert!(r.commitments.lookup.is_none());
}

#[test]
fn evaluations_of_the_circuit() {
    let index = index(8, 8);
    let r = request(&[5, 10, 15, 20], &index);
    let zeta = r.oracles.zeta;
    let zeta_omega = zeta.mul(&index.domain.group_gen());
    assert_eq!(r.elm, [zeta, zeta_omega]);
    let one = vec![ScalarField::one()];
    let zero = vec![ScalarField::zero()];
    for i in 0..6 {
        assert_eq!(r.evals.s[i].zeta, vec![zeta.mul(&index.shift[i])]);
        assert_eq!(r.evals.s[i].zeta_omega, vec![zeta_omega.mul(&index.shift[i])]);
    }
    assert_eq!(r.evals.coefficients[0].zeta, one);
    assert_eq!(r.evals.coefficients[0].zeta_omega, one);
    for i in 1..15 {
        assert_eq!(r.evals.coefficients[i].zeta, zero);
        assert_eq!(r.evals.w[i].zeta, zero);
        assert_eq!(r.evals.w[i].zeta_omega, zero);
    }
    assert_eq!(r.evals.z.zeta, one);
    assert_eq!(r.evals.z.zeta_omega, one);
    assert_eq!(r.evals.generic_selector.zeta, one);
    assert_eq!(r.evals.poseidon_selector.zeta, zero);
    assert_eq!(r.evals.complete_add_selector.zeta, zero);
    assert_eq!(r.evals.mul_selector.zeta, zero);
    assert_eq!(r.evals.emul_selector.zeta, zero);
    assert_eq!(r.evals.endomul_scalar_selector.zeta, zero);
    assert!(r.evals.range_check0_selector.is_none());
    assert!(r.evals.lookup_aggregation.is_none());
    assert!(r.evals.lookup_sorted.iter().all(|e| e.is_none()));
    assert!(r.evals.foreign_field_mul_lookup_selector.is_none());
}

#[test]
fn the_scalar_of_the_permutation_is_its_closed_form() {
    let index = index(8, 8);
    let r = request(&[5, 10, 15, 20], &index);
    let o = r.oracles;
    let n = index.domain.size();
    let omega = index.domain.group_gen();
    // The closed form, from the challenges and the shifts alone.
    let zkp = o.zeta.sub(&omega.pow(n - 1)).mul(&o.zeta.sub(&omega.pow(n - 2))).mul(&o.zeta.sub(&omega.pow(n - 3)));
    let w0 = r.evals.w[0].zeta[0];
    let mut product = o.beta.mul(&o.alpha.pow(21)).mul(&zkp);
    for i in 0..6 {
        let mut factor = o.gamma.add(&o.beta.mul(&o.zeta.mul(&index.shift[i])));
        if i == 0 {
            factor = factor.add(&w0);
        }
        product = product.mul(&factor);
    }
    let closed = product.neg();
    // The scalar that a verifier computes from the evaluations of the proof.
    let powers = public_input_prover::evaluations::PointEvaluations {
        zeta: o.zeta.pow(index.max_poly_size as u64),
        zeta_omega: r.elm[1].pow(index.max_poly_size as u64),
    };
    let evals = r.evals.combine(&powers);
    let alphas = index.powers_of_alpha.permutation_alphas(&o.alpha);
    let from_evaluations = perm_scalars(&evals, &o.beta, &o.gamma, &alphas, &zkp);
    assert_eq!(from_evaluations, closed);
    // It is what the prover has put into the linearized polynomial.
    assert_eq!(
        coefficients(&r.polynomials[1]),
        vec![ScalarField::zero(), closed.mul(&index.shift[6])]
    );
    assert_eq!(r.ft_eval1, r.elm[1].mul(&closed.mul(&index.shift[6])));
}

#[test]
fn powers_of_alpha_of_the_permutation() {
    let alphas = Alphas { gates: 21, permutation: 3 };
    let a = ScalarField::from_u64(2);
    assert_eq!(
        alphas.permutation_alphas(&a),
        [ScalarField::from_u64(1 << 21), ScalarField::from_u64(1 << 22), ScalarField::from_u64(1 << 23)]
    );
}

#[test]
fn polynomials_to_open_in_their_order() {
    let index = index(8, 8);
    let prev = vec![
        RecursionChallenge { chals: scalars(&[7, 8]), comm: PolyComm { unshifted: vec![multiple(3); 2], shifted: None } },
        RecursionChallenge { chals: scalars(&[9]), comm: single(multiple(4)) },
    ];
    let r = ProverProof::create_recursive_public_input_only::<DummyFqSponge, DummyFrSponge>(
        scalars(&[5, 10, 15, 20]),
        &single(multiple(5)),
        &index,
        prev.clone(),
    )
    .unwrap();
    assert_eq!(r.prev_challenges, prev);
    let list = &r.polynomials;
    assert_eq!(list.len(), 2 + 45);
    let hidden = vec![ScalarField::one()];
    let open = vec![ScalarField::zero()];
    let one = scalars(&[1]);
    // The polynomials of the earlier proofs, unblinded in each piece.
    assert_eq!(list[0].polynomial, OpenedPolynomial::Challenges(scalars(&[7, 8])));
    assert_eq!(list[0].blinders.unshifted, scalars(&[0, 0]));
    assert_eq!(list[1].polynomial, OpenedPolynomial::Challenges(scalars(&[9])));
    assert_eq!(list[1].blinders.unshifted, open);
    let list = &list[2..];
    // The public input is the negated witness.
    let witness = coefficients(&list[9]);
    let negated: Vec<ScalarField> = witness.iter().map(|c| c.neg()).collect();
    assert_eq!(coefficients(&list[0]), negated);
    assert_eq!(list[0].blinders.unshifted, hidden);
    // The linearized polynomial has two coefficients.
    assert_eq!(coefficients(&list[1]).len(), 2);
    // The aggregation and the generic selector are one, unblinded.
    for i in [2, 3] {
        assert_eq!(coefficients(&list[i]), one);
        assert_eq!(list[i].blinders.unshifted, open);
    }
    // The other selectors are zero.
    for i in 4..9 {
        assert!(coefficients(&list[i]).is_empty());
        assert_eq!(list[i].blinders.unshifted, hidden);
    }
    assert_eq!(list[9].blinders.unshifted, hidden);
    for i in 10..24 {
        assert!(coefficients(&list[i]).is_empty());
        assert_eq!(list[i].blinders.unshifted, hidden);
    }
    // The first coefficient is one, the others are zero.
    assert_eq!(coefficients(&list[24]), one);
    assert_eq!(list[24].blinders.unshifted, open);
    for i in 25..39 {
        assert!(coefficients(&list[i]).is_empty());
        assert_eq!(list[i].blinders.unshifted, hidden);
    }
    // The first six columns of the permutation.
    for i in 0..6 {
        assert_eq!(coefficients(&list[39 + i]), vec![ScalarField::zero(), index.shift[i]]);
        assert_eq!(list[39 + i].blinders.unshifted, open);
    }
    for p in r.polynomials.iter() {
        assert!(p.degree_bound.is_none());
        assert!(p.blinders.shifted.is_none());
    }
}

#[test]
fn a_witness_in_pieces() {
    // With two generators the witness polynomial, of eight coefficients,
    // comes in four pieces.
    let index = index(8, 2);
    assert_eq!(index.max_poly_size, 2);
    let r = request(&[5, 10, 15, 20], &index);
    assert_eq!(r.evals.w[0].zeta.len(), 4);
    assert_eq!(r.evals.w[0].zeta_omega.len(), 4);
    let witness = DensePolynomial::from_coefficients_vec(coefficients(&r.polynomials[9]));
    let powers = public_input_prover::evaluations::PointEvaluations {
        zeta: r.elm[0].pow(2),
        zeta_omega: r.elm[1].pow(2),
    };
    let whole = r.evals.w[0].combine(&powers);
    assert_eq!(whole.zeta, witness.evaluate(&r.elm[0]));
    assert_eq!(whole.zeta_omega, witness.evaluate(&r.elm[1]));
}

#[test]
fn the_zero_witness() {
    let index = index(8, 8);
    let r = request(&[], &index);
    // The zero polynomial has no piece.
    assert!(r.evals.w[0].zeta.is_empty());
    assert!(coefficients(&r.polynomials[9]).is_empty());
    assert!(coefficients(&r.polynomials[0]).is_empty());
    let same = request(&[0, 0, 0], &index);
    assert_eq!(same.evals, r.evals);
    assert_eq!(same.ft_eval1, r.ft_eval1);
}

#[test]
fn padding_a_witness() {
    assert_eq!(pad_witness(scalars(&[5, 10]), 4), Ok(scalars(&[5, 10, 0, 0])));
    assert_eq!(pad_witness(scalars(&[5, 10]), 2), Ok(scalars(&[5, 10])));
    assert_eq!(pad_witness(Vec::new(), 2), Ok(scalars(&[0, 0])));
    assert_eq!(pad_witness(scalars(&[5, 10, 15]), 2), Err(ProverError::NoRoomForZkInWitness));
}

fn error_of(witness: &[u64], index: &VerifierIndex) -> ProverError {
    match ProverProof::create_public_input_only::<DummyFqSponge, DummyFrSponge>(
        scalars(witness),
        &single(multiple(5)),
        index,
    ) {
        Ok(_) => panic!("a proof was made"),
        Err(e) => e,
    }
}

#[test]
fn a_witness_longer_than_the_domain_is_refused() {
    let index = index(4, 4);
    assert_eq!(error_of(&[1, 2, 3, 4, 5], &index), ProverError::NoRoomForZkInWitness);
    assert!(ProverProof::create_public_input_only::<DummyFqSponge, DummyFrSponge>(
        scalars(&[1, 2, 3, 4]),
        &single(multiple(5)),
        &index,
    )
    .is_ok());
}

#[test]
fn an_index_that_cannot_be_proved_with() {
    let mut small = index(4, 4);
    small.domain = Domain::new(2).unwrap();
    assert_eq!(error_of(&[1, 2], &small), ProverError::DomainTooSmall);
    // The length of the witness is looked at first.
    assert_eq!(error_of(&[1, 2, 3], &small), ProverError::NoRoomForZkInWitness);
    let mut no_generator = index(4, 4);
    no_generator.srs.g = Vec::new();
    assert_eq!(error_of(&[1, 2], &no_generator), ProverError::SRSTooSmall);
    let mut no_piece = index(4, 4);
    no_piece.max_poly_size = 0;
    assert_eq!(error_of(&[1, 2], &no_piece), ProverError::SRSTooSmall);
}

#[test]
fn without_earlier_proofs() {
    let index = index(8, 8);
    let a = ProverProof::create_public_input_only::<DummyFqSponge, DummyFrSponge>(
        scalars(&[5, 10, 15, 20]),
        &single(multiple(5)),
        &index,
    )
    .unwrap();
    let b = request(&[5, 10, 15, 20], &index);
    assert!(a.prev_challenges.is_empty());
    assert_eq!(a.polynomials, b.polynomials);
    assert_eq!(a.evals, b.evals);
}

#[test]
fn the_index_of_the_circuit() {
    let index = index(8, 8);
    assert_eq!(index.domain, Domain::new(8).unwrap());
    assert_eq!(index.max_poly_size, 8);
    assert_eq!(index.public, 4);
    assert_eq!(index.prev_challenges, 0);
    assert_eq!(index.shift.to_vec(), scalars(&[1, 5, 25, 125, 625, 3125, 15625]));
    // Column `i` of the permutation is `shift[i] * x`, committed to with the
    // second generator.
    assert_eq!(index.sigma_comm[0], single(multiple(5)));
    assert_eq!(
        index.sigma_comm[1],
        single(Point {
            x: BaseField::from_limbs([
                0x9f37cb41ee3ad1eb,
                0x694254bfca99b21c,
                0xb34b231b0d92dec6,
                0x1725c9f10bb8a987
            ])
            .unwrap(),
            y: BaseField::from_limbs([
                0x52275a7a12f50274,
                0xe1dff533b1742959,
                0xfbbd5046e6f905b9,
                0x1d0905c6654fe03b
            ])
            .unwrap(),
            infinity: false,
        })
    );
    for i in 0..7 {
        assert_eq!(index.sigma_comm[i], single(multiple(5).mul(&index.shift[i])));
    }
    let h = multiple(2);
    assert_eq!(index.coefficients_comm[0], single(multiple(1)));
    for i in 1..15 {
        assert_eq!(index.coefficients_comm[i], single(h));
    }
    assert_eq!(index.generic_comm, single(multiple(1)));
    for c in [&index.psm_comm, &index.complete_add_comm, &index.mul_comm, &index.emul_comm, &index.endomul_scalar_comm] {
        assert_eq!(*c, single(h));
    }
    assert!(index.range_check0_comm.is_none());
    assert!(index.range_check1_comm.is_none());
    assert!(index.foreign_field_add_comm.is_none());
    assert!(index.foreign_field_mul_comm.is_none());
    assert!(index.xor_comm.is_none());
    assert!(index.rot_comm.is_none());
    assert!(index.lookup_index.is_none());
    assert!(!index.feature_flags.range_check0);
    assert!(!index.feature_flags.lookup_features.patterns.xor);
    assert_eq!(index.powers_of_alpha, Alphas { gates: 21, permutation: 3 });
    assert!(index.linearization.generic && index.linearization.permutation);
    assert!(!index.linearization.lookup);
    assert_eq!(
        index.endo.to_limbs(),
        [0x2aa9d2e050aa0e4f, 0xfed467d47c033af, 0x511db4d81cf70f5a, 0x6819a58283e528e]
    );
    assert_eq!(index.digest::<DummyFqSponge>(), BaseField::one());
}

#[test]
fn the_index_is_a_function_of_the_parameters() {
    assert_eq!(index(8, 8), index(8, 8));
    assert_eq!(index(5, 8), index(8, 8));
    assert_ne!(index(16, 8), index(8, 8));
}

#[test]
fn parameters_from_which_no_index_can_be_built() {
    let d = Domain::new(8).unwrap();
    assert_eq!(verifier_index(srs(1), d, 4, 0), Err(ConfigurationError::SRSTooSmall));
    assert_eq!(verifier_index(srs(0), d, 4, 0), Err(ConfigurationError::SRSTooSmall));
    assert_eq!(
        verifier_index(srs(2), Domain::new(2).unwrap(), 4, 0),
        Err(ConfigurationError::DomainTooSmall)
    );
    // The length of the parameters is looked at first.
    assert_eq!(
        verifier_index(srs(1), Domain::new(1).unwrap(), 4, 0),
        Err(ConfigurationError::SRSTooSmall)
    );
    assert!(verifier_index(srs(2), Domain::new(4).unwrap(), 4, 0).is_ok());
}

#[test]
fn evaluations_in_the_order_of_the_transcript() {
    let index = index(8, 8);
    let r = request(&[5, 10, 15, 20], &index);
    let ordered = r.evals.to_ordered();
    // Seven single ones, then the witness, the coefficients and the first
    // six columns of the permutation; no optional part is there.
    assert_eq!(ordered.len(), 7 + 15 + 15 + 6);
    assert_eq!(*ordered[0], r.evals.z);
    assert_eq!(*ordered[1], r.evals.generic_selector);
    assert_eq!(*ordered[2], r.evals.poseidon_selector);
    assert_eq!(*ordered[6], r.evals.endomul_scalar_selector);
    for i in 0..15 {
        assert_eq!(*ordered[7 + i], r.evals.w[i]);
        assert_eq!(*ordered[22 + i], r.evals.coefficients[i]);
    }
    for i in 0..6 {
        assert_eq!(*ordered[37 + i], r.evals.s[i]);
    }
    let mut with_lookup = r.evals.clone();
    with_lookup.lookup_table = Some(r.evals.s[2].clone());
    with_lookup.range_check0_selector = Some(r.evals.s[3].clone());
    let ordered = with_lookup.to_ordered();
    assert_eq!(ordered.len(), 45);
    assert_eq!(*ordered[43], r.evals.s[3]);
    assert_eq!(*ordered[44], r.evals.s[2]);
}
