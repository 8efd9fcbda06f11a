//! The prover for the circuit that only exposes its public input.
//!
//! The only column that is not zero is the first witness column, which holds
//! the public input. Nothing is wired, so the permutation is the identity and
//! its aggregation is the constant one; the quotient is zero. Every polynomial
//! but the witness is therefore known beforehand and is committed to with a
//! fixed blinding factor, one or zero: such a proof hides nothing, and that is
//! the price of its speed.
//!
//! The commitment scheme does two things that this library leaves to its
//! caller: it commits to the padded witness before the proof is made, and it
//! opens the polynomials once the challenges are known. What lies between the
//! two is [`ProverProof::create_recursive_public_input_only`].

use crate::commitment::{endo_scalar, endos, PolyComm, SRS};
use crate::curve::{pallas_add, points_view, Point};
use crate::domain::Domain;
use crate::evaluations::{chunked_view, PointEvaluations, ProofEvaluations};
use crate::field::{fadd, fmul, fneg, fpow, fsub, scalar_modulus, ScalarField};
use crate::oracles::{
    fq_oracles, fr_oracles, recursion_challenge_steps, steps_before_alpha, steps_before_beta,
    steps_before_v, steps_before_zeta, RecursionChallenge,
};
use crate::permutation::{
    eval_zk_polynomial, identity_perm_scalar, is_identity_permutation, lemma_identity_perm_scalar,
    perm_scalars, zk_polynomial, ZK_ROWS,
};
use crate::polynomial::{chunk_evaluations, interpolation, poly_eval, DensePolynomial};
use crate::scalar_challenge::endo_to_field;
use crate::sponge::{scalars_view, FqSponge, FqSpongeStep, FrSponge, FrSpongeStep};
use crate::verifier_index::{is_single, VerifierIndex};
use vstd::arithmetic::div_mod::{lemma_mod_twice, lemma_mul_mod_noop_general, lemma_small_mod};
use vstd::prelude::*;

verus! {

/// Why no proof can be made.
#[derive(Clone, Copy, Debug, PartialEq, Eq)]
pub enum ProverError {
    /// The witness has more rows than the domain.
    NoRoomForZkInWitness,
    /// The domain has no room for the rows that are left to blinding.
    DomainTooSmall,
    /// The public parameters of the index hold no generator.
    SRSTooSmall,
}

/// The commitments of the lookup argument.
#[derive(Clone, Debug, PartialEq, Eq)]
pub struct LookupCommitments {
    pub sorted: Vec<PolyComm<Point>>,
    pub aggreg: PolyComm<Point>,
    pub runtime: Option<PolyComm<Point>>,
}

/// The commitments of a proof.
#[derive(Clone, Debug, PartialEq, Eq)]
pub struct ProverCommitments {
    pub w_comm: [PolyComm<Point>; 15],
    pub z_comm: PolyComm<Point>,
    pub t_comm: PolyComm<Point>,
    pub lookup: Option<LookupCommitments>,
}

/// The proof that the commitment scheme gives of an opening.
#[derive(Clone, Debug, PartialEq, Eq)]
pub struct OpeningProof {
    pub lr: Vec<(Point, Point)>,
    pub delta: Point,
    pub z1: ScalarField,
    pub z2: ScalarField,
    pub sg: Point,
}

/// A proof.
#[derive(Clone, Debug, PartialEq, Eq)]
pub struct ProverProof {
    pub commitments: ProverCommitments,
    pub proof: OpeningProof,
    pub evals: ProofEvaluations<PointEvaluations<Vec<ScalarField>>>,
    pub ft_eval1: ScalarField,
    pub prev_challenges: Vec<RecursionChallenge>,
}

/// A polynomial that is to be opened.
#[derive(Clone, Debug, PartialEq, Eq)]
pub enum OpenedPolynomial {
    /// The polynomial that the commitment scheme makes of the challenges of
    /// an earlier proof.
    Challenges(Vec<ScalarField>),
    /// A polynomial by its coefficients.
    Coefficients(DensePolynomial),
}

/// A polynomial that is to be opened, the bound on its degree if any, and
/// the blinding factors of its commitment.
#[derive(Clone, Debug, PartialEq, Eq)]
pub struct PolynomialToOpen {
    pub polynomial: OpenedPolynomial,
    pub degree_bound: Option<usize>,
    pub blinders: PolyComm<ScalarField>,
}

/// The challenges of a proof.
#[derive(Clone, Copy, Debug, PartialEq, Eq)]
pub struct Oracles {
    pub beta: ScalarField,
    pub gamma: ScalarField,
    pub alpha: ScalarField,
    pub zeta: ScalarField,
    pub v: ScalarField,
    pub u: ScalarField,
}

/// All of a proof but its opening, and what the commitment scheme needs to
/// make that: the polynomials in the order of the protocol, the two points,
/// the two challenges that batch the opening, and the sponge as it stood
/// before the evaluations.
pub struct OpeningRequest<EFqSponge> {
    pub commitments: ProverCommitments,
    pub evals: ProofEvaluations<PointEvaluations<Vec<ScalarField>>>,
    pub ft_eval1: ScalarField,
    pub prev_challenges: Vec<RecursionChallenge>,
    pub oracles: Oracles,
    pub polynomials: Vec<PolynomialToOpen>,
    pub elm: [ScalarField; 2],
    pub sponge: EFqSponge,
}

/// The witness brought to `size` rows by zeros.
pub open spec fn padded(witness: Seq<nat>, size: nat) -> Seq<nat> {
    witness + Seq::new((size - witness.len()) as nat, |i: int| 0nat)
}

/// Brings the witness to the size of the domain by zeros, if it is not too
/// long for that.
pub fn pad_witness(witness: Vec<ScalarField>, size: u64) -> (r: Result<
    Vec<ScalarField>,
    ProverError,
>)
    ensures
        r is Err <==> witness.len() > size,
        r matches Err(e) ==> e == ProverError::NoRoomForZkInWitness,
        r matches Ok(p) ==> p.len() == size && scalars_view(p@) == padded(
            scalars_view(witness@),
            size as nat,
        ),
{
    if witness.len() as u64 > size {
        return Err(ProverError::NoRoomForZkInWitness);
    }
    let ghost given = witness@;
    let mut witness = witness;
    while (witness.len() as u64) < size
        invariant
            given.len() <= witness.len() <= size,
            witness@.take(given.len() as int) == given,
            forall|i: int| given.len() <= i < witness.len() ==> (#[trigger] witness[i])@ == 0,
        decreases size - witness.len(),
    {
        witness.push(ScalarField::zero());
    }
    proof {
        assert(scalars_view(witness@) =~= padded(scalars_view(given), size as nat));
    }
    Ok(witness)
}

/// The two evaluations of a constant polynomial, each in one piece.
pub open spec fn constant_evaluations(x: nat) -> PointEvaluations<Seq<nat>> {
    PointEvaluations { zeta: seq![x], zeta_omega: seq![x] }
}

/// Whether `e` holds the evaluations of the circuit at `zeta` and
/// `zeta_omega`: column `i` of the permutation is `shifts[i] * x`; the first
/// coefficient, the aggregation and the generic selector are one; the first
/// witness column is `witness_poly`, in pieces of `max_poly_size`
/// coefficients; all else is zero, and no optional part is there.
pub open spec fn is_public_input_only_evaluations(
    e: ProofEvaluations<PointEvaluations<Vec<ScalarField>>>,
    shifts: Seq<nat>,
    witness_poly: Seq<nat>,
    max_poly_size: nat,
    zeta: nat,
    zeta_omega: nat,
) -> bool {
    &&& forall|i: int|
        0 <= i < 6 ==> chunked_view(#[trigger] e.s[i]) == (PointEvaluations {
            zeta: seq![fmul(zeta, shifts[i])],
            zeta_omega: seq![fmul(zeta_omega, shifts[i])],
        })
    &&& chunked_view(e.coefficients[0]) == constant_evaluations(1)
    &&& forall|i: int|
        1 <= i < 15 ==> chunked_view(#[trigger] e.coefficients[i]) == constant_evaluations(0)
    &&& chunked_view(e.w[0]) == (PointEvaluations {
        zeta: chunk_evaluations(witness_poly, max_poly_size, zeta),
        zeta_omega: chunk_evaluations(witness_poly, max_poly_size, zeta_omega),
    })
    &&& forall|i: int| 1 <= i < 15 ==> chunked_view(#[trigger] e.w[i]) == constant_evaluations(0)
    &&& chunked_view(e.z) == constant_evaluations(1)
    &&& chunked_view(e.generic_selector) == constant_evaluations(1)
    &&& chunked_view(e.poseidon_selector) == constant_evaluations(0)
    &&& chunked_view(e.complete_add_selector) == constant_evaluations(0)
    &&& chunked_view(e.mul_selector) == constant_evaluations(0)
    &&& chunked_view(e.emul_selector) == constant_evaluations(0)
    &&& chunked_view(e.endomul_scalar_selector) == constant_evaluations(0)
    &&& e.range_check0_selector is None
    &&& e.range_check1_selector is None
    &&& e.foreign_field_add_selector is None
    &&& e.foreign_field_mul_selector is None
    &&& e.xor_selector is None
    &&& e.rot_selector is None
    &&& e.lookup_aggregation is None
    &&& e.lookup_table is None
    &&& forall|i: int| 0 <= i < 5 ==> (#[trigger] e.lookup_sorted[i]) is None
    &&& e.runtime_lookup_table is None
    &&& e.runtime_lookup_table_selector is None
    &&& e.xor_lookup_selector is None
    &&& e.lookup_gate_lookup_selector is None
    &&& e.range_check_lookup_selector is None
    &&& e.foreign_field_mul_lookup_selector is None
}

/// The evaluations of a constant polynomial.
fn constant_evals(x: ScalarField) -> (r: PointEvaluations<Vec<ScalarField>>)
    ensures
        chunked_view(r) == constant_evaluations(x@),
{
    let r = PointEvaluations::constant(x);
    proof {
        assert(scalars_view(r.zeta@) =~= seq![x@]);
        assert(scalars_view(r.zeta_omega@) =~= seq![x@]);
    }
    r
}

/// The evaluations of the polynomial `shift * x`.
fn shifted_evals(zeta: &ScalarField, zeta_omega: &ScalarField, shift: &ScalarField) -> (r:
    PointEvaluations<Vec<ScalarField>>)
    ensures
        chunked_view(r) == (PointEvaluations {
            zeta: seq![fmul(zeta@, shift@)],
            zeta_omega: seq![fmul(zeta_omega@, shift@)],
        }),
{
    let r = PointEvaluations { zeta: vec![zeta.mul(shift)], zeta_omega: vec![zeta_omega.mul(shift)] };
    proof {
        assert(scalars_view(r.zeta@) =~= seq![fmul(zeta@, shift@)]);
        assert(scalars_view(r.zeta_omega@) =~= seq![fmul(zeta_omega@, shift@)]);
    }
    r
}

/// Evaluates every polynomial of the circuit at `zeta` and at `zeta_omega`.
pub fn evaluate(
    shift: &[ScalarField; 7],
    witness_poly: &DensePolynomial,
    max_poly_size: usize,
    zeta: &ScalarField,
    zeta_omega: &ScalarField,
) -> (e: ProofEvaluations<PointEvaluations<Vec<ScalarField>>>)
    requires
        max_poly_size > 0,
    ensures
        is_public_input_only_evaluations(
            e,
            scalars_view(shift@),
            witness_poly@,
            max_poly_size as nat,
            zeta@,
            zeta_omega@,
        ),
{
    let zero = ScalarField::zero();
    let one = ScalarField::one();
    let w0 = PointEvaluations {
        zeta: witness_poly.evaluate_chunks(max_poly_size, zeta),
        zeta_omega: witness_poly.evaluate_chunks(max_poly_size, zeta_omega),
    };
    ProofEvaluations {
        s: [
            shifted_evals(zeta, zeta_omega, &shift[0]),
            shifted_evals(zeta, zeta_omega, &shift[1]),
            shifted_evals(zeta, zeta_omega, &shift[2]),
            shifted_evals(zeta, zeta_omega, &shift[3]),
            shifted_evals(zeta, zeta_omega, &shift[4]),
            shifted_evals(zeta, zeta_omega, &shift[5]),
        ],
        coefficients: [
            constant_evals(one),
            constant_evals(zero),
            constant_evals(zero),
            constant_evals(zero),
            constant_evals(zero),
            constant_evals(zero),
            constant_evals(zero),
            constant_evals(zero),
            constant_evals(zero),
            constant_evals(zero),
            constant_evals(zero),
            constant_evals(zero),
            constant_evals(zero),
            constant_evals(zero),
            constant_evals(zero),
        ],
        w: [
            w0,
            constant_evals(zero),
            constant_evals(zero),
            constant_evals(zero),
            constant_evals(zero),
            constant_evals(zero),
            constant_evals(zero),
            constant_evals(zero),
            constant_evals(zero),
            constant_evals(zero),
            constant_evals(zero),
            constant_evals(zero),
            constant_evals(zero),
            constant_evals(zero),
            constant_evals(zero),
        ],
        z: constant_evals(one),
        generic_selector: constant_evals(one),
        poseidon_selector: constant_evals(zero),
        complete_add_selector: constant_evals(zero),
        mul_selector: constant_evals(zero),
        emul_selector: constant_evals(zero),
        endomul_scalar_selector: constant_evals(zero),
        range_check0_selector: None,
        range_check1_selector: None,
        foreign_field_add_selector: None,
        foreign_field_mul_selector: None,
        xor_selector: None,
        rot_selector: None,
        lookup_aggregation: None,
        lookup_table: None,
        lookup_sorted: [None, None, None, None, None],
        runtime_lookup_table: None,
        runtime_lookup_table_selector: None,
        xor_lookup_selector: None,
        lookup_gate_lookup_selector: None,
        range_check_lookup_selector: None,
        foreign_field_mul_lookup_selector: None,
    }
}

/// The polynomial `c * x` at `x` is `x * c`.
proof fn lemma_linear_polynomial(c: nat, x: nat)
    ensures
        poly_eval(seq![0nat, c], x) == fmul(x, c),
{
    let p = scalar_modulus() as int;
    let s = seq![0nat, c];
    assert(s.drop_first() =~= seq![c]);
    assert(seq![c].drop_first() =~= Seq::<nat>::empty());
    reveal_with_fuel(poly_eval, 3);
    assert(poly_eval(seq![c], x) == fadd(c, fmul(x, 0)));
    assert(fmul(x, 0) == 0) by {
        assert(x * 0 == 0);
        lemma_small_mod(0, scalar_modulus());
    }
    assert(poly_eval(seq![c], x) == c % scalar_modulus());
    lemma_mul_mod_noop_general(x as int, c as int, p);
    lemma_mod_twice((x * c) as int, p);
}

/// The part of the linearized polynomial that is left where only the
/// permutation argument is there, and its value at `zeta_omega`: the last
/// permutation polynomial, `shift[6] * x`, times the scalar of the
/// permutation.
pub fn linearize(
    domain: &Domain,
    shift: &[ScalarField; 7],
    alphas: &[ScalarField; 3],
    evals: &ProofEvaluations<PointEvaluations<ScalarField>>,
    beta: &ScalarField,
    gamma: &ScalarField,
    zeta: &ScalarField,
    zeta_omega: &ScalarField,
) -> (r: (DensePolynomial, ScalarField))
    requires
        domain.spec_size() >= ZK_ROWS,
    ensures
        r.0@ == seq![
            0nat,
            fmul(
                crate::permutation::perm_scalar(
                    *evals,
                    beta@,
                    gamma@,
                    alphas[0]@,
                    zk_polynomial(domain.spec_group_gen(), domain.spec_size(), zeta@),
                ),
                shift[6]@,
            ),
        ],
        r.1@ == fmul(zeta_omega@, r.0@[1]),
{
    let zkp = eval_zk_polynomial(domain, zeta);
    let scalar = perm_scalars(evals, beta, gamma, alphas, &zkp);
    let c = scalar.mul(&shift[6]);
    let ft = DensePolynomial::from_coefficients_vec(vec![ScalarField::zero(), c]);
    proof {
        assert(ft@ =~= seq![0nat, c@]);
        lemma_linear_polynomial(c@, zeta_omega@);
    }
    let ft_eval1 = ft.evaluate(zeta_omega);
    (ft, ft_eval1)
}

/// The blinding factor of the linearized polynomial: it has none of its own,
/// and the quotient enters it with the factor `zeta^n - 1`.
pub fn ft_blinding(
    t_blinders: &PolyComm<ScalarField>,
    zeta_to_srs_len: &ScalarField,
    zeta_to_domain_size: &ScalarField,
) -> (r: PolyComm<ScalarField>)
    ensures
        scalars_view(r.unshifted@) == seq![
            fsub(
                0,
                fmul(
                    fsub(zeta_to_domain_size@, 1),
                    poly_eval(scalars_view(t_blinders.unshifted@), zeta_to_srs_len@),
                ),
            ),
        ],
        r.shifted is None,
{
    let blinding_t = t_blinders.chunk_blinding(zeta_to_srs_len);
    let blinding_f = ScalarField::zero();
    let b = blinding_f.sub(&zeta_to_domain_size.sub(&ScalarField::one()).mul(&blinding_t));
    let r = PolyComm { unshifted: vec![b], shifted: None };
    proof {
        assert(scalars_view(r.unshifted@) =~= seq![b@]);
    }
    r
}

/// A polynomial that is to be opened, as numbers.
pub enum OpenedPolynomialView {
    Challenges(Seq<nat>),
    Coefficients(Seq<nat>),
}

/// What is to be opened, as numbers.
pub struct PolynomialToOpenView {
    pub polynomial: OpenedPolynomialView,
    pub degree_bound: Option<usize>,
    pub blinders: Seq<nat>,
    pub shifted_blinder: Option<nat>,
}

impl View for PolynomialToOpen {
    type V = PolynomialToOpenView;

    open spec fn view(&self) -> PolynomialToOpenView {
        PolynomialToOpenView {
            polynomial: match self.polynomial {
                OpenedPolynomial::Challenges(c) => OpenedPolynomialView::Challenges(
                    scalars_view(c@),
                ),
                OpenedPolynomial::Coefficients(p) => OpenedPolynomialView::Coefficients(p@),
            },
            degree_bound: self.degree_bound,
            blinders: scalars_view(self.blinders.unshifted@),
            shifted_blinder: match self.blinders.shifted {
                Some(b) => Some(b@),
                None => None,
            },
        }
    }
}

/// The views of a list of polynomials that are to be opened.
pub open spec fn opening_views(list: Seq<PolynomialToOpen>) -> Seq<PolynomialToOpenView> {
    list.map_values(|p: PolynomialToOpen| p@)
}

/// A polynomial by its coefficients, without a bound on its degree, with the
/// given blinding factors of its pieces and none of a shifted part.
pub open spec fn dense_entry(coeffs: Seq<nat>, blinders: Seq<nat>) -> PolynomialToOpenView {
    PolynomialToOpenView {
        polynomial: OpenedPolynomialView::Coefficients(coeffs),
        degree_bound: None,
        blinders,
        shifted_blinder: None,
    }
}

/// The linearized polynomial with its blinding factors as they are given.
pub open spec fn linearized_entry(
    ft: Seq<nat>,
    blinders: Seq<nat>,
    shifted_blinder: Option<nat>,
) -> PolynomialToOpenView {
    PolynomialToOpenView {
        polynomial: OpenedPolynomialView::Coefficients(ft),
        degree_bound: None,
        blinders,
        shifted_blinder,
    }
}

/// The shifted part of blinding factors, as a number.
pub open spec fn shifted_view(b: PolyComm<ScalarField>) -> Option<nat> {
    match b.shifted {
        Some(x) => Some(x@),
        None => None,
    }
}

/// The polynomial of the challenges of an earlier proof, unblinded.
pub open spec fn recursion_entry(c: RecursionChallenge) -> PolynomialToOpenView {
    PolynomialToOpenView {
        polynomial: OpenedPolynomialView::Challenges(scalars_view(c.chals@)),
        degree_bound: None,
        blinders: Seq::new(c.comm.unshifted.len() as nat, |i: int| 0nat),
        shifted_blinder: None,
    }
}

/// The polynomials that the proof opens, in the order of the protocol: those
/// of the earlier proofs; the public input, negated; the linearized
/// polynomial; the aggregation of the permutation; the generic selector and
/// the five other selectors; the fifteen witness columns; the fifteen
/// coefficient columns; the first six columns of the permutation. What is
/// public is committed to without blinding, all else with the blinding factor
/// one.
pub open spec fn opening_list(
    prev: Seq<RecursionChallenge>,
    public_poly: Seq<nat>,
    ft: Seq<nat>,
    blinding_ft: Seq<nat>,
    shifted_blinding_ft: Option<nat>,
    witness_poly: Seq<nat>,
    shifts: Seq<nat>,
) -> Seq<PolynomialToOpenView> {
    prev.map_values(|c: RecursionChallenge| recursion_entry(c)) + seq![
        dense_entry(public_poly, seq![1nat]),
        linearized_entry(ft, blinding_ft, shifted_blinding_ft),
        dense_entry(seq![1nat], seq![0nat]),
        dense_entry(seq![1nat], seq![0nat]),
    ] + Seq::new(5, |i: int| dense_entry(Seq::empty(), seq![1nat])) + seq![
        dense_entry(witness_poly, seq![1nat]),
    ] + Seq::new(14, |i: int| dense_entry(Seq::empty(), seq![1nat])) + seq![
        dense_entry(seq![1nat], seq![0nat]),
    ] + Seq::new(14, |i: int| dense_entry(Seq::empty(), seq![1nat])) + Seq::new(
        6,
        |i: int| dense_entry(seq![0nat, shifts[i]], seq![0nat]),
    )
}

/// `pieces` blinding factors, all equal to `blinder`.
fn constant_blinders(pieces: usize, blinder: ScalarField) -> (r: PolyComm<ScalarField>)
    ensures
        scalars_view(r.unshifted@) == Seq::new(pieces as nat, |i: int| blinder@),
        r.shifted is None,
{
    let mut unshifted: Vec<ScalarField> = Vec::new();
    while unshifted.len() < pieces
        invariant
            unshifted.len() <= pieces,
            forall|i: int| 0 <= i < unshifted.len() ==> (#[trigger] unshifted[i])@ == blinder@,
        decreases pieces - unshifted.len(),
    {
        unshifted.push(blinder);
    }
    proof {
        assert(scalars_view(unshifted@) =~= Seq::new(pieces as nat, |i: int| blinder@));
    }
    PolyComm { unshifted, shifted: None }
}

/// A polynomial by its coefficients with one blinding factor.
fn dense(coeffs: Vec<ScalarField>, blinder: ScalarField) -> (r: PolynomialToOpen)
    ensures
        r@ == dense_entry(scalars_view(coeffs@), seq![blinder@]),
{
    let blinders = constant_blinders(1, blinder);
    proof {
        assert(scalars_view(blinders.unshifted@) =~= seq![blinder@]);
    }
    PolynomialToOpen {
        polynomial: OpenedPolynomial::Coefficients(DensePolynomial::from_coefficients_vec(coeffs)),
        degree_bound: None,
        blinders,
    }
}

/// Appends `count` times the zero polynomial with the blinding factor one.
fn push_zero_polynomials(list: &mut Vec<PolynomialToOpen>, count: usize)
    ensures
        opening_views(final(list)@) == opening_views(old(list)@) + Seq::new(
            count as nat,
            |i: int| dense_entry(Seq::empty(), seq![1nat]),
        ),
{
    let mut k: usize = 0;
    proof {
        assert(opening_views(list@) =~= opening_views(old(list)@) + Seq::new(
            0,
            |i: int| dense_entry(Seq::empty(), seq![1nat]),
        ));
    }
    while k < count
        invariant
            k <= count,
            opening_views(list@) == opening_views(old(list)@) + Seq::new(
                k as nat,
                |i: int| dense_entry(Seq::empty(), seq![1nat]),
            ),
        decreases count - k,
    {
        let entry = dense(Vec::new(), ScalarField::one());
        proof {
            assert(scalars_view(Seq::<ScalarField>::empty()) =~= Seq::<nat>::empty());
            assert(opening_views(list@.push(entry)) =~= opening_views(list@).push(entry@));
            assert(opening_views(old(list)@) + Seq::new(
                (k + 1) as nat,
                |i: int| dense_entry(Seq::empty(), seq![1nat]),
            ) =~= (opening_views(old(list)@) + Seq::new(
                k as nat,
                |i: int| dense_entry(Seq::empty(), seq![1nat]),
            )).push(entry@));
        }
        list.push(entry);
        k += 1;
    }
}

/// A copy of a vector of field elements.
fn copy_scalars(v: &Vec<ScalarField>) -> (r: Vec<ScalarField>)
    ensures
        r@ == v@,
{
    let mut r: Vec<ScalarField> = Vec::new();
    while r.len() < v.len()
        invariant
            r.len() <= v.len(),
            r@ == v@.take(r.len() as int),
        decreases v.len() - r.len(),
    {
        let x = v[r.len()];
        proof {
            assert(v@.take(r.len() + 1) == v@.take(r.len() as int).push(x));
        }
        r.push(x);
    }
    proof {
        assert(v@.take(v.len() as int) == v@);
    }
    r
}

/// Lists the polynomials that the proof opens, in the order of the protocol.
pub fn polynomials_to_open(
    prev_challenges: &Vec<RecursionChallenge>,
    public_poly: DensePolynomial,
    ft: DensePolynomial,
    blinding_ft: PolyComm<ScalarField>,
    witness_poly: DensePolynomial,
    shift: &[ScalarField; 7],
) -> (list: Vec<PolynomialToOpen>)
    ensures
        opening_views(list@) == opening_list(
            prev_challenges@,
            public_poly@,
            ft@,
            scalars_view(blinding_ft.unshifted@),
            shifted_view(blinding_ft),
            witness_poly@,
            scalars_view(shift@),
        ),
{
    let zero = ScalarField::zero();
    let one = ScalarField::one();
    let mut list: Vec<PolynomialToOpen> = Vec::new();
    let mut i: usize = 0;
    proof {
        assert(opening_views(list@) =~= prev_challenges@.take(0).map_values(
            |c: RecursionChallenge| recursion_entry(c),
        ));
    }
    while i < prev_challenges.len()
        invariant
            i <= prev_challenges.len(),
            zero@ == 0,
            one@ == 1,
            opening_views(list@) == prev_challenges@.take(i as int).map_values(
                |c: RecursionChallenge| recursion_entry(c),
            ),
        decreases prev_challenges.len() - i,
    {
        let entry = PolynomialToOpen {
            polynomial: OpenedPolynomial::Challenges(copy_scalars(&prev_challenges[i].chals)),
            degree_bound: None,
            blinders: constant_blinders(prev_challenges[i].comm.unshifted.len(), zero),
        };
        proof {
            assert(entry@ == recursion_entry(prev_challenges[i as int]));
            assert(opening_views(list@.push(entry)) =~= opening_views(list@).push(entry@));
            assert(prev_challenges@.take(i + 1).map_values(
                |c: RecursionChallenge| recursion_entry(c),
            ) =~= prev_challenges@.take(i as int).map_values(
                |c: RecursionChallenge| recursion_entry(c),
            ).push(entry@));
        }
        list.push(entry);
        i += 1;
    }
    proof {
        assert(prev_challenges@.take(prev_challenges.len() as int) == prev_challenges@);
    }
    let ghost recursion = opening_views(list@);
    let ghost public_view = public_poly@;
    let ghost ft_view = ft@;
    let ghost witness_view = witness_poly@;
    let ghost blinding_view = scalars_view(blinding_ft.unshifted@);
    let ghost shifted_blinding = shifted_view(blinding_ft);
    let e0 = dense(public_poly.coeffs, one);
    let e1 = PolynomialToOpen {
        polynomial: OpenedPolynomial::Coefficients(ft),
        degree_bound: None,
        blinders: blinding_ft,
    };
    let ones2 = vec![one];
    let ones3 = vec![one];
    proof {
        assert(scalars_view(ones2@) =~= seq![1nat]);
        assert(scalars_view(ones3@) =~= seq![1nat]);
    }
    let e2 = dense(ones2, zero);
    let e3 = dense(ones3, zero);
    proof {
        assert(opening_views(list@.push(e0).push(e1).push(e2).push(e3)) =~= recursion + seq![
            dense_entry(public_view, seq![1nat]),
            linearized_entry(ft_view, blinding_view, shifted_blinding),
            dense_entry(seq![1nat], seq![0nat]),
            dense_entry(seq![1nat], seq![0nat]),
        ]);
    }
    list.push(e0);
    list.push(e1);
    list.push(e2);
    list.push(e3);
    push_zero_polynomials(&mut list, 5);
    let ghost selectors = opening_views(list@);
    let e4 = dense(witness_poly.coeffs, one);
    proof {
        assert(opening_views(list@.push(e4)) =~= selectors + seq![
            dense_entry(witness_view, seq![1nat]),
        ]);
    }
    list.push(e4);
    push_zero_polynomials(&mut list, 14);
    let ghost witnesses = opening_views(list@);
    let ones5 = vec![one];
    proof {
        assert(scalars_view(ones5@) =~= seq![1nat]);
    }
    let e5 = dense(ones5, zero);
    proof {
        assert(opening_views(list@.push(e5)) =~= witnesses + seq![
            dense_entry(seq![1nat], seq![0nat]),
        ]);
    }
    list.push(e5);
    push_zero_polynomials(&mut list, 14);
    let ghost coefficients = opening_views(list@);
    let ghost shifts = scalars_view(shift@);
    let mut j: usize = 0;
    proof {
        assert(opening_views(list@) =~= coefficients + Seq::new(
            0,
            |i: int| dense_entry(seq![0nat, shifts[i]], seq![0nat]),
        ));
    }
    while j < 6
        invariant
            j <= 6,
            zero@ == 0,
            shifts == scalars_view(shift@),
            opening_views(list@) == coefficients + Seq::new(
                j as nat,
                |i: int| dense_entry(seq![0nat, shifts[i]], seq![0nat]),
            ),
        decreases 6 - j,
    {
        let coeffs = vec![zero, shift[j]];
        proof {
            assert(scalars_view(coeffs@) =~= seq![0nat, shifts[j as int]]);
        }
        let entry = dense(coeffs, zero);
        proof {
            assert(opening_views(list@.push(entry)) =~= opening_views(list@).push(entry@));
            assert(coefficients + Seq::new(
                (j + 1) as nat,
                |i: int| dense_entry(seq![0nat, shifts[i]], seq![0nat]),
            ) =~= (coefficients + Seq::new(
                j as nat,
                |i: int| dense_entry(seq![0nat, shifts[i]], seq![0nat]),
            )).push(entry@));
        }
        list.push(entry);
        j += 1;
    }
    list
}

/// Whether `c` is `base` with `blinder` added to each piece.
pub open spec fn is_blinded(c: PolyComm<Point>, base: PolyComm<Point>, blinder: Point) -> bool {
    &&& c.unshifted.len() == base.unshifted.len()
    &&& forall|i: int|
        0 <= i < base.unshifted.len() ==> (#[trigger] c.unshifted[i])@ == pallas_add(
            base.unshifted[i]@,
            blinder@,
        )
    &&& c.shifted is Some <==> base.shifted is Some
    &&& c.shifted matches Some(s) ==> s@ == pallas_add(base.shifted->Some_0@, blinder@)
}

/// Whether these are the commitments of the circuit to a witness whose
/// unblinded commitment is `witness_comm`. The first witness column is that
/// commitment with the blinding factor one; the other columns are zero with
/// the blinding factor one. The aggregation of the permutation is the constant
/// one, unblinded. The quotient is zero, in seven pieces with the blinding
/// factor one each.
pub open spec fn are_public_input_only_commitments(
    c: ProverCommitments,
    witness_comm: PolyComm<Point>,
    srs: SRS,
) -> bool {
    &&& is_blinded(c.w_comm[0], witness_comm, srs.h)
    &&& forall|i: int| 1 <= i < 15 ==> is_single(#[trigger] c.w_comm[i], srs.h@)
    &&& is_single(c.z_comm, srs.g[0]@)
    &&& points_view(c.t_comm.unshifted@) == Seq::new(7, |i: int| srs.h@)
    &&& c.t_comm.shifted is None
    &&& c.lookup is None
}

/// A commitment of one piece.
fn single(p: Point) -> (c: PolyComm<Point>)
    ensures
        is_single(c, p@),
{
    let c = PolyComm::single(p);
    proof {
        assert(points_view(c.unshifted@) =~= seq![p@]);
    }
    c
}

/// Makes the commitments of the circuit from the unblinded commitment to the
/// witness: the commitments of the proof, and the blinding factors of the
/// quotient.
pub fn commit(witness_comm: &PolyComm<Point>, srs: &SRS) -> (r: (
    ProverCommitments,
    PolyComm<ScalarField>,
))
    requires
        srs.g.len() > 0,
    ensures
        are_public_input_only_commitments(r.0, *witness_comm, *srs),
        scalars_view(r.1.unshifted@) == Seq::new(7, |i: int| 1nat),
        r.1.shifted is None,
{
    let h = srs.h;
    let w0 = witness_comm.blind_with(&h);
    let t = PolyComm { unshifted: vec![h, h, h, h, h, h, h], shifted: None };
    let one = ScalarField::one();
    let blinders = PolyComm { unshifted: vec![one, one, one, one, one, one, one], shifted: None };
    proof {
        assert(points_view(t.unshifted@) =~= Seq::new(7, |i: int| srs.h@));
        assert(scalars_view(blinders.unshifted@) =~= Seq::new(7, |i: int| 1nat));
    }
    let commitments = ProverCommitments {
        w_comm: [
            w0,
            single(h),
            single(h),
            single(h),
            single(h),
            single(h),
            single(h),
            single(h),
            single(h),
            single(h),
            single(h),
            single(h),
            single(h),
            single(h),
            single(h),
        ],
        z_comm: single(srs.g[0]),
        t_comm: t,
        lookup: None,
    };
    (commitments, blinders)
}

/// The polynomial with every coefficient negated.
pub open spec fn negated(p: Seq<nat>) -> Seq<nat> {
    p.map_values(|c: nat| fneg(c))
}

/// A polynomial of one coefficient is that coefficient everywhere.
proof fn lemma_constant_polynomial(c: nat, x: nat)
    ensures
        poly_eval(seq![c], x) == c % scalar_modulus(),
{
    assert(seq![c].drop_first() =~= Seq::<nat>::empty());
    reveal_with_fuel(poly_eval, 2);
    assert(x * 0 == 0);
    lemma_small_mod(0, scalar_modulus());
}

/// The steps of the base-field sponge before the evaluations: all the
/// commitments of a proof have gone in, and `zeta` has come out.
pub open spec fn steps_before_evaluations<EFqSponge: FqSponge>(
    index: VerifierIndex,
    prev_challenges: Seq<RecursionChallenge>,
    commitments: ProverCommitments,
) -> Seq<FqSpongeStep> {
    steps_before_zeta(
        EFqSponge::squeeze_fq(index.digest_steps()),
        prev_challenges,
        commitments.w_comm@,
        commitments.z_comm,
        commitments.t_comm,
    ).push(FqSpongeStep::Challenge)
}

/// Whether `o` holds the challenges that the two sponges give for the
/// commitments and the evaluations of a proof, in the order of the protocol.
/// Those that a circuit reads again, `alpha`, `zeta`, `v` and `u`, are mapped
/// into the field by the endomorphism.
pub open spec fn are_oracles_of<EFqSponge: FqSponge, EFrSponge: FrSponge>(
    o: Oracles,
    index: VerifierIndex,
    prev_challenges: Seq<RecursionChallenge>,
    commitments: ProverCommitments,
    ft_eval1: nat,
    public_evals: PointEvaluations<Seq<nat>>,
    evals: ProofEvaluations<PointEvaluations<Vec<ScalarField>>>,
) -> bool {
    let digest = EFqSponge::squeeze_fq(index.digest_steps());
    let before_beta = steps_before_beta(digest, prev_challenges, commitments.w_comm@);
    let before_alpha = steps_before_alpha(
        digest,
        prev_challenges,
        commitments.w_comm@,
        commitments.z_comm,
    );
    let before_zeta = steps_before_zeta(
        digest,
        prev_challenges,
        commitments.w_comm@,
        commitments.z_comm,
        commitments.t_comm,
    );
    let before_v = steps_before_v(
        EFqSponge::squeeze(before_zeta.push(FqSpongeStep::Challenge)),
        ft_eval1,
        EFrSponge::squeeze(recursion_challenge_steps(prev_challenges)),
        public_evals,
        evals,
    );
    &&& o.beta@ == EFqSponge::squeeze(before_beta)
    &&& o.gamma@ == EFqSponge::squeeze(before_beta.push(FqSpongeStep::Challenge))
    &&& o.alpha@ == endo_to_field(EFqSponge::squeeze(before_alpha), 128, endo_scalar())
    &&& o.zeta@ == endo_to_field(EFqSponge::squeeze(before_zeta), 128, endo_scalar())
    &&& o.v@ == endo_to_field(EFrSponge::squeeze(before_v), 128, endo_scalar())
    &&& o.u@ == endo_to_field(
        EFrSponge::squeeze(before_v.push(FrSpongeStep::Challenge)),
        128,
        endo_scalar(),
    )
}

impl<EFqSponge: FqSponge> OpeningRequest<EFqSponge> {
    /// Whether the challenges are those that the two sponges give for the
    /// commitments and evaluations of this request, in the order of the
    /// protocol, and the sponge that goes with the request stands where the
    /// evaluations begin.
    pub open spec fn has_oracles_of<EFrSponge: FrSponge>(&self, index: VerifierIndex) -> bool {
        &&& are_oracles_of::<EFqSponge, EFrSponge>(
            self.oracles,
            index,
            self.prev_challenges@,
            self.commitments,
            self.ft_eval1@,
            self.public_evaluations(index),
            self.evals,
        )
        &&& self.sponge.transcript() == steps_before_evaluations::<EFqSponge>(
            index,
            self.prev_challenges@,
            self.commitments,
        )
    }

    /// The evaluations of the public input, which is the negated witness: its
    /// pieces put together, at `zeta` and at `zeta * omega`.
    pub open spec fn public_evaluations(&self, index: VerifierIndex) -> PointEvaluations<Seq<nat>> {
        let power = fpow(self.oracles.zeta@, index.max_poly_size as nat);
        let power_omega = fpow(
            fmul(self.oracles.zeta@, index.domain.spec_group_gen()),
            index.max_poly_size as nat,
        );
        PointEvaluations {
            zeta: seq![fneg(poly_eval(scalars_view(self.evals.w[0].zeta@), power))],
            zeta_omega: seq![
                fneg(poly_eval(scalars_view(self.evals.w[0].zeta_omega@), power_omega)),
            ],
        }
    }

    /// The coefficient of `x` in the linearized polynomial: the closed form of
    /// the scalar of the permutation, times the last shift.
    pub open spec fn ft_coefficient(&self, index: VerifierIndex) -> nat {
        let zeta = self.oracles.zeta@;
        let shifts = scalars_view(index.shift@);
        fmul(
            identity_perm_scalar(
                self.oracles.beta@,
                self.oracles.gamma@,
                fpow(self.oracles.alpha@, index.powers_of_alpha.gates as nat),
                zeta,
                shifts,
                poly_eval(
                    scalars_view(self.evals.w[0].zeta@),
                    fpow(zeta, index.max_poly_size as nat),
                ),
                zk_polynomial(index.domain.spec_group_gen(), index.domain.spec_size(), zeta),
            ),
            shifts[6],
        )
    }

    /// The blinding factor of the linearized polynomial.
    pub open spec fn ft_blinder(&self, index: VerifierIndex) -> nat {
        let zeta = self.oracles.zeta@;
        fsub(
            0,
            fmul(
                fsub(fpow(zeta, index.domain.spec_size()), 1),
                poly_eval(Seq::new(7, |i: int| 1nat), fpow(zeta, index.max_poly_size as nat)),
            ),
        )
    }

    /// Whether this is what the prover owes for the given witness, whose
    /// unblinded commitment is `witness_comm`: the commitments of the circuit,
    /// the challenges that the transcript gives for them, the evaluations of
    /// every polynomial at the two points, the value of the linearized
    /// polynomial, and the list of what is to be opened.
    pub open spec fn is_request_for<EFrSponge: FrSponge>(
        &self,
        witness: Seq<nat>,
        witness_comm: PolyComm<Point>,
        index: VerifierIndex,
        prev_challenges: Seq<RecursionChallenge>,
    ) -> bool {
        let zeta = self.oracles.zeta@;
        let zeta_omega = fmul(zeta, index.domain.spec_group_gen());
        let shifts = scalars_view(index.shift@);
        let witness_poly = interpolation(padded(witness, index.domain.spec_size()));
        &&& self.prev_challenges@ == prev_challenges
        &&& are_public_input_only_commitments(
            self.commitments,
            witness_comm,
            index.srs,
        )
        &&& self.has_oracles_of::<EFrSponge>(index)
        &&& is_public_input_only_evaluations(
            self.evals,
            shifts,
            witness_poly,
            index.max_poly_size as nat,
            zeta,
            zeta_omega,
        )
        &&& self.ft_eval1@ == fmul(zeta_omega, self.ft_coefficient(index))
        &&& opening_views(self.polynomials@) == opening_list(
            prev_challenges,
            negated(witness_poly),
            seq![0nat, self.ft_coefficient(index)],
            seq![self.ft_blinder(index)],
            None,
            witness_poly,
            shifts,
        )
        &&& scalars_view(self.elm@) == seq![zeta, zeta_omega]
    }

    /// The proof, once the commitment scheme has opened the polynomials of
    /// the request.
    pub fn into_proof(self, proof: OpeningProof) -> (r: ProverProof)
        ensures
            r.commitments == self.commitments,
            r.proof == proof,
            r.evals == self.evals,
            r.ft_eval1 == self.ft_eval1,
            r.prev_challenges == self.prev_challenges,
    {
        ProverProof {
            commitments: self.commitments,
            proof,
            evals: self.evals,
            ft_eval1: self.ft_eval1,
            prev_challenges: self.prev_challenges,
        }
    }
}

/// Put together, the evaluations of the circuit are those of the identity
/// permutation.
proof fn lemma_combined_evaluations(
    chunked: ProofEvaluations<PointEvaluations<Vec<ScalarField>>>,
    evals: ProofEvaluations<PointEvaluations<ScalarField>>,
    pt: PointEvaluations<ScalarField>,
    shifts: Seq<nat>,
    witness_poly: Seq<nat>,
    max_poly_size: nat,
    zeta: nat,
    zeta_omega: nat,
)
    requires
        is_public_input_only_evaluations(
            chunked,
            shifts,
            witness_poly,
            max_poly_size,
            zeta,
            zeta_omega,
        ),
        chunked.combines_to(evals, pt),
        shifts.len() == 7,
    ensures
        is_identity_permutation(evals, zeta, shifts),
        evals.w[0].zeta@ == poly_eval(scalars_view(chunked.w[0].zeta@), pt.zeta@),
        evals.w[0].zeta_omega@ == poly_eval(
            scalars_view(chunked.w[0].zeta_omega@),
            pt.zeta_omega@,
        ),
{
    let p = scalar_modulus() as int;
    assert forall|i: int| 0 <= i < 6 implies (#[trigger] evals.s[i]).zeta@ == fmul(
        zeta,
        shifts[i],
    ) by {
        assert(crate::evaluations::is_combined(evals.s[i], chunked.s[i], pt));
        assert(chunked_view(chunked.s[i]).zeta == seq![fmul(zeta, shifts[i])]);
        lemma_constant_polynomial(fmul(zeta, shifts[i]), pt.zeta@);
        lemma_mod_twice((zeta * shifts[i]) as int, p);
    }
    assert forall|i: int| 1 <= i < 6 implies (#[trigger] evals.w[i]).zeta@ == 0 by {
        assert(crate::evaluations::is_combined(evals.w[i], chunked.w[i], pt));
        assert(chunked_view(chunked.w[i]).zeta == seq![0nat]);
        lemma_constant_polynomial(0, pt.zeta@);
        lemma_small_mod(0, scalar_modulus());
    }
    assert(evals.z.zeta_omega@ == 1) by {
        assert(chunked_view(chunked.z).zeta_omega == seq![1nat]);
        lemma_constant_polynomial(1, pt.zeta_omega@);
        lemma_small_mod(1, scalar_modulus());
    }
    assert(crate::evaluations::is_combined(evals.w[0], chunked.w[0], pt));
}

impl ProverProof {
    /// Makes all of a proof but its opening, for a circuit whose public input
    /// is `witness` and whose other cells are zero. `witness_comm` is the
    /// commitment, without blinding, to the witness padded to the size of the
    /// domain. `prev_challenges` are the challenges of earlier proofs that
    /// this one hands on.
    ///
    /// The blinding factors are fixed, so the proof hides nothing of the
    /// witness.
    #[verifier::rlimit(80)]
    pub fn create_recursive_public_input_only<EFqSponge: FqSponge, EFrSponge: FrSponge>(
        witness: Vec<ScalarField>,
        witness_comm: &PolyComm<Point>,
        index: &VerifierIndex,
        prev_challenges: Vec<RecursionChallenge>,
    ) -> (r: Result<OpeningRequest<EFqSponge>, ProverError>)
        ensures
            r is Err <==> witness.len() > index.domain.spec_size() || index.domain.spec_size()
                < ZK_ROWS || index.srs.g.len() == 0 || index.max_poly_size == 0,
            r matches Err(e) ==> e == (if witness.len() > index.domain.spec_size() {
                ProverError::NoRoomForZkInWitness
            } else if index.domain.spec_size() < ZK_ROWS {
                ProverError::DomainTooSmall
            } else {
                ProverError::SRSTooSmall
            }),
            r matches Ok(req) ==> req.is_request_for::<EFrSponge>(
                scalars_view(witness@),
                *witness_comm,
                *index,
                prev_challenges@,
            ),
    {
        let d1_size = index.domain.size();
        let ghost witness_view = scalars_view(witness@);
        let padded_witness = match pad_witness(witness, d1_size) {
            Ok(p) => p,
            Err(e) => {
                return Err(e);
            },
        };
        if d1_size < ZK_ROWS {
            return Err(ProverError::DomainTooSmall);
        }
        if index.srs.g.len() == 0 || index.max_poly_size == 0 {
            return Err(ProverError::SRSTooSmall);
        }
        let (_, endo_r) = endos();
        let witness_poly = DensePolynomial::interpolate(&padded_witness, &index.domain);
        let public_poly = witness_poly.neg();
        let ghost witness_poly_view = witness_poly@;
        proof {
            assert(public_poly@ =~= negated(witness_poly_view));
        }
        let (commitments, t_blinders) = commit(witness_comm, &index.srs);

        let index_digest = index.digest::<EFqSponge>();
        let fq = fq_oracles::<EFqSponge>(
            &index_digest,
            &prev_challenges,
            &commitments.w_comm,
            &commitments.z_comm,
            &commitments.t_comm,
        );
        let beta = fq.beta;
        let gamma = fq.gamma;
        let alpha = fq.alpha_chal.to_field(&endo_r);
        let zeta = fq.zeta_chal.to_field(&endo_r);
        let omega = index.domain.group_gen();
        let zeta_omega = zeta.mul(&omega);

        let chunked_evals = evaluate(
            &index.shift,
            &witness_poly,
            index.max_poly_size,
            &zeta,
            &zeta_omega,
        );
        let zeta_to_srs_len = zeta.pow(index.max_poly_size as u64);
        let zeta_omega_to_srs_len = zeta_omega.pow(index.max_poly_size as u64);
        let zeta_to_domain_size = zeta.pow(d1_size);
        let powers = PointEvaluations { zeta: zeta_to_srs_len, zeta_omega: zeta_omega_to_srs_len };
        let evals = chunked_evals.combine(&powers);

        let alphas = index.powers_of_alpha.permutation_alphas(&alpha);
        let (ft, ft_eval1) = linearize(
            &index.domain,
            &index.shift,
            &alphas,
            &evals,
            &beta,
            &gamma,
            &zeta,
            &zeta_omega,
        );
        let blinding_ft = ft_blinding(&t_blinders, &zeta_to_srs_len, &zeta_to_domain_size);
        proof {
            lemma_combined_evaluations(
                chunked_evals,
                evals,
                powers,
                scalars_view(index.shift@),
                witness_poly_view,
                index.max_poly_size as nat,
                zeta@,
                zeta_omega@,
            );
            lemma_identity_perm_scalar(
                evals,
                beta@,
                gamma@,
                alphas[0]@,
                zeta@,
                scalars_view(index.shift@),
                zk_polynomial(index.domain.spec_group_gen(), index.domain.spec_size(), zeta@),
            );
        }

        let public_evals = PointEvaluations {
            zeta: vec![evals.w[0].zeta.neg()],
            zeta_omega: vec![evals.w[0].zeta_omega.neg()],
        };
        proof {
            assert(scalars_view(public_evals.zeta@) =~= seq![fneg(evals.w[0].zeta@)]);
            assert(scalars_view(public_evals.zeta_omega@) =~= seq![fneg(evals.w[0].zeta_omega@)]);
        }
        let (v_chal, u_chal) = fr_oracles::<EFrSponge>(
            &fq.digest,
            &ft_eval1,
            &prev_challenges,
            &public_evals,
            &chunked_evals,
        );
        let v = v_chal.to_field(&endo_r);
        let u = u_chal.to_field(&endo_r);

        let polynomials = polynomials_to_open(
            &prev_challenges,
            public_poly,
            ft,
            blinding_ft,
            witness_poly,
            &index.shift,
        );
        let elm = [zeta, zeta_omega];
        proof {
            assert(scalars_view(elm@) =~= seq![zeta@, zeta_omega@]);
        }
        let req = OpeningRequest {
            commitments,
            evals: chunked_evals,
            ft_eval1,
            prev_challenges,
            oracles: Oracles { beta, gamma, alpha, zeta, v, u },
            polynomials,
            elm,
            sponge: fq.sponge,
        };
        proof {
            assert(chunked_view(public_evals) == req.public_evaluations(*index));
            assert(req.has_oracles_of::<EFrSponge>(*index));
        }
        Ok(req)
    }

    /// Makes all of a proof but its opening, for a circuit whose public input
    /// is `witness` and whose other cells are zero, where no earlier proof is
    /// handed on.
    pub fn create_public_input_only<EFqSponge: FqSponge, EFrSponge: FrSponge>(
        witness: Vec<ScalarField>,
        witness_comm: &PolyComm<Point>,
        index: &VerifierIndex,
    ) -> (r: Result<OpeningRequest<EFqSponge>, ProverError>)
        ensures
            r is Err <==> witness.len() > index.domain.spec_size() || index.domain.spec_size()
                < ZK_ROWS || index.srs.g.len() == 0 || index.max_poly_size == 0,
            r matches Err(e) ==> e == (if witness.len() > index.domain.spec_size() {
                ProverError::NoRoomForZkInWitness
            } else if index.domain.spec_size() < ZK_ROWS {
                ProverError::DomainTooSmall
            } else {
                ProverError::SRSTooSmall
            }),
            r matches Ok(req) ==> req.is_request_for::<EFrSponge>(
                scalars_view(witness@),
                *witness_comm,
                *index,
                Seq::empty(),
            ),
    {
        Self::create_recursive_public_input_only::<EFqSponge, EFrSponge>(
            witness,
            witness_comm,
            index,
            Vec::new(),
        )
    }
}

/// Commitments with the same pieces enter a sponge by the same steps.
proof fn lemma_same_commitment_steps(c: PolyComm<Point>, d: PolyComm<Point>)
    requires
        points_view(c.unshifted@) == points_view(d.unshifted@),
        c.shifted is Some <==> d.shifted is Some,
        c.shifted is Some ==> c.shifted->Some_0@ == d.shifted->Some_0@,
    ensures
        crate::commitment::commitment_steps(c) == crate::commitment::commitment_steps(d),
{
}

/// Runs of commitments that enter a sponge alike one by one enter it alike
/// as a whole.
proof fn lemma_same_commitments_steps(a: Seq<PolyComm<Point>>, b: Seq<PolyComm<Point>>)
    requires
        a.len() == b.len(),
        forall|i: int|
            0 <= i < a.len() ==> crate::commitment::commitment_steps(#[trigger] a[i])
                == crate::commitment::commitment_steps(b[i]),
    ensures
        crate::commitment::commitments_steps(a) == crate::commitment::commitments_steps(b),
    decreases a.len(),
{
    if a.len() > 0 {
        lemma_same_commitments_steps(a.drop_last(), b.drop_last());
        assert(crate::commitment::commitment_steps(a[a.len() - 1])
            == crate::commitment::commitment_steps(b[a.len() - 1]));
    }
}

/// The evaluations of the circuit are the same to a sponge whenever the
/// witness, the shifts and the two points are.
proof fn lemma_same_evaluations(
    a: ProofEvaluations<PointEvaluations<Vec<ScalarField>>>,
    b: ProofEvaluations<PointEvaluations<Vec<ScalarField>>>,
    shifts: Seq<nat>,
    witness_poly: Seq<nat>,
    max_poly_size: nat,
    zeta: nat,
    zeta_omega: nat,
)
    requires
        is_public_input_only_evaluations(a, shifts, witness_poly, max_poly_size, zeta, zeta_omega),
        is_public_input_only_evaluations(b, shifts, witness_poly, max_poly_size, zeta, zeta_omega),
    ensures
        a.in_order() == b.in_order(),
        chunked_view(a.w[0]) == chunked_view(b.w[0]),
{
    assert(a.w@.map_values(|e: PointEvaluations<Vec<ScalarField>>| chunked_view(e))
        =~= b.w@.map_values(|e: PointEvaluations<Vec<ScalarField>>| chunked_view(e))) by {
        assert forall|i: int| 0 <= i < 15 implies chunked_view(#[trigger] a.w[i]) == chunked_view(
            b.w[i],
        ) by {
            if i > 0 {
                assert(chunked_view(a.w[i]) == constant_evaluations(0));
                assert(chunked_view(b.w[i]) == constant_evaluations(0));
            }
        }
    }
    assert(a.coefficients@.map_values(|e: PointEvaluations<Vec<ScalarField>>| chunked_view(e))
        =~= b.coefficients@.map_values(
        |e: PointEvaluations<Vec<ScalarField>>| chunked_view(e),
    )) by {
        assert forall|i: int| 0 <= i < 15 implies chunked_view(#[trigger] a.coefficients[i])
            == chunked_view(b.coefficients[i]) by {
            if i > 0 {
                assert(chunked_view(a.coefficients[i]) == constant_evaluations(0));
                assert(chunked_view(b.coefficients[i]) == constant_evaluations(0));
            }
        }
    }
    assert(a.s@.map_values(|e: PointEvaluations<Vec<ScalarField>>| chunked_view(e))
        =~= b.s@.map_values(|e: PointEvaluations<Vec<ScalarField>>| chunked_view(e))) by {
        assert forall|i: int| 0 <= i < 6 implies chunked_view(#[trigger] a.s[i]) == chunked_view(
            b.s[i],
        ) by {
            assert(chunked_view(a.s[i]).zeta == seq![fmul(zeta, shifts[i])]);
            assert(chunked_view(b.s[i]).zeta == seq![fmul(zeta, shifts[i])]);
        }
    }
    assert(a.lookup_sorted[0] is None && b.lookup_sorted[0] is None);
    assert(a.lookup_sorted[1] is None && b.lookup_sorted[1] is None);
    assert(a.lookup_sorted[2] is None && b.lookup_sorted[2] is None);
    assert(a.lookup_sorted[3] is None && b.lookup_sorted[3] is None);
    assert(a.lookup_sorted[4] is None && b.lookup_sorted[4] is None);
}

/// The transcript is a function of what the prover is given: two requests for
/// the same witness, commitment, index and earlier proofs hold the same
/// challenges, the same evaluations, the same value of the linearized
/// polynomial and the same list of polynomials to open, and their sponges
/// stand at the same place.
pub proof fn lemma_transcript_is_deterministic<EFqSponge: FqSponge, EFrSponge: FrSponge>(
    a: OpeningRequest<EFqSponge>,
    b: OpeningRequest<EFqSponge>,
    witness: Seq<nat>,
    witness_comm: PolyComm<Point>,
    index: VerifierIndex,
    prev_challenges: Seq<RecursionChallenge>,
)
    requires
        a.is_request_for::<EFrSponge>(witness, witness_comm, index, prev_challenges),
        b.is_request_for::<EFrSponge>(witness, witness_comm, index, prev_challenges),
    ensures
        a.oracles.beta@ == b.oracles.beta@,
        a.oracles.gamma@ == b.oracles.gamma@,
        a.oracles.alpha@ == b.oracles.alpha@,
        a.oracles.zeta@ == b.oracles.zeta@,
        a.oracles.v@ == b.oracles.v@,
        a.oracles.u@ == b.oracles.u@,
        a.sponge.transcript() == b.sponge.transcript(),
        a.evals.in_order() == b.evals.in_order(),
        a.ft_eval1@ == b.ft_eval1@,
        opening_views(a.polynomials@) == opening_views(b.polynomials@),
        scalars_view(a.elm@) == scalars_view(b.elm@),
{
    let h = index.srs.h;
    assert(crate::commitment::commitments_steps(a.commitments.w_comm@)
        == crate::commitment::commitments_steps(b.commitments.w_comm@)) by {
        assert forall|i: int| 0 <= i < 15 implies crate::commitment::commitment_steps(
            #[trigger] a.commitments.w_comm@[i],
        ) == crate::commitment::commitment_steps(b.commitments.w_comm@[i]) by {
            if i == 0 {
                assert(points_view(a.commitments.w_comm[0].unshifted@) =~= points_view(
                    b.commitments.w_comm[0].unshifted@,
                ));
            } else {
                assert(is_single(a.commitments.w_comm[i], h@));
                assert(is_single(b.commitments.w_comm[i], h@));
            }
            lemma_same_commitment_steps(a.commitments.w_comm[i], b.commitments.w_comm[i]);
        }
        lemma_same_commitments_steps(a.commitments.w_comm@, b.commitments.w_comm@);
    }
    lemma_same_commitment_steps(a.commitments.z_comm, b.commitments.z_comm);
    lemma_same_commitment_steps(a.commitments.t_comm, b.commitments.t_comm);
    let zeta = a.oracles.zeta@;
    assert(zeta == b.oracles.zeta@);
    lemma_same_evaluations(
        a.evals,
        b.evals,
        scalars_view(index.shift@),
        interpolation(padded(witness, index.domain.spec_size())),
        index.max_poly_size as nat,
        zeta,
        fmul(zeta, index.domain.spec_group_gen()),
    );
    assert(a.public_evaluations(index) == b.public_evaluations(index));
    assert(a.ft_coefficient(index) == b.ft_coefficient(index));
}

} // verus!
