//! The permutation argument, for the circuit in which no cell is wired to
//! another: each column is paired with its own shift of the domain.

use crate::domain::Domain;
use crate::evaluations::{PointEvaluations, ProofEvaluations, PERMUTS};
use crate::field::{
    fadd, fmul, fneg, fpow, fsub, lemma_fpow_of_one, lemma_fpow_of_power, lemma_fpow_of_product,
    scalar_modulus, ScalarField,
};
use crate::sponge::scalars_view;
use vstd::arithmetic::div_mod::{
    lemma_mod_bound, lemma_mod_twice, lemma_mul_mod_noop_general, lemma_small_mod,
};
use vstd::prelude::*;

verus! {

/// The number of rows at the end of the domain that are left to blinding.
pub const ZK_ROWS: u64 = 3;

/// The number of constraints of the permutation argument.
pub const CONSTRAINTS: u32 = 3;

/// The shifts in use: the first powers of five, which generates the
/// multiplicative group of the field.
pub open spec fn canonical_shifts() -> Seq<nat> {
    seq![1, 5, 25, 125, 625, 3125, 15625]
}

/// Whether the shifts lie in different cosets of the subgroup of order `n`:
/// two elements do so exactly when their `n`-th powers differ.
pub open spec fn cosets_distinct(shifts: Seq<nat>, n: nat) -> bool {
    forall|i: int, j: int|
        0 <= i < j < shifts.len() ==> fpow(#[trigger] shifts[i], n) != fpow(
            #[trigger] shifts[j],
            n,
        )
}

/// One shift for each column of the permutation.
#[derive(Clone, Copy, Debug, PartialEq, Eq)]
pub struct Shifts {
    pub shifts: [ScalarField; 7],
}

/// Whether no two of the seven elements are the same.
fn all_distinct(v: &[ScalarField; 7]) -> (b: bool)
    ensures
        b <==> forall|i: int, j: int| 0 <= i < j < 7 ==> (#[trigger] v[i])@ != (#[trigger] v[j])@,
{
    let mut i: usize = 0;
    while i < 7
        invariant
            i <= 7,
            forall|a: int, b: int| 0 <= a < i && a < b < 7 ==> (#[trigger] v[a])@ != (#[trigger] v[b])@,
        decreases 7 - i,
    {
        let mut j: usize = i + 1;
        while j < 7
            invariant
                i < j <= 7,
                forall|a: int, b: int|
                    0 <= a < i && a < b < 7 ==> (#[trigger] v[a])@ != (#[trigger] v[b])@,
                forall|b: int| i < b < j ==> v[i as int]@ != (#[trigger] v[b])@,
            decreases 7 - j,
        {
            if v[i].equals(&v[j]) {
                return false;
            }
            j += 1;
        }
        i += 1;
    }
    true
}

impl Shifts {
    /// The canonical shifts, if they lie in different cosets of the domain.
    pub fn new(domain: &Domain) -> (r: Option<Shifts>)
        ensures
            r is Some <==> cosets_distinct(canonical_shifts(), domain.spec_size()),
            r matches Some(s) ==> scalars_view(s.shifts@) == canonical_shifts(),
    {
        let n = domain.size();
        let shifts = [
            ScalarField::from_u64(1),
            ScalarField::from_u64(5),
            ScalarField::from_u64(25),
            ScalarField::from_u64(125),
            ScalarField::from_u64(625),
            ScalarField::from_u64(3125),
            ScalarField::from_u64(15625),
        ];
        let powers = [
            shifts[0].pow(n),
            shifts[1].pow(n),
            shifts[2].pow(n),
            shifts[3].pow(n),
            shifts[4].pow(n),
            shifts[5].pow(n),
            shifts[6].pow(n),
        ];
        proof {
            assert(scalars_view(shifts@) == canonical_shifts());
            assert forall|i: int| 0 <= i < 7 implies (#[trigger] powers[i])@ == fpow(
                canonical_shifts()[i],
                n as nat,
            ) by {}
        }
        if all_distinct(&powers) {
            Some(Shifts { shifts })
        } else {
            None
        }
    }
}

/// Shifts in different cosets never send two elements of the domain to the
/// same place: `shifts[i] * omega^a` and `shifts[j] * omega^b` differ for any
/// two columns `i` and `j` and any two rows `a` and `b`.
pub proof fn lemma_shifts_never_collide(
    shifts: Seq<nat>,
    n: nat,
    omega: nat,
    i: int,
    j: int,
    a: nat,
    b: nat,
)
    requires
        cosets_distinct(shifts, n),
        fpow(omega, n) == 1,
        0 <= i < shifts.len(),
        0 <= j < shifts.len(),
        i != j,
    ensures
        fmul(shifts[i], fpow(omega, a)) != fmul(shifts[j], fpow(omega, b)),
{
    lemma_fpow_of_product(shifts[i], fpow(omega, a), n);
    lemma_fpow_of_product(shifts[j], fpow(omega, b), n);
    lemma_fpow_of_power(omega, a, n);
    lemma_fpow_of_power(omega, b, n);
    lemma_fpow_of_one(a);
    lemma_fpow_of_one(b);
    let p = scalar_modulus() as int;
    lemma_mod_bound(vstd::arithmetic::power::pow(shifts[i] as int, n), p);
    lemma_mod_bound(vstd::arithmetic::power::pow(shifts[j] as int, n), p);
    lemma_small_mod(fpow(shifts[i], n), scalar_modulus());
    lemma_small_mod(fpow(shifts[j], n), scalar_modulus());
    assert(fmul(fpow(shifts[i], n), 1) == fpow(shifts[i], n));
    assert(fmul(fpow(shifts[j], n), 1) == fpow(shifts[j], n));
    if i < j {
        assert(fpow(shifts[i], n) != fpow(shifts[j], n));
    } else {
        assert(fpow(shifts[j], n) != fpow(shifts[i], n));
    }
}

/// The polynomial that vanishes on the last rows of the domain, at `x`:
/// `(x - omega^(n-1)) * (x - omega^(n-2)) * (x - omega^(n-3))`.
pub open spec fn zk_polynomial(omega: nat, n: nat, x: nat) -> nat {
    let w3 = fpow(omega, (n - 3) as nat);
    let w2 = fmul(omega, w3);
    let w1 = fmul(omega, w2);
    fmul(fmul(fsub(x, w1), fsub(x, w2)), fsub(x, w3))
}

/// Evaluates the polynomial that vanishes on the last rows of the domain.
pub fn eval_zk_polynomial(domain: &Domain, x: &ScalarField) -> (r: ScalarField)
    requires
        domain.spec_size() >= ZK_ROWS,
    ensures
        r@ == zk_polynomial(domain.spec_group_gen(), domain.spec_size(), x@),
{
    let omega = domain.group_gen();
    let w3 = omega.pow(domain.size() - ZK_ROWS);
    let w2 = omega.mul(&w3);
    let w1 = omega.mul(&w2);
    x.sub(&w1).mul(&x.sub(&w2)).mul(&x.sub(&w3))
}

/// What one column adds to the product: `gamma + beta * s + w`.
pub open spec fn perm_factor(beta: nat, gamma: nat, s: nat, w: nat) -> nat {
    fadd(fadd(gamma, fmul(beta, s)), w)
}

/// The product of `init` with the factors of the first `k` columns.
pub open spec fn perm_product(
    e: ProofEvaluations<PointEvaluations<ScalarField>>,
    beta: nat,
    gamma: nat,
    init: nat,
    k: nat,
) -> nat
    decreases k,
{
    if k == 0 {
        init
    } else {
        fmul(
            perm_product(e, beta, gamma, init, (k - 1) as nat),
            perm_factor(beta, gamma, e.s[k - 1].zeta@, e.w[k - 1].zeta@),
        )
    }
}

/// The scalar by which the last permutation polynomial enters the linearized
/// polynomial: minus `z(zeta * omega) * beta * alpha0 * zkp(zeta)` times the
/// factors of all columns of the permutation but the last.
pub open spec fn perm_scalar(
    e: ProofEvaluations<PointEvaluations<ScalarField>>,
    beta: nat,
    gamma: nat,
    alpha0: nat,
    zkp_zeta: nat,
) -> nat {
    fneg(
        perm_product(
            e,
            beta,
            gamma,
            fmul(fmul(fmul(e.z.zeta_omega@, beta), alpha0), zkp_zeta),
            (PERMUTS - 1) as nat,
        ),
    )
}

/// Computes the scalar of the permutation from the evaluations of a proof and
/// the challenges. `alphas` holds the powers of `alpha` that belong to the
/// permutation argument, of which only the first is used here.
pub fn perm_scalars(
    e: &ProofEvaluations<PointEvaluations<ScalarField>>,
    beta: &ScalarField,
    gamma: &ScalarField,
    alphas: &[ScalarField; 3],
    zkp_zeta: &ScalarField,
) -> (r: ScalarField)
    ensures
        r@ == perm_scalar(*e, beta@, gamma@, alphas[0]@, zkp_zeta@),
{
    let init = e.z.zeta_omega.mul(beta).mul(&alphas[0]).mul(zkp_zeta);
    let mut res = init;
    let mut i: usize = 0;
    while i < PERMUTS - 1
        invariant
            i <= PERMUTS - 1,
            res@ == perm_product(*e, beta@, gamma@, init@, i as nat),
        decreases PERMUTS - 1 - i,
    {
        let factor = gamma.add(&beta.mul(&e.s[i].zeta)).add(&e.w[i].zeta);
        res = res.mul(&factor);
        i += 1;
    }
    res.neg()
}

/// The scalar of the permutation where nothing is wired: the aggregation is
/// the constant one, column `i` of the permutation is `shifts[i] * x`, and
/// only the first witness column, worth `w0` at `zeta`, is not zero.
pub open spec fn identity_perm_scalar(
    beta: nat,
    gamma: nat,
    alpha0: nat,
    zeta: nat,
    shifts: Seq<nat>,
    w0: nat,
    zkp_zeta: nat,
) -> nat {
    fneg(
        fmul(
            fmul(
                fmul(
                    fmul(
                        fmul(
                            fmul(
                                fmul(fmul(beta, alpha0), zkp_zeta),
                                fadd(fadd(gamma, fmul(beta, fmul(zeta, shifts[0]))), w0),
                            ),
                            fadd(gamma, fmul(beta, fmul(zeta, shifts[1]))),
                        ),
                        fadd(gamma, fmul(beta, fmul(zeta, shifts[2]))),
                    ),
                    fadd(gamma, fmul(beta, fmul(zeta, shifts[3]))),
                ),
                fadd(gamma, fmul(beta, fmul(zeta, shifts[4]))),
            ),
            fadd(gamma, fmul(beta, fmul(zeta, shifts[5]))),
        ),
    )
}

/// Whether the evaluations are those of a circuit in which nothing is wired
/// and only the first witness column is not zero.
pub open spec fn is_identity_permutation(
    e: ProofEvaluations<PointEvaluations<ScalarField>>,
    zeta: nat,
    shifts: Seq<nat>,
) -> bool {
    &&& shifts.len() == PERMUTS
    &&& e.z.zeta_omega@ == 1
    &&& forall|i: int| 0 <= i < PERMUTS - 1 ==> (#[trigger] e.s[i]).zeta@ == fmul(zeta, shifts[i])
    &&& forall|i: int| 1 <= i < PERMUTS - 1 ==> (#[trigger] e.w[i]).zeta@ == 0
}

/// With the identity permutation, the scalar that a verifier computes from
/// the evaluations of a proof is the closed form in the challenges and the
/// shifts, whatever the challenges are.
pub proof fn lemma_identity_perm_scalar(
    e: ProofEvaluations<PointEvaluations<ScalarField>>,
    beta: nat,
    gamma: nat,
    alpha0: nat,
    zeta: nat,
    shifts: Seq<nat>,
    zkp_zeta: nat,
)
    requires
        is_identity_permutation(e, zeta, shifts),
    ensures
        perm_scalar(e, beta, gamma, alpha0, zkp_zeta) == identity_perm_scalar(
            beta,
            gamma,
            alpha0,
            zeta,
            shifts,
            e.w[0].zeta@,
            zkp_zeta,
        ),
{
    let p = scalar_modulus() as int;
    let init = fmul(fmul(fmul(e.z.zeta_omega@, beta), alpha0), zkp_zeta);
    assert(init == fmul(fmul(beta, alpha0), zkp_zeta)) by {
        lemma_mul_mod_noop_general(beta as int, alpha0 as int, p);
    }
    assert forall|i: int| 1 <= i < 6 implies perm_factor(
        beta,
        gamma,
        (#[trigger] e.s[i]).zeta@,
        e.w[i].zeta@,
    ) == fadd(gamma, fmul(beta, fmul(zeta, shifts[i]))) by {
        assert(e.w[i].zeta@ == 0);
        lemma_mod_twice((gamma + fmul(beta, fmul(zeta, shifts[i]))) as int, p);
    }
    reveal_with_fuel(perm_product, 7);
    assert(e.s[0].zeta@ == fmul(zeta, shifts[0]));
    assert(e.s[1].zeta@ == fmul(zeta, shifts[1]));
    assert(e.s[2].zeta@ == fmul(zeta, shifts[2]));
    assert(e.s[3].zeta@ == fmul(zeta, shifts[3]));
    assert(e.s[4].zeta@ == fmul(zeta, shifts[4]));
    assert(e.s[5].zeta@ == fmul(zeta, shifts[5]));
}

} // verus!
