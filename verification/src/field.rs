//! The two prime fields of the Pallas curve.
//!
//! An element is held as four little-endian 64-bit limbs of its canonical
//! representative, so that every contract can speak of a natural number below
//! the field order. The arithmetic itself is done by `ark_ff`, on
//! `ark_pallas::Fr` and `ark_pallas::Fq`.

use ark_ff::{BigInteger256, Field, PrimeField};
use vstd::arithmetic::div_mod::{
    lemma_fundamental_div_mod_converse, lemma_mod_bound, lemma_mul_mod_noop_general, lemma_small_mod,
};
use vstd::arithmetic::power::{
    lemma1_pow, lemma_pow_distributes, lemma_pow_mod_noop, lemma_pow_multiplies, pow,
};
use vstd::prelude::*;

verus! {

/// The order of the scalar field.
pub open spec fn scalar_modulus() -> nat {
    0x40000000000000000000000000000000224698fc0994a8dd8c46eb2100000001nat
}

/// The order of the base field, over which the curve's points have their
/// coordinates.
pub open spec fn base_modulus() -> nat {
    0x40000000000000000000000000000000224698fc094cf91b992d30ed00000001nat
}

/// The number that four little-endian 64-bit limbs stand for.
pub open spec fn limbs_value(l0: u64, l1: u64, l2: u64, l3: u64) -> nat {
    (l0 as nat) + (l1 as nat) * 0x1_0000_0000_0000_0000nat + (l2 as nat)
        * 0x1_0000_0000_0000_0000_0000_0000_0000_0000nat + (l3 as nat)
        * 0x1_0000_0000_0000_0000_0000_0000_0000_0000_0000_0000_0000_0000nat
}

/// Addition in the scalar field.
pub open spec fn fadd(a: nat, b: nat) -> nat {
    (a + b) % scalar_modulus()
}

/// Subtraction in the scalar field.
pub open spec fn fsub(a: nat, b: nat) -> nat {
    ((a as int - b as int) % (scalar_modulus() as int)) as nat
}

/// Negation in the scalar field.
pub open spec fn fneg(a: nat) -> nat {
    fsub(0, a)
}

/// Multiplication in the scalar field.
pub open spec fn fmul(a: nat, b: nat) -> nat {
    (a * b) % scalar_modulus()
}

/// Exponentiation in the scalar field.
pub open spec fn fpow(a: nat, e: nat) -> nat {
    (pow(a as int, e) % (scalar_modulus() as int)) as nat
}

/// Multiplication in the base field.
pub open spec fn bmul(a: nat, b: nat) -> nat {
    (a * b) % base_modulus()
}

/// Exponentiation in the base field.
pub open spec fn bpow(a: nat, e: nat) -> nat {
    (pow(a as int, e) % (base_modulus() as int)) as nat
}

/// Limbs can be read back from the number they stand for.
proof fn lemma_limbs_unique(a0: u64, a1: u64, a2: u64, a3: u64, b0: u64, b1: u64, b2: u64, b3: u64)
    requires
        limbs_value(a0, a1, a2, a3) == limbs_value(b0, b1, b2, b3),
    ensures
        a0 == b0,
        a1 == b1,
        a2 == b2,
        a3 == b3,
{
    let w: int = 0x1_0000_0000_0000_0000;
    let v: int = limbs_value(a0, a1, a2, a3) as int;
    let ra1: int = a1 + a2 * 0x1_0000_0000_0000_0000 + a3 * 0x1_0000_0000_0000_0000_0000_0000_0000_0000;
    let rb1: int = b1 + b2 * 0x1_0000_0000_0000_0000 + b3 * 0x1_0000_0000_0000_0000_0000_0000_0000_0000;
    lemma_fundamental_div_mod_converse(v, w, ra1, a0 as int);
    lemma_fundamental_div_mod_converse(v, w, rb1, b0 as int);
    let ra2: int = a2 + a3 * 0x1_0000_0000_0000_0000;
    let rb2: int = b2 + b3 * 0x1_0000_0000_0000_0000;
    lemma_fundamental_div_mod_converse(ra1, w, ra2, a1 as int);
    lemma_fundamental_div_mod_converse(ra1, w, rb2, b1 as int);
    lemma_fundamental_div_mod_converse(ra2, w, a3 as int, a2 as int);
    lemma_fundamental_div_mod_converse(ra2, w, b3 as int, b2 as int);
}

/// A power of a product is the product of the powers.
pub proof fn lemma_fpow_of_product(x: nat, y: nat, n: nat)
    ensures
        fpow(fmul(x, y), n) == fmul(fpow(x, n), fpow(y, n)),
{
    let p = scalar_modulus() as int;
    lemma_pow_mod_noop((x * y) as int, n, p);
    lemma_pow_distributes(x as int, y as int, n);
    lemma_mul_mod_noop_general(pow(x as int, n), pow(y as int, n), p);
    lemma_mod_bound(pow(x as int, n), p);
    lemma_mod_bound(pow(y as int, n), p);
}

/// Powers of powers may be taken in either order.
pub proof fn lemma_fpow_of_power(x: nat, a: nat, n: nat)
    ensures
        fpow(fpow(x, a), n) == fpow(fpow(x, n), a),
{
    let p = scalar_modulus() as int;
    lemma_mod_bound(pow(x as int, a), p);
    lemma_mod_bound(pow(x as int, n), p);
    lemma_pow_mod_noop(pow(x as int, a), n, p);
    lemma_pow_mod_noop(pow(x as int, n), a, p);
    lemma_pow_multiplies(x as int, a, n);
    lemma_pow_multiplies(x as int, n, a);
    assert(a * n == n * a) by (nonlinear_arith);
}

/// Every power of one is one.
pub proof fn lemma_fpow_of_one(e: nat)
    ensures
        fpow(1, e) == 1,
{
    lemma1_pow(e);
    lemma_small_mod(1, scalar_modulus());
}

/// An element of the scalar field.
#[derive(Clone, Copy, Debug, PartialEq, Eq)]
pub struct ScalarField {
    pub(crate) limbs: [u64; 4],
}

impl View for ScalarField {
    type V = nat;

    closed spec fn view(&self) -> nat {
        limbs_value(self.limbs[0], self.limbs[1], self.limbs[2], self.limbs[3])
    }
}

/// `Add::add` of `ark_ff::Fp256`, on `ark_pallas::Fr`: the sum modulo the
/// field order. Both arguments are reduced, so `from_repr` accepts them.
#[verifier::external_body]
fn scalar_add(a: &ScalarField, b: &ScalarField) -> (r: ScalarField)
    ensures
        r@ == fadd(a@, b@),
{
    let x = ark_pallas::Fr::from_repr(BigInteger256(a.limbs)).unwrap();
    let y = ark_pallas::Fr::from_repr(BigInteger256(b.limbs)).unwrap();
    ScalarField { limbs: (x + y).into_repr().0 }
}

/// `Sub::sub` of `ark_ff::Fp256`, on `ark_pallas::Fr`: the difference modulo
/// the field order.
#[verifier::external_body]
fn scalar_sub(a: &ScalarField, b: &ScalarField) -> (r: ScalarField)
    ensures
        r@ == fsub(a@, b@),
{
    let x = ark_pallas::Fr::from_repr(BigInteger256(a.limbs)).unwrap();
    let y = ark_pallas::Fr::from_repr(BigInteger256(b.limbs)).unwrap();
    ScalarField { limbs: (x - y).into_repr().0 }
}

/// `Neg::neg` of `ark_ff::Fp256`, on `ark_pallas::Fr`: the additive inverse
/// modulo the field order.
#[verifier::external_body]
fn scalar_neg(a: &ScalarField) -> (r: ScalarField)
    ensures
        r@ == fneg(a@),
{
    let x = ark_pallas::Fr::from_repr(BigInteger256(a.limbs)).unwrap();
    ScalarField { limbs: (-x).into_repr().0 }
}

/// `Mul::mul` of `ark_ff::Fp256`, on `ark_pallas::Fr`: the product modulo the
/// field order.
#[verifier::external_body]
fn scalar_mul(a: &ScalarField, b: &ScalarField) -> (r: ScalarField)
    ensures
        r@ == fmul(a@, b@),
{
    let x = ark_pallas::Fr::from_repr(BigInteger256(a.limbs)).unwrap();
    let y = ark_pallas::Fr::from_repr(BigInteger256(b.limbs)).unwrap();
    ScalarField { limbs: (x * y).into_repr().0 }
}

/// `Field::pow` of `ark_ff`, on `ark_pallas::Fr`: square-and-multiply from
/// one over the bits of the exponent, whose limbs are given least significant
/// first. So the power modulo the field order, and one for the exponent zero.
#[verifier::external_body]
fn scalar_pow(a: &ScalarField, e: &[u64; 4]) -> (r: ScalarField)
    ensures
        r@ == fpow(a@, limbs_value(e[0], e[1], e[2], e[3])),
{
    let x = ark_pallas::Fr::from_repr(BigInteger256(a.limbs)).unwrap();
    ScalarField { limbs: x.pow(e).into_repr().0 }
}

/// A prime field that is known by its order, of at most 256 bits.
pub trait ForeignField {
    /// The order of the field.
    open spec fn modulus() -> nat {
        arbitrary()
    }

    /// The limbs of the order, least significant first.
    fn modulus_limbs() -> (l: [u64; 4])
        ensures
            limbs_value(l[0], l[1], l[2], l[3]) == Self::modulus(),
    ;
}

impl ForeignField for ScalarField {
    open spec fn modulus() -> nat {
        scalar_modulus()
    }

    fn modulus_limbs() -> (l: [u64; 4]) {
        [0x8c46eb2100000001, 0x224698fc0994a8dd, 0, 0x4000000000000000]
    }
}

impl ScalarField {
    #[verifier::type_invariant]
    pub closed spec fn is_reduced(self) -> bool {
        limbs_value(self.limbs[0], self.limbs[1], self.limbs[2], self.limbs[3]) < scalar_modulus()
    }

    /// Two elements with the same value are the same element.
    pub proof fn lemma_view_injective(self, other: Self)
        requires
            self@ == other@,
        ensures
            self == other,
    {
        lemma_limbs_unique(
            self.limbs[0],
            self.limbs[1],
            self.limbs[2],
            self.limbs[3],
            other.limbs[0],
            other.limbs[1],
            other.limbs[2],
            other.limbs[3],
        );
        assert(self.limbs =~= other.limbs);
    }

    /// The element zero.
    pub fn zero() -> (r: Self)
        ensures
            r@ == 0,
    {
        ScalarField { limbs: [0, 0, 0, 0] }
    }

    /// The element one.
    pub fn one() -> (r: Self)
        ensures
            r@ == 1,
    {
        ScalarField { limbs: [1, 0, 0, 0] }
    }

    /// The element that the integer `v` stands for.
    pub fn from_u64(v: u64) -> (r: Self)
        ensures
            r@ == v,
    {
        ScalarField { limbs: [v, 0, 0, 0] }
    }

    /// The element with the given limbs, least significant first, if they
    /// stand for a number below the field order.
    pub fn from_limbs(limbs: [u64; 4]) -> (r: Option<Self>)
        ensures
            r is Some <==> limbs_value(limbs[0], limbs[1], limbs[2], limbs[3]) < scalar_modulus(),
            r matches Some(x) ==> x@ == limbs_value(limbs[0], limbs[1], limbs[2], limbs[3]),
    {
        let l0 = limbs[0];
        let l1 = limbs[1];
        let l2 = limbs[2];
        let l3 = limbs[3];
        let below = l3 < 0x4000000000000000 || (l3 == 0x4000000000000000 && l2 == 0 && (l1
            < 0x224698fc0994a8dd || (l1 == 0x224698fc0994a8dd && l0 < 0x8c46eb2100000001)));
        if below {
            Some(ScalarField { limbs })
        } else {
            None
        }
    }

    /// The limbs of the canonical representative, least significant first.
    pub fn to_limbs(&self) -> (limbs: [u64; 4])
        ensures
            limbs_value(limbs[0], limbs[1], limbs[2], limbs[3]) == self@,
            self@ < scalar_modulus(),
    {
        proof {
            use_type_invariant(self);
        }
        self.limbs
    }

    /// The element that the low 128 bits of this one stand for.
    pub fn low_128_bits(&self) -> (r: Self)
        ensures
            r@ == self@ % 0x1_0000_0000_0000_0000_0000_0000_0000_0000nat,
    {
        proof {
            let high: int = self.limbs[2] + self.limbs[3] * 0x1_0000_0000_0000_0000;
            let low: int = self.limbs[0] + self.limbs[1] * 0x1_0000_0000_0000_0000;
            lemma_fundamental_div_mod_converse(
                self@ as int,
                0x1_0000_0000_0000_0000_0000_0000_0000_0000int,
                high,
                low,
            );
        }
        ScalarField { limbs: [self.limbs[0], self.limbs[1], 0, 0] }
    }

    /// Whether the element is zero.
    pub fn is_zero(&self) -> (b: bool)
        ensures
            b == (self@ == 0),
    {
        self.limbs[0] == 0 && self.limbs[1] == 0 && self.limbs[2] == 0 && self.limbs[3] == 0
    }

    /// Whether two elements are the same.
    pub fn equals(&self, other: &Self) -> (b: bool)
        ensures
            b == (self@ == other@),
    {
        self.limbs[0] == other.limbs[0] && self.limbs[1] == other.limbs[1] && self.limbs[2]
            == other.limbs[2] && self.limbs[3] == other.limbs[3]
    }

    /// The sum of two elements.
    pub fn add(&self, other: &Self) -> (r: Self)
        ensures
            r@ == fadd(self@, other@),
    {
        scalar_add(self, other)
    }

    /// The difference of two elements.
    pub fn sub(&self, other: &Self) -> (r: Self)
        ensures
            r@ == fsub(self@, other@),
    {
        scalar_sub(self, other)
    }

    /// The opposite of an element.
    pub fn neg(&self) -> (r: Self)
        ensures
            r@ == fneg(self@),
    {
        scalar_neg(self)
    }

    /// The product of two elements.
    pub fn mul(&self, other: &Self) -> (r: Self)
        ensures
            r@ == fmul(self@, other@),
    {
        scalar_mul(self, other)
    }

    /// `self` to the power `e`.
    pub fn pow(&self, e: u64) -> (r: Self)
        ensures
            r@ == fpow(self@, e as nat),
    {
        scalar_pow(self, &[e, 0, 0, 0])
    }

    /// `self` to the power that the limbs of `e` stand for.
    pub fn pow_limbs(&self, e: &[u64; 4]) -> (r: Self)
        ensures
            r@ == fpow(self@, limbs_value(e[0], e[1], e[2], e[3])),
    {
        scalar_pow(self, e)
    }
}

/// An element of the base field.
#[derive(Clone, Copy, Debug, PartialEq, Eq)]
pub struct BaseField {
    pub(crate) limbs: [u64; 4],
}

impl View for BaseField {
    type V = nat;

    closed spec fn view(&self) -> nat {
        limbs_value(self.limbs[0], self.limbs[1], self.limbs[2], self.limbs[3])
    }
}

/// `Mul::mul` of `ark_ff::Fp256`, on `ark_pallas::Fq`: the product modulo the
/// field order.
#[verifier::external_body]
fn base_mul(a: &BaseField, b: &BaseField) -> (r: BaseField)
    ensures
        r@ == bmul(a@, b@),
{
    let x = ark_pallas::Fq::from_repr(BigInteger256(a.limbs)).unwrap();
    let y = ark_pallas::Fq::from_repr(BigInteger256(b.limbs)).unwrap();
    BaseField { limbs: (x * y).into_repr().0 }
}

/// `Field::pow` of `ark_ff`, on `ark_pallas::Fq`: square-and-multiply from
/// one over the bits of the exponent, whose limbs are given least significant
/// first.
#[verifier::external_body]
fn base_pow(a: &BaseField, e: &[u64; 4]) -> (r: BaseField)
    ensures
        r@ == bpow(a@, limbs_value(e[0], e[1], e[2], e[3])),
{
    let x = ark_pallas::Fq::from_repr(BigInteger256(a.limbs)).unwrap();
    BaseField { limbs: x.pow(e).into_repr().0 }
}

impl ForeignField for BaseField {
    open spec fn modulus() -> nat {
        base_modulus()
    }

    fn modulus_limbs() -> (l: [u64; 4]) {
        [0x992d30ed00000001, 0x224698fc094cf91b, 0, 0x4000000000000000]
    }
}

impl BaseField {
    #[verifier::type_invariant]
    pub closed spec fn is_reduced(self) -> bool {
        limbs_value(self.limbs[0], self.limbs[1], self.limbs[2], self.limbs[3]) < base_modulus()
    }

    /// The element zero.
    pub fn zero() -> (r: Self)
        ensures
            r@ == 0,
    {
        BaseField { limbs: [0, 0, 0, 0] }
    }

    /// The element one.
    pub fn one() -> (r: Self)
        ensures
            r@ == 1,
    {
        BaseField { limbs: [1, 0, 0, 0] }
    }

    /// The element minus one.
    pub fn minus_one() -> (r: Self)
        ensures
            r@ == base_modulus() - 1,
    {
        BaseField { limbs: [0x992d30ed00000000, 0x224698fc094cf91b, 0, 0x4000000000000000] }
    }

    /// The element that the integer `v` stands for.
    pub fn from_u64(v: u64) -> (r: Self)
        ensures
            r@ == v,
    {
        BaseField { limbs: [v, 0, 0, 0] }
    }

    /// The element with the given limbs, least significant first, if they
    /// stand for a number below the field order.
    pub fn from_limbs(limbs: [u64; 4]) -> (r: Option<Self>)
        ensures
            r is Some <==> limbs_value(limbs[0], limbs[1], limbs[2], limbs[3]) < base_modulus(),
            r matches Some(x) ==> x@ == limbs_value(limbs[0], limbs[1], limbs[2], limbs[3]),
    {
        let l0 = limbs[0];
        let l1 = limbs[1];
        let l2 = limbs[2];
        let l3 = limbs[3];
        let below = l3 < 0x4000000000000000 || (l3 == 0x4000000000000000 && l2 == 0 && (l1
            < 0x224698fc094cf91b || (l1 == 0x224698fc094cf91b && l0 < 0x992d30ed00000001)));
        if below {
            Some(BaseField { limbs })
        } else {
            None
        }
    }

    /// The limbs of the canonical representative, least significant first.
    pub fn to_limbs(&self) -> (limbs: [u64; 4])
        ensures
            limbs_value(limbs[0], limbs[1], limbs[2], limbs[3]) == self@,
            self@ < base_modulus(),
    {
        proof {
            use_type_invariant(self);
        }
        self.limbs
    }

    /// The product of two elements.
    pub fn mul(&self, other: &Self) -> (r: Self)
        ensures
            r@ == bmul(self@, other@),
    {
        base_mul(self, other)
    }

    /// `self` to the power that the limbs of `e` stand for.
    pub fn pow_limbs(&self, e: &[u64; 4]) -> (r: Self)
        ensures
            r@ == bpow(self@, limbs_value(e[0], e[1], e[2], e[3])),
    {
        base_pow(self, e)
    }

    /// Whether two elements are the same.
    pub fn equals(&self, other: &Self) -> (b: bool)
        ensures
            b == (self@ == other@),
    {
        self.limbs[0] == other.limbs[0] && self.limbs[1] == other.limbs[1] && self.limbs[2]
            == other.limbs[2] && self.limbs[3] == other.limbs[3]
    }
}

} // verus!
