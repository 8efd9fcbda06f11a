//! Challenges of 128 bits, and the map that takes one into the scalar field.
//!
//! The map reads the challenge two bits at a time, from the high end down, and
//! builds two numbers `a` and `b`; the result is `a * endo + b`, where `endo`
//! is the scalar of the curve's endomorphism. A circuit that checks the
//! challenge again can then do so with half as many rows.

use crate::field::{
    base_modulus, bpow, fadd, fmul, fneg, fpow, limbs_value, scalar_modulus, BaseField, ScalarField,
};
use vstd::arithmetic::div_mod::{
    lemma_div_denominator, lemma_fundamental_div_mod_converse, lemma_hoist_over_denominator,
    lemma_mod_multiples_vanish,
};
use vstd::arithmetic::power2::{lemma_pow2_adds, lemma_pow2_pos, pow2};
use vstd::bits::lemma_u64_shr_is_div;
use vstd::prelude::*;

verus! {

/// The number of 64-bit limbs of a challenge.
pub const CHALLENGE_LENGTH_IN_LIMBS: usize = 2;

/// A challenge as a sponge hands it out. Only its low bits count.
#[derive(Clone, Copy, Debug, PartialEq, Eq)]
pub struct ScalarChallenge(pub ScalarField);

/// Bit `i` of `n`, counted from the low end.
pub open spec fn bit(n: nat, i: nat) -> nat {
    (n / pow2(i)) % 2
}

/// The numbers `a` and `b` once the pairs of bits from `pairs - 1` down to
/// `i` have been read. Both start at two. Each pair doubles both, then its low
/// bit chooses a sign and its high bit chooses which of the two takes it.
pub open spec fn endo_fold(r: nat, pairs: nat, i: nat) -> (nat, nat)
    decreases pairs - i,
{
    if i >= pairs {
        (2, 2)
    } else {
        let (a, b) = endo_fold(r, pairs, i + 1);
        let s = if bit(r, 2 * i) == 0 {
            fneg(1)
        } else {
            1
        };
        if bit(r, 2 * i + 1) == 0 {
            (fadd(a, a), fadd(fadd(b, b), s))
        } else {
            (fadd(fadd(a, a), s), fadd(b, b))
        }
    }
}

/// The field element that the low `length_in_bits` bits of `r` stand for.
pub open spec fn endo_to_field(r: nat, length_in_bits: nat, endo: nat) -> nat {
    let (a, b) = endo_fold(r, length_in_bits / 2, 0);
    fadd(fmul(a, endo), b)
}

/// The cube root of one in the scalar field that the endomorphism rests on:
/// five, which generates the multiplicative group, to a third of that group's
/// order.
pub open spec fn scalar_endo_coefficient() -> nat {
    fpow(5, ((scalar_modulus() - 1) / 3) as nat)
}

/// The same in the base field.
pub open spec fn base_endo_coefficient() -> nat {
    bpow(5, ((base_modulus() - 1) / 3) as nat)
}

/// Computes the cube root of one of the scalar field.
pub fn endo_coefficient() -> (r: ScalarField)
    ensures
        r@ == scalar_endo_coefficient(),
{
    let third: [u64; 4] = [
        0xd96cf90b00000000,
        0x60c232feaddc3849,
        0x5555555555555555,
        0x1555555555555555,
    ];
    ScalarField::from_u64(5).pow_limbs(&third)
}

/// Computes the cube root of one of the base field.
pub fn base_field_endo_coefficient() -> (r: BaseField)
    ensures
        r@ == base_endo_coefficient(),
{
    let third: [u64; 4] = [
        0x330f104f00000000,
        0x60c232feadc45309,
        0x5555555555555555,
        0x1555555555555555,
    ];
    BaseField::from_u64(5).pow_limbs(&third)
}

/// Below the top of a limb, the limbs above it do not show.
proof fn lemma_bit_of_low_limb(l: u64, rest: nat, m: nat)
    requires
        m < 64,
    ensures
        bit(l as nat + 0x1_0000_0000_0000_0000 * rest, m) == (l as nat / pow2(m)) % 2,
{
    let d = pow2(m) as int;
    lemma_pow2_pos(m);
    lemma_pow2_adds(m, (63 - m) as nat);
    lemma_pow2_adds(63, 1);
    vstd::arithmetic::power2::lemma2_to64();
    let half = pow2((63 - m) as nat) as int;
    assert(0x1_0000_0000_0000_0000 == 2 * pow2(63)) by {
        vstd::arithmetic::power2::lemma2_to64_rest();
    }
    assert(pow2(63) == d * half);
    let j = 2 * half * rest;
    assert(0x1_0000_0000_0000_0000 * rest == j * d) by (nonlinear_arith)
        requires
            0x1_0000_0000_0000_0000 == 2 * (d * half),
            j == 2 * half * rest,
    ;
    lemma_hoist_over_denominator(l as int, j, d as nat);
    assert((l + 0x1_0000_0000_0000_0000 * rest) / d == l as int / d + j);
    assert(j == 2 * (half * rest)) by (nonlinear_arith)
        requires
            j == 2 * half * rest,
    ;
    lemma_mod_multiples_vanish(half * rest, l as int / d, 2);
}

/// The bits of a number of four limbs are the bits of its limbs.
proof fn lemma_bit_of_limbs(l0: u64, l1: u64, l2: u64, l3: u64, i: nat)
    requires
        i < 256,
    ensures
        bit(limbs_value(l0, l1, l2, l3), i) == (if i < 64 {
            l0 as nat
        } else if i < 128 {
            l1 as nat
        } else if i < 192 {
            l2 as nat
        } else {
            l3 as nat
        }) / pow2(i % 64) % 2,
{
    let w: int = 0x1_0000_0000_0000_0000;
    let v = limbs_value(l0, l1, l2, l3) as int;
    let m = i % 64;
    let r1: int = l1 + w * (l2 + w * l3);
    let r2: int = l2 + w * l3;
    vstd::arithmetic::power2::lemma2_to64();
    vstd::arithmetic::power2::lemma2_to64_rest();
    lemma_pow2_pos(m);
    assert(v == l0 + w * r1);
    if i < 64 {
        lemma_bit_of_low_limb(l0, r1 as nat, m);
    } else {
        lemma_fundamental_div_mod_converse(v, w, r1, l0 as int);
        assert(pow2(64) == w);
        if i < 128 {
            lemma_pow2_adds(64, m);
            lemma_div_denominator(v, w, pow2(m) as int);
            lemma_bit_of_low_limb(l1, r2 as nat, m);
        } else {
            lemma_fundamental_div_mod_converse(r1, w, r2, l1 as int);
            lemma_pow2_adds(64, 64);
            lemma_div_denominator(v, w, w);
            assert(v / pow2(128) as int == r2);
            if i < 192 {
                lemma_pow2_adds(128, m);
                lemma_div_denominator(v, pow2(128) as int, pow2(m) as int);
                lemma_bit_of_low_limb(l2, l3 as nat, m);
            } else {
                lemma_fundamental_div_mod_converse(r2, w, l3 as int, l2 as int);
                lemma_pow2_adds(128, 64);
                lemma_div_denominator(v, pow2(128) as int, w);
                assert(v / pow2(192) as int == l3);
                lemma_pow2_adds(192, m);
                lemma_div_denominator(v, pow2(192) as int, pow2(m) as int);
            }
        }
    }
}

/// Bit `i` of the number that the limbs stand for.
fn get_bit(limbs: &[u64; 4], i: usize) -> (b: u64)
    requires
        i < 256,
    ensures
        b == bit(limbs_value(limbs[0], limbs[1], limbs[2], limbs[3]), i as nat),
{
    let limb = limbs[i / 64];
    let j = (i % 64) as u64;
    proof {
        lemma_bit_of_limbs(limbs[0], limbs[1], limbs[2], limbs[3], i as nat);
        lemma_u64_shr_is_div(limb, j);
        let shifted = limb >> j;
        assert(shifted & 1 == shifted % 2) by (bit_vector);
    }
    (limb >> j) & 1
}

impl ScalarChallenge {
    /// The challenge that a sponge hands out when it has squeezed out `x`:
    /// the low two limbs of `x`.
    pub fn from_squeezed(x: &ScalarField) -> (c: ScalarChallenge)
        ensures
            c.0@ == x@ % pow2(128),
    {
        proof {
            vstd::arithmetic::power2::lemma2_to64_rest();
            lemma_pow2_adds(64, 64);
        }
        ScalarChallenge(x.low_128_bits())
    }

    /// The field element that the low `length_in_bits` bits of the challenge
    /// stand for, with `endo_coeff` as the scalar of the endomorphism.
    pub fn to_field_with_length(&self, length_in_bits: usize, endo_coeff: &ScalarField) -> (r:
        ScalarField)
        requires
            length_in_bits <= 256,
        ensures
            r@ == endo_to_field(self.0@, length_in_bits as nat, endo_coeff@),
    {
        let rep = self.0.to_limbs();
        let mut a = ScalarField::from_u64(2);
        let mut b = ScalarField::from_u64(2);
        let one = ScalarField::one();
        let neg_one = one.neg();
        let pairs = length_in_bits / 2;
        let mut i: usize = pairs;
        while i > 0
            invariant
                i <= pairs,
                pairs <= 128,
                one@ == 1,
                neg_one@ == fneg(1),
                limbs_value(rep[0], rep[1], rep[2], rep[3]) == self.0@,
                (a@, b@) == endo_fold(self.0@, pairs as nat, i as nat),
            decreases i,
        {
            i -= 1;
            a = a.add(&a);
            b = b.add(&b);
            let s = if get_bit(&rep, 2 * i) == 0 {
                neg_one
            } else {
                one
            };
            if get_bit(&rep, 2 * i + 1) == 0 {
                b = b.add(&s);
            } else {
                a = a.add(&s);
            }
        }
        a.mul(endo_coeff).add(&b)
    }

    /// The field element that the challenge stands for: its low 128 bits are
    /// read.
    pub fn to_field(&self, endo_coeff: &ScalarField) -> (r: ScalarField)
        ensures
            r@ == endo_to_field(self.0@, 128, endo_coeff@),
    {
        self.to_field_with_length(64 * CHALLENGE_LENGTH_IN_LIMBS, endo_coeff)
    }
}

} // verus!
