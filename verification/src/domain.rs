//! The evaluation domain: the subgroup of the scalar field whose order is a
//! power of two, over which a circuit's columns are laid out.

use crate::field::{fpow, scalar_modulus, ScalarField};
use ark_ff::PrimeField;
use ark_poly::{EvaluationDomain, Radix2EvaluationDomain};
use vstd::arithmetic::power2::pow2;
use vstd::prelude::*;

verus! {

/// The largest power of two whose roots of unity the scalar field holds.
pub const TWO_ADICITY: u32 = 32;

/// The generator of the subgroup of order `2^log_size`: five, which
/// generates the multiplicative group of the field, to the odd part of that
/// group's order, and then squared once for each step from `log_size` up to
/// 32.
pub open spec fn root_of_unity(log_size: nat) -> nat {
    fpow(
        fpow(5, ((scalar_modulus() - 1) / (pow2(32) as int)) as nat),
        pow2((TWO_ADICITY - log_size) as nat),
    )
}

/// A subgroup of the scalar field of order `size`, a power of two, with its
/// generator.
#[derive(Clone, Copy, Debug, PartialEq, Eq)]
pub struct Domain {
    pub(crate) size: u64,
    pub(crate) log_size_of_group: u32,
    pub(crate) group_gen: ScalarField,
}

/// `Radix2EvaluationDomain::new` of `ark_poly`, on `ark_pallas::Fr`: the
/// domain of the least power of two that holds `num_coeffs` elements, which
/// exists as long as that power is at most `2^32`. Its generator is the
/// field's root of unity of order `2^32`, which is five to the odd part of the
/// group order, squared until its order is the size; so its power to the size
/// is one.
#[verifier::external_body]
fn radix2_domain(num_coeffs: usize) -> (r: (u64, u32, ScalarField))
    requires
        num_coeffs <= 0x1_0000_0000,
        num_coeffs <= usize::MAX / 2 + 1,
    ensures
        r.0 == pow2(r.1 as nat),
        r.1 <= TWO_ADICITY,
        num_coeffs <= r.0,
        r.0 < 2 * num_coeffs || r.0 == 1,
        r.2@ == root_of_unity(r.1 as nat),
        fpow(r.2@, r.0 as nat) == 1,
{
    let d = Radix2EvaluationDomain::<ark_pallas::Fr>::new(num_coeffs).unwrap();
    (d.size, d.log_size_of_group, ScalarField { limbs: d.group_gen.into_repr().0 })
}

impl Domain {
    #[verifier::type_invariant]
    pub closed spec fn well_formed(self) -> bool {
        &&& self.size == pow2(self.log_size_of_group as nat)
        &&& self.log_size_of_group <= TWO_ADICITY
        &&& self.group_gen@ == root_of_unity(self.log_size_of_group as nat)
        &&& fpow(self.group_gen@, self.size as nat) == 1
    }

    /// The number of elements of the domain.
    pub closed spec fn spec_size(self) -> nat {
        self.size as nat
    }

    /// The base-two logarithm of the size.
    pub closed spec fn spec_log_size(self) -> nat {
        self.log_size_of_group as nat
    }

    /// The generator of the domain.
    pub closed spec fn spec_group_gen(self) -> nat {
        self.group_gen@
    }

    /// What holds of every domain.
    pub proof fn lemma_well_formed(self)
        requires
            self.well_formed(),
        ensures
            self.spec_size() == pow2(self.spec_log_size()),
            self.spec_log_size() <= TWO_ADICITY,
            1 <= self.spec_size() <= 0x1_0000_0000,
            self.spec_group_gen() == root_of_unity(self.spec_log_size()),
            fpow(self.spec_group_gen(), self.spec_size()) == 1,
    {
        vstd::arithmetic::power2::lemma_pow2_pos(self.log_size_of_group as nat);
        if self.log_size_of_group < 32 {
            vstd::arithmetic::power2::lemma_pow2_strictly_increases(
                self.log_size_of_group as nat,
                32,
            );
        }
        vstd::arithmetic::power2::lemma2_to64();
    }

    /// The domain of the least power of two that is at least `num_coeffs`, if
    /// the field has one: that power may not exceed `2^32`.
    pub fn new(num_coeffs: usize) -> (r: Option<Domain>)
        ensures
            r is Some <==> num_coeffs <= 0x1_0000_0000 && num_coeffs <= usize::MAX / 2 + 1,
            r matches Some(d) ==> {
                &&& d.spec_size() == pow2(d.spec_log_size())
                &&& num_coeffs <= d.spec_size()
                &&& (d.spec_size() < 2 * num_coeffs || d.spec_size() == 1)
                &&& d.spec_group_gen() == root_of_unity(d.spec_log_size())
            },
    {
        if num_coeffs as u64 > 0x1_0000_0000u64 || num_coeffs > usize::MAX / 2 + 1 {
            return None;
        }
        let (size, log_size_of_group, group_gen) = radix2_domain(num_coeffs);
        Some(Domain { size, log_size_of_group, group_gen })
    }

    /// The number of elements of the domain.
    pub fn size(&self) -> (n: u64)
        ensures
            n == self.spec_size(),
            1 <= n <= 0x1_0000_0000,
    {
        proof {
            use_type_invariant(self);
            self.lemma_well_formed();
        }
        self.size
    }

    /// The base-two logarithm of the size.
    pub fn log_size_of_group(&self) -> (k: u32)
        ensures
            k == self.spec_log_size(),
            k <= TWO_ADICITY,
    {
        proof {
            use_type_invariant(self);
        }
        self.log_size_of_group
    }

    /// The generator of the domain.
    pub fn group_gen(&self) -> (g: ScalarField)
        ensures
            g@ == self.spec_group_gen(),
            fpow(g@, self.spec_size()) == 1,
    {
        proof {
            use_type_invariant(self);
        }
        self.group_gen
    }
}

} // verus!
