//! Polynomials over the scalar field, by their coefficients, lowest degree
//! first.

use crate::domain::Domain;
use crate::field::{fadd, fmul, fpow, ScalarField};
use crate::sponge::scalars_view;
use ark_ff::{BigInteger256, PrimeField};
use ark_poly::{EvaluationDomain, Evaluations, Radix2EvaluationDomain};
use vstd::prelude::*;
use vstd::slice::slice_subrange;

verus! {

/// The value at `x` of the polynomial with the given coefficients.
pub open spec fn poly_eval(coeffs: Seq<nat>, x: nat) -> nat
    decreases coeffs.len(),
{
    if coeffs.len() == 0 {
        0
    } else {
        fadd(coeffs[0], fmul(x, poly_eval(coeffs.drop_first(), x)))
    }
}

/// The values at `x` of the pieces of a polynomial cut into runs of `size`
/// coefficients, the last of which may be shorter. The zero polynomial has no
/// piece.
pub open spec fn chunk_evaluations(coeffs: Seq<nat>, size: nat, x: nat) -> Seq<nat>
    decreases coeffs.len(),
{
    if coeffs.len() == 0 || size == 0 {
        Seq::empty()
    } else if coeffs.len() <= size {
        seq![poly_eval(coeffs, x)]
    } else {
        seq![poly_eval(coeffs.take(size as int), x)] + chunk_evaluations(
            coeffs.skip(size as int),
            size,
            x,
        )
    }
}

/// The coefficients that `ark_poly` finds for the polynomial that takes the
/// given values on the domain of as many elements.
pub uninterp spec fn interpolation(evals: Seq<nat>) -> Seq<nat>;

/// `Evaluations::interpolate` of `ark_poly`, over the `Radix2EvaluationDomain`
/// of `ark_pallas::Fr` with as many elements as there are values: the inverse
/// FFT. The polynomial that comes back has fewer coefficients than the domain
/// has elements, no zero at its high end, and takes the `i`-th value at the
/// `i`-th power of the domain's generator.
#[verifier::external_body]
fn radix2_interpolate(evals: &Vec<ScalarField>, domain: &Domain) -> (coeffs: Vec<ScalarField>)
    requires
        evals.len() == domain.spec_size(),
    ensures
        scalars_view(coeffs@) == interpolation(scalars_view(evals@)),
        coeffs.len() <= evals.len(),
        forall|i: int|
            0 <= i < evals.len() ==> poly_eval(
                scalars_view(coeffs@),
                fpow(domain.spec_group_gen(), i as nat),
            ) == (#[trigger] evals[i])@,
{
    let d = Radix2EvaluationDomain::<ark_pallas::Fr>::new(domain.size as usize).unwrap();
    let e = evals.iter().map(|x| ark_pallas::Fr::from_repr(BigInteger256(x.limbs)).unwrap());
    let p = Evaluations::from_vec_and_domain(e.collect(), d).interpolate();
    p.coeffs.iter().map(|c| ScalarField { limbs: c.into_repr().0 }).collect()
}

/// A polynomial in dense form.
#[derive(Clone, Debug, PartialEq, Eq)]
pub struct DensePolynomial {
    pub coeffs: Vec<ScalarField>,
}

impl View for DensePolynomial {
    type V = Seq<nat>;

    open spec fn view(&self) -> Seq<nat> {
        scalars_view(self.coeffs@)
    }
}

impl DensePolynomial {
    /// The polynomial with the given coefficients.
    pub fn from_coefficients_vec(coeffs: Vec<ScalarField>) -> (p: DensePolynomial)
        ensures
            p.coeffs == coeffs,
    {
        DensePolynomial { coeffs }
    }

    /// The polynomial of least degree that takes the given values on the
    /// domain, in the order of the powers of its generator.
    pub fn interpolate(evals: &Vec<ScalarField>, domain: &Domain) -> (p: DensePolynomial)
        requires
            evals.len() == domain.spec_size(),
        ensures
            p@ == interpolation(scalars_view(evals@)),
            p.coeffs.len() <= evals.len(),
            forall|i: int|
                0 <= i < evals.len() ==> poly_eval(p@, fpow(domain.spec_group_gen(), i as nat))
                    == (#[trigger] evals[i])@,
    {
        DensePolynomial { coeffs: radix2_interpolate(evals, domain) }
    }

    /// The value of the polynomial at `x`.
    pub fn evaluate(&self, x: &ScalarField) -> (r: ScalarField)
        ensures
            r@ == poly_eval(self@, x@),
    {
        eval_polynomial(self.coeffs.as_slice(), x)
    }

    /// The polynomial with every coefficient negated.
    pub fn neg(&self) -> (p: DensePolynomial)
        ensures
            p.coeffs.len() == self.coeffs.len(),
            forall|i: int|
                0 <= i < self.coeffs.len() ==> (#[trigger] p.coeffs[i])@ == crate::field::fneg(
                    self.coeffs[i]@,
                ),
    {
        let mut coeffs: Vec<ScalarField> = Vec::new();
        let mut i: usize = 0;
        while i < self.coeffs.len()
            invariant
                i <= self.coeffs.len(),
                coeffs.len() == i,
                forall|j: int|
                    0 <= j < i ==> (#[trigger] coeffs[j])@ == crate::field::fneg(self.coeffs[j]@),
            decreases self.coeffs.len() - i,
        {
            coeffs.push(self.coeffs[i].neg());
            i += 1;
        }
        DensePolynomial { coeffs }
    }

    /// The values at `x` of the pieces of the polynomial, each of at most
    /// `size` coefficients.
    pub fn evaluate_chunks(&self, size: usize, x: &ScalarField) -> (r: Vec<ScalarField>)
        requires
            size > 0,
        ensures
            scalars_view(r@) == chunk_evaluations(self@, size as nat, x@),
    {
        let mut out: Vec<ScalarField> = Vec::new();
        let len = self.coeffs.len();
        let mut start: usize = 0;
        proof {
            assert(self@.skip(0) == self@);
            assert(scalars_view(out@) + chunk_evaluations(self@, size as nat, x@)
                == chunk_evaluations(self@, size as nat, x@));
        }
        while start < len
            invariant
                size > 0,
                len == self.coeffs.len(),
                start <= len,
                scalars_view(out@) + chunk_evaluations(
                    self@.skip(start as int),
                    size as nat,
                    x@,
                ) == chunk_evaluations(self@, size as nat, x@),
            decreases len - start,
        {
            let remaining = len - start;
            let take = if size < remaining {
                size
            } else {
                remaining
            };
            let piece = slice_subrange(self.coeffs.as_slice(), start, start + take);
            let y = eval_polynomial(piece, x);
            proof {
                let rest = self@.skip(start as int);
                assert(scalars_view(piece@) == rest.take(take as int));
                assert(rest.skip(take as int) == self@.skip(start + take));
                if remaining <= size {
                    assert(rest.take(take as int) == rest);
                    assert(chunk_evaluations(rest.skip(take as int), size as nat, x@)
                        == Seq::<nat>::empty());
                }
                assert(scalars_view(out@.push(y)) == scalars_view(out@).push(y@));
            }
            out.push(y);
            start = start + take;
        }
        proof {
            assert(self@.skip(len as int).len() == 0);
        }
        out
    }
}

/// The value at `x` of the polynomial with the given coefficients, by
/// Horner's rule.
pub fn eval_polynomial(coeffs: &[ScalarField], x: &ScalarField) -> (r: ScalarField)
    ensures
        r@ == poly_eval(scalars_view(coeffs@), x@),
{
    let mut res = ScalarField::zero();
    let mut i: usize = coeffs.len();
    proof {
        assert(scalars_view(coeffs@).skip(i as int).len() == 0);
    }
    while i > 0
        invariant
            i <= coeffs.len(),
            res@ == poly_eval(scalars_view(coeffs@).skip(i as int), x@),
        decreases i,
    {
        i -= 1;
        proof {
            let s = scalars_view(coeffs@).skip(i as int);
            assert(s.drop_first() == scalars_view(coeffs@).skip(i + 1));
            assert(s[0] == coeffs[i as int]@);
        }
        res = coeffs[i].add(&x.mul(&res));
    }
    proof {
        assert(scalars_view(coeffs@).skip(0) == scalars_view(coeffs@));
    }
    res
}

} // verus!
