//! Commitments to polynomials, and the public parameters they are made with.
//!
//! Committing and opening are the commitment scheme's business. What stands
//! here is what the protocol itself reads and builds: the generators, the
//! shape of a commitment, and how one enters the transcript.

use crate::curve::{generator, pallas_mul, points_view, Point, PointView};
use crate::field::{bmul, fmul, BaseField, ScalarField};
use crate::scalar_challenge::{
    base_endo_coefficient, base_field_endo_coefficient, endo_coefficient, scalar_endo_coefficient,
};
use crate::polynomial::{eval_polynomial, poly_eval};
use crate::sponge::{scalars_view, FqSponge, FqSpongeStep};
use vstd::prelude::*;

verus! {

/// A commitment to a polynomial: one element per piece of at most as many
/// coefficients as there are generators, and one more where the degree is
/// bounded.
#[derive(Clone, Debug, PartialEq, Eq)]
pub struct PolyComm<C> {
    pub unshifted: Vec<C>,
    pub shifted: Option<C>,
}

/// The public parameters: the generators `g` that carry the coefficients and
/// the generator `h` that carries the blinding factor.
#[derive(Clone, Debug, PartialEq, Eq)]
pub struct SRS {
    pub g: Vec<Point>,
    pub h: Point,
}

/// The scalar by which the curve's endomorphism multiplies: that cube root of
/// one `xi` for which `xi * (x, y)` is `(endo_q * x, y)`, where `endo_q` is the
/// cube root of one of the base field.
pub open spec fn endo_scalar() -> nat {
    let xi = scalar_endo_coefficient();
    let g = generator();
    let image = PointView { x: bmul(g.x, base_endo_coefficient()), y: g.y, infinity: false };
    if pallas_mul(g, xi) == image {
        xi
    } else {
        fmul(xi, xi)
    }
}

/// The two constants of the curve's endomorphism: the factor of the abscissa,
/// in the base field, and the scalar that has the same effect.
pub fn endos() -> (r: (BaseField, ScalarField))
    ensures
        r.0@ == base_endo_coefficient(),
        r.1@ == endo_scalar(),
{
    let endo_q = base_field_endo_coefficient();
    let potential_endo_r = endo_coefficient();
    let t = Point::prime_subgroup_generator();
    let phi_t = Point { x: t.x.mul(&endo_q), y: t.y, infinity: false };
    let endo_r = if t.mul(&potential_endo_r).equals(&phi_t) {
        potential_endo_r
    } else {
        potential_endo_r.mul(&potential_endo_r)
    };
    (endo_q, endo_r)
}

/// The steps by which a commitment enters a sponge: its pieces at once, then
/// its shifted part, if it has one.
pub open spec fn commitment_steps(c: PolyComm<Point>) -> Seq<FqSpongeStep> {
    match c.shifted {
        Some(s) => seq![
            FqSpongeStep::AbsorbG(points_view(c.unshifted@)),
            FqSpongeStep::AbsorbG(seq![s@]),
        ],
        None => seq![FqSpongeStep::AbsorbG(points_view(c.unshifted@))],
    }
}

/// The steps by which a run of commitments enters a sponge, one after the
/// other.
pub open spec fn commitments_steps(cs: Seq<PolyComm<Point>>) -> Seq<FqSpongeStep>
    decreases cs.len(),
{
    if cs.len() == 0 {
        Seq::empty()
    } else {
        commitments_steps(cs.drop_last()) + commitment_steps(cs.last())
    }
}

/// Feeds a commitment to a sponge.
pub fn absorb_commitment<EFqSponge: FqSponge>(sponge: &mut EFqSponge, commitment: &PolyComm<Point>)
    ensures
        final(sponge).transcript() == old(sponge).transcript() + commitment_steps(*commitment),
{
    sponge.absorb_g(commitment.unshifted.as_slice());
    match commitment.shifted {
        Some(shifted) => {
            let one: [Point; 1] = [shifted];
            proof {
                assert(points_view(one@) == seq![shifted@]);
            }
            sponge.absorb_g(one.as_slice());
            proof {
                assert(sponge.transcript() == old(sponge).transcript() + commitment_steps(
                    *commitment,
                ));
            }
        },
        None => {
            proof {
                assert(sponge.transcript() == old(sponge).transcript() + commitment_steps(
                    *commitment,
                ));
            }
        },
    }
}

impl PolyComm<Point> {
    /// A commitment of one piece.
    pub fn single(point: Point) -> (c: PolyComm<Point>)
        ensures
            c.unshifted@ == seq![point],
            c.shifted is None,
    {
        PolyComm { unshifted: vec![point], shifted: None }
    }

    /// The commitment with `blinder` added to each of its pieces.
    pub fn blind_with(&self, blinder: &Point) -> (c: PolyComm<Point>)
        ensures
            c.unshifted.len() == self.unshifted.len(),
            forall|i: int|
                0 <= i < self.unshifted.len() ==> (#[trigger] c.unshifted[i])@
                    == crate::curve::pallas_add(self.unshifted[i]@, blinder@),
            c.shifted is Some <==> self.shifted is Some,
            c.shifted matches Some(s) ==> s@ == crate::curve::pallas_add(
                self.shifted->Some_0@,
                blinder@,
            ),
    {
        let mut unshifted: Vec<Point> = Vec::new();
        let mut i: usize = 0;
        while i < self.unshifted.len()
            invariant
                i <= self.unshifted.len(),
                unshifted.len() == i,
                forall|j: int|
                    0 <= j < i ==> (#[trigger] unshifted[j])@ == crate::curve::pallas_add(
                        self.unshifted[j]@,
                        blinder@,
                    ),
            decreases self.unshifted.len() - i,
        {
            unshifted.push(self.unshifted[i].add(blinder));
            i += 1;
        }
        let shifted = match self.shifted {
            Some(s) => Some(s.add(blinder)),
            None => None,
        };
        PolyComm { unshifted, shifted }
    }
}

impl PolyComm<ScalarField> {
    /// The blinding factor of the whole polynomial at a point whose power
    /// `zeta_n` separates the pieces: the factors of the pieces, taken as the
    /// coefficients of a polynomial in `zeta_n`.
    pub fn chunk_blinding(&self, zeta_n: &ScalarField) -> (r: ScalarField)
        ensures
            r@ == poly_eval(scalars_view(self.unshifted@), zeta_n@),
    {
        eval_polynomial(self.unshifted.as_slice(), zeta_n)
    }
}

} // verus!
