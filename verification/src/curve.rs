//! Points of the Pallas curve in affine coordinates.
//!
//! The group law is `ark_ec`'s, on `ark_pallas::Affine`. Contracts speak of it
//! through [`pallas_add`] and [`pallas_mul`].

use crate::field::{base_modulus, BaseField, ScalarField};
use ark_ec::{AffineCurve, ProjectiveCurve};
use ark_ff::{BigInteger256, PrimeField};
use ark_pallas::{Affine, Fq};
use vstd::prelude::*;

verus! {

/// An affine point as numbers: its coordinates, or the point at infinity.
pub struct PointView {
    pub x: nat,
    pub y: nat,
    pub infinity: bool,
}

/// A point of the curve, or the point at infinity.
#[derive(Clone, Copy, Debug, PartialEq, Eq)]
pub struct Point {
    pub x: BaseField,
    pub y: BaseField,
    pub infinity: bool,
}

impl View for Point {
    type V = PointView;

    open spec fn view(&self) -> PointView {
        PointView { x: self.x@, y: self.y@, infinity: self.infinity }
    }
}

/// The sum of two points, as `ark_ec` computes it for
/// `short_weierstrass_jacobian::GroupAffine<ark_pallas::PallasParameters>`.
pub uninterp spec fn pallas_add(p: PointView, q: PointView) -> PointView;

/// The multiple `k * p` of a point, as `ark_ec` computes it for
/// `short_weierstrass_jacobian::GroupAffine<ark_pallas::PallasParameters>`.
pub uninterp spec fn pallas_mul(p: PointView, k: nat) -> PointView;

/// The inverse of a point: the same abscissa and the opposite ordinate.
pub open spec fn pallas_neg(p: PointView) -> PointView {
    if p.infinity {
        p
    } else {
        PointView {
            x: p.x,
            y: ((base_modulus() - p.y) % (base_modulus() as int)) as nat,
            infinity: false,
        }
    }
}

/// The generator of the curve's group: the point `(-1, 2)`.
pub open spec fn generator() -> PointView {
    PointView { x: (base_modulus() - 1) as nat, y: 2, infinity: false }
}

/// `Add::add` of `ark_ec`'s `GroupAffine`: the sum of the two points in the
/// curve's group, brought back to affine coordinates.
#[verifier::external_body]
fn affine_add(p: &Point, q: &Point) -> (r: Point)
    ensures
        r@ == pallas_add(p@, q@),
{
    let x = Fq::from_repr(BigInteger256(p.x.limbs)).unwrap();
    let y = Fq::from_repr(BigInteger256(p.y.limbs)).unwrap();
    let a = Affine::new(x, y, p.infinity);
    let u = Fq::from_repr(BigInteger256(q.x.limbs)).unwrap();
    let v = Fq::from_repr(BigInteger256(q.y.limbs)).unwrap();
    let b = Affine::new(u, v, q.infinity);
    let c = a + b;
    let (x, y) = (BaseField { limbs: c.x.into_repr().0 }, BaseField { limbs: c.y.into_repr().0 });
    Point { x, y, infinity: c.infinity }
}

/// `Neg::neg` of `ark_ec`'s `GroupAffine`: the point at infinity is its own
/// inverse, any other point keeps its abscissa and has its ordinate negated in
/// the base field.
#[verifier::external_body]
fn affine_neg(p: &Point) -> (r: Point)
    ensures
        r@ == pallas_neg(p@),
{
    let x = Fq::from_repr(BigInteger256(p.x.limbs)).unwrap();
    let y = Fq::from_repr(BigInteger256(p.y.limbs)).unwrap();
    let a = Affine::new(x, y, p.infinity);
    let c = -a;
    let (x, y) = (BaseField { limbs: c.x.into_repr().0 }, BaseField { limbs: c.y.into_repr().0 });
    Point { x, y, infinity: c.infinity }
}

/// `AffineCurve::mul` of `ark_ec`'s `GroupAffine`, followed by
/// `ProjectiveCurve::into_affine`: double-and-add over the bits of the scalar.
#[verifier::external_body]
fn affine_mul(p: &Point, k: &ScalarField) -> (r: Point)
    ensures
        r@ == pallas_mul(p@, k@),
{
    let x = Fq::from_repr(BigInteger256(p.x.limbs)).unwrap();
    let y = Fq::from_repr(BigInteger256(p.y.limbs)).unwrap();
    let a = Affine::new(x, y, p.infinity);
    let c = a.mul(BigInteger256(k.limbs)).into_affine();
    let (x, y) = (BaseField { limbs: c.x.into_repr().0 }, BaseField { limbs: c.y.into_repr().0 });
    Point { x, y, infinity: c.infinity }
}

impl Point {
    /// The generator of the curve's group.
    pub fn prime_subgroup_generator() -> (r: Point)
        ensures
            r@ == generator(),
    {
        Point { x: BaseField::minus_one(), y: BaseField::from_u64(2), infinity: false }
    }

    /// Whether two points are the same.
    pub fn equals(&self, other: &Point) -> (b: bool)
        ensures
            b == (self@ == other@),
    {
        self.infinity == other.infinity && self.x.equals(&other.x) && self.y.equals(&other.y)
    }

    /// The sum of two points.
    pub fn add(&self, other: &Point) -> (r: Point)
        ensures
            r@ == pallas_add(self@, other@),
    {
        affine_add(self, other)
    }

    /// The inverse of a point.
    pub fn neg(&self) -> (r: Point)
        ensures
            r@ == pallas_neg(self@),
    {
        affine_neg(self)
    }

    /// The multiple of a point by a scalar.
    pub fn mul(&self, k: &ScalarField) -> (r: Point)
        ensures
            r@ == pallas_mul(self@, k@),
    {
        affine_mul(self, k)
    }
}

/// The views of a sequence of points.
pub open spec fn points_view(points: Seq<Point>) -> Seq<PointView> {
    points.map_values(|p: Point| p@)
}

} // verus!
