//! Shapes: what a ray can cross.

use vstd::prelude::*;
use crate::geometry::scalar::Scalar;
use crate::geometry::vector::{Point, Vector};
use crate::geometry::{Interval, Ray};

pub mod sphere;

verus! {

/// `found` is what a search for the first of `crossings` in `window` owes:
/// a crossing in the window that no other crossing in the window comes
/// before, or nothing where the window holds no crossing.
pub open spec fn first_within(crossings: Set<Scalar>, window: Interval, found: Option<Scalar>) -> bool {
    match found {
        Some(t) => {
            &&& crossings.contains(t)
            &&& window.holds(t)
            &&& forall|u: Scalar| #[trigger] crossings.contains(u) && window.holds(u) ==> t.at_most(u)
        },
        None => forall|u: Scalar| #[trigger] crossings.contains(u) ==> !window.holds(u),
    }
}

/// The bits of the scalar that stands for "not a number" where the crate has
/// to make one.
pub const NOT_A_NUMBER_BITS: u64 = 0x7ff8_0000_0000_0000;

/// A unit normal turned against a ray. `incidence` is the inner product of
/// the normal and the ray's direction: where its sign bit is set the normal
/// points against the ray already and is kept, where it is clear the normal
/// is negated, and where it is not a number nothing of the normal is left.
pub open spec fn turned_against(normal: Vector, incidence: Scalar) -> Vector {
    if incidence.nan() {
        Vector::splat(Scalar { bits: NOT_A_NUMBER_BITS })
    } else if incidence.sign_negative() {
        normal
    } else {
        normal.negated()
    }
}

/// Turns `normal` against a ray, given the inner product of the two.
pub fn against_ray(normal: Vector, incidence: Scalar) -> (turned: Vector)
    ensures
        turned == turned_against(normal, incidence),
{
    if incidence.is_nan() {
        Vector::broadcast(Scalar::from_bits(NOT_A_NUMBER_BITS))
    } else if incidence.is_sign_negative() {
        normal
    } else {
        normal.neg()
    }
}

/// A normal that a ray comes in against is kept as it is, and one that a ray
/// leaves along is negated.
pub proof fn lemma_against_ray(normal: Vector, incidence: Scalar)
    ensures
        incidence.less(Scalar { bits: 0 }) ==> turned_against(normal, incidence) == normal,
        (Scalar { bits: 0 }).less(incidence) ==> turned_against(normal, incidence) == normal.negated(),
        !incidence.nan() ==> turned_against(normal, incidence) == normal || turned_against(
            normal,
            incidence,
        ) == normal.negated(),
{
}

/// `shape` answers every search along `ray` as a shape does that the ray
/// crosses at the parameters `crossings` and nowhere else: with the first of
/// them in the interval searched, or with nothing where there is none.
pub open spec fn faithful<S: Shape>(shape: S, ray: Ray, crossings: Set<Scalar>) -> bool {
    forall|window: Interval, t: Option<Scalar>| #[trigger]
        call_ensures(S::intersection, (&shape, ray, window), t) ==> first_within(crossings, window, t)
}

/// A geometric primitive: something that a ray can cross, with a normal at
/// each point of its boundary.
pub trait Shape {
    /// The first parameter in `time_interval` at which `ray` crosses the
    /// shape, if there is one.
    fn intersection(&self, ray: Ray, time_interval: Interval) -> Option<Scalar>;

    /// The unit normal at `point` that points out of the shape. Nothing is
    /// said of a point that is not on the shape.
    fn outwards_normal(&self, point: Point) -> Vector;

    /// The inner product of the outward normal at `point` and the direction
    /// of `ray`.
    fn incidence(&self, point: Point, ray: Ray) -> Scalar;

    /// The unit normal at `point` that points against `ray`: the outward
    /// normal, turned by the sign of its inner product with the ray's
    /// direction.
    fn normal_against_ray(&self, point: Point, ray: Ray) -> (normal: Vector)
        default_ensures
            exists|outward: Vector, inner: Scalar|
                {
                    &&& #[trigger] call_ensures(Self::outwards_normal, (self, point), outward)
                    &&& #[trigger] call_ensures(Self::incidence, (self, point, ray), inner)
                    &&& normal == turned_against(outward, inner)
                },
    {
        let outward = self.outwards_normal(point);
        let inner = self.incidence(point, ray);
        against_ray(outward, inner)
    }
}

} // verus!
