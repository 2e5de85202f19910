//! The sphere.

use vstd::prelude::*;
use crate::geometry::scalar::Scalar;
use crate::geometry::shape::first_within;
use crate::geometry::vector::Point;
use crate::geometry::Interval;

verus! {

/// A sphere: a centre and a radius above zero.
#[derive(Debug, Copy, Clone)]
pub struct Sphere {
    pub center: Point,
    pub radius: Scalar,
}

/// The parameters at which a ray crosses a sphere, from the discriminant of
/// the quadratic that they solve and its two roots: none where the
/// discriminant is below zero, the two roots otherwise.
pub open spec fn roots(discriminant: Scalar, near: Scalar, far: Scalar) -> Set<Scalar> {
    if discriminant.less(Scalar { bits: 0 }) {
        Set::empty()
    } else {
        set![near, far]
    }
}

/// The root that a search of `time_interval` reports: none where the
/// discriminant is below zero; else the near root where the interval holds
/// it; else the far root where the interval holds that; else none.
pub open spec fn chosen_root(
    discriminant: Scalar,
    near: Scalar,
    far: Scalar,
    time_interval: Interval,
) -> Option<Scalar> {
    if discriminant.less(Scalar { bits: 0 }) {
        None
    } else if time_interval.holds(near) {
        Some(near)
    } else if time_interval.holds(far) {
        Some(far)
    } else {
        None
    }
}

impl Sphere {
    /// The radius is above zero.
    pub open spec fn well_formed(self) -> bool {
        (Scalar { bits: 0 }).less(self.radius)
    }

    pub fn new(center: Point, radius: Scalar) -> (sphere: Self)
        requires
            (Scalar { bits: 0 }).less(radius),
        ensures
            sphere == (Sphere { center, radius }),
            sphere.well_formed(),
    {
        Self { center, radius }
    }

    /// Whether `radius` is one that a sphere can have.
    pub fn admits(radius: Scalar) -> (admitted: bool)
        ensures
            admitted == (Scalar { bits: 0 }).less(radius),
    {
        radius > Scalar::zero()
    }

    /// Picks the crossing that a search of `time_interval` reports, from the
    /// discriminant and the two roots `(h - sqrt(d)) / a` and
    /// `(h + sqrt(d)) / a` of the quadratic for this sphere and a ray.
    pub fn first_root(
        discriminant: Scalar,
        near: Scalar,
        far: Scalar,
        time_interval: Interval,
    ) -> (t: Option<Scalar>)
        ensures
            t == chosen_root(discriminant, near, far, time_interval),
    {
        if discriminant < Scalar::zero() {
            return None;
        }
        if time_interval.contains(near) {
            Some(near)
        } else if time_interval.contains(far) {
            Some(far)
        } else {
            None
        }
    }
}

impl PartialEq for Sphere {
    fn eq(&self, other: &Self) -> (equal: bool) {
        self.center == other.center && self.radius == other.radius
    }
}

impl vstd::std_specs::cmp::PartialEqSpecImpl for Sphere {
    open spec fn obeys_eq_spec() -> bool {
        true
    }

    open spec fn eq_spec(&self, other: &Sphere) -> bool {
        self.center.same(other.center) && self.radius.same(other.radius)
    }
}

/// With the near root not after the far one, the root chosen is the first
/// crossing in the interval.
pub proof fn lemma_chosen_root_is_first(
    discriminant: Scalar,
    near: Scalar,
    far: Scalar,
    time_interval: Interval,
)
    requires
        !far.less(near),
    ensures
        first_within(
            roots(discriminant, near, far),
            time_interval,
            chosen_root(discriminant, near, far, time_interval),
        ),
{
}

} // verus!
