//! Scalars, vectors, rays and intervals.

use vstd::prelude::*;
use crate::geometry::scalar::Scalar;
use crate::geometry::vector::{Point, Vector};

pub mod scalar;
pub mod shape;
pub mod vector;

verus! {

/// A half-line: the points `origin + t * direction` for the parameters `t`.
/// The direction need not have unit length.
#[derive(Debug, Copy, Clone)]
pub struct Ray {
    pub origin: Point,
    pub direction: Vector,
}

impl Ray {
    pub fn new(origin: Point, direction: Vector) -> (ray: Self)
        ensures
            ray == (Ray { origin, direction }),
    {
        Self { origin, direction }
    }
}

impl PartialEq for Ray {
    fn eq(&self, other: &Self) -> (equal: bool) {
        self.origin == other.origin && self.direction == other.direction
    }
}

impl vstd::std_specs::cmp::PartialEqSpecImpl for Ray {
    open spec fn obeys_eq_spec() -> bool {
        true
    }

    open spec fn eq_spec(&self, other: &Ray) -> bool {
        self.origin.same(other.origin) && self.direction.same(other.direction)
    }
}

/// Which of an interval's two end points belong to it.
#[derive(Debug, Clone, Copy, PartialEq, Eq, Structural)]
pub enum IntervalBounds {
    Open,
    Closed,
    LeftOpenRightClosed,
    LeftClosedRightOpen,
}

impl IntervalBounds {
    /// The lower end point belongs to the interval.
    pub open spec fn left_closed(self) -> bool {
        self == IntervalBounds::Closed || self == IntervalBounds::LeftClosedRightOpen
    }

    /// The upper end point belongs to the interval.
    pub open spec fn right_closed(self) -> bool {
        self == IntervalBounds::Closed || self == IntervalBounds::LeftOpenRightClosed
    }

    /// The same convention at the lower end, with the upper end closed.
    pub open spec fn closed_above(self) -> IntervalBounds {
        if self.left_closed() {
            IntervalBounds::Closed
        } else {
            IntervalBounds::LeftOpenRightClosed
        }
    }

    /// The convention for a search window whose upper end has moved down to
    /// a value found: the lower end as before, the upper end closed, so that
    /// the value itself is found again.
    pub fn closing_above(self) -> (bounds: Self)
        ensures
            bounds == self.closed_above(),
    {
        match self {
            IntervalBounds::Open => IntervalBounds::LeftOpenRightClosed,
            IntervalBounds::Closed => IntervalBounds::Closed,
            IntervalBounds::LeftOpenRightClosed => IntervalBounds::LeftOpenRightClosed,
            IntervalBounds::LeftClosedRightOpen => IntervalBounds::Closed,
        }
    }
}

/// A range of scalars from `min` to `max`, with a convention for its end
/// points.
#[derive(Debug, Clone, Copy)]
pub struct Interval {
    pub min: Scalar,
    pub max: Scalar,
    pub bounds: IntervalBounds,
}

impl Interval {
    /// The lower end is at most the upper end. The searches of this crate
    /// make such intervals from such intervals; nothing else depends on it,
    /// and an interval that is not so holds nothing.
    pub open spec fn well_formed(self) -> bool {
        self.min.at_most(self.max)
    }

    /// `num` lies in the interval, by the interval's own convention for its
    /// end points. What is not a number lies in no interval.
    pub open spec fn holds(self, num: Scalar) -> bool {
        &&& if self.bounds.left_closed() {
            self.min.at_most(num)
        } else {
            self.min.less(num)
        }
        &&& if self.bounds.right_closed() {
            num.at_most(self.max)
        } else {
            num.less(self.max)
        }
    }

    pub fn new(min: Scalar, max: Scalar, bounds: IntervalBounds) -> (interval: Self)
        ensures
            interval == (Interval { min, max, bounds }),
    {
        Self { min, max, bounds }
    }

    pub fn min(&self) -> (min: Scalar)
        ensures
            min == self.min,
    {
        self.min
    }

    pub fn max(&self) -> (max: Scalar)
        ensures
            max == self.max,
    {
        self.max
    }

    pub fn bounds(&self) -> (bounds: IntervalBounds)
        ensures
            bounds == self.bounds,
    {
        self.bounds
    }

    /// From the smallest finite scalar to the largest.
    pub fn all_reals(bounds: IntervalBounds) -> (interval: Self)
        ensures
            interval == (Interval {
                min: Scalar::largest_spec().negated(),
                max: Scalar::largest_spec(),
                bounds,
            }),
            interval.well_formed(),
    {
        Self { min: Scalar::smallest(), max: Scalar::largest(), bounds }
    }

    /// From zero to the largest finite scalar.
    pub fn positive_reals(bounds: IntervalBounds) -> (interval: Self)
        ensures
            interval == (Interval { min: Scalar { bits: 0 }, max: Scalar::largest_spec(), bounds }),
            interval.well_formed(),
    {
        Self { min: Scalar::zero(), max: Scalar::largest(), bounds }
    }

    /// The open interval from zero to zero, which holds nothing.
    pub fn empty() -> (interval: Self)
        ensures
            interval == (Interval {
                min: Scalar { bits: 0 },
                max: Scalar { bits: 0 },
                bounds: IntervalBounds::Open,
            }),
            interval.well_formed(),
            forall|num: Scalar| !interval.holds(num),
    {
        Self { min: Scalar::zero(), max: Scalar::zero(), bounds: IntervalBounds::Open }
    }

    /// Tests whether `num` lies in the interval.
    pub fn contains(&self, num: Scalar) -> (inside: bool)
        ensures
            inside == self.holds(num),
    {
        match self.bounds {
            IntervalBounds::Open => self.min < num && num < self.max,
            IntervalBounds::Closed => self.min <= num && num <= self.max,
            IntervalBounds::LeftOpenRightClosed => self.min < num && num <= self.max,
            IntervalBounds::LeftClosedRightOpen => self.min <= num && num < self.max,
        }
    }

    /// The interval cut off above at `at`: the lower end and its convention
    /// stay, the upper end becomes `at` and belongs to the interval.
    pub open spec fn cut_at(self, at: Scalar) -> Interval {
        Interval { min: self.min, max: at, bounds: self.bounds.closed_above() }
    }
}

/// Cutting an interval at one of its members keeps exactly the members that
/// are at most that one. This is true of a second cut as of the first.
pub proof fn lemma_cut_holds(window: Interval, at: Scalar, num: Scalar)
    requires
        window.holds(at),
    ensures
        window.cut_at(at).holds(num) <==> window.holds(num) && num.at_most(at),
        window.cut_at(at).well_formed(),
        window.cut_at(at).cut_at(at) == window.cut_at(at),
{
}

} // verus!
