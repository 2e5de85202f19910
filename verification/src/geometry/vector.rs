//! Vectors of three scalars, and how they compare.
//!
//! Two vectors compare component by component: a relation holds of the
//! vectors where it holds of each pair of components. A vector compares with
//! a scalar as with the vector that has the scalar in every component.

use vstd::prelude::*;
use std::cmp::Ordering;
use crate::geometry::scalar::Scalar;

verus! {

/// Three scalars. The same type stands for a position, a direction and a
/// colour.
#[derive(Debug, Copy, Clone)]
pub struct Vector {
    pub x: Scalar,
    pub y: Scalar,
    pub z: Scalar,
}

/// A vector used as a position.
pub type Point = Vector;

/// The one order that three comparisons agree on, if they agree.
pub open spec fn agreed(a: Option<Ordering>, b: Option<Ordering>, c: Option<Ordering>) -> Option<
    Ordering,
> {
    if a == b && b == c {
        a
    } else {
        None
    }
}

impl Vector {
    /// Every component of `self` equals its partner in `other`.
    pub open spec fn same(self, other: Vector) -> bool {
        self.x.same(other.x) && self.y.same(other.y) && self.z.same(other.z)
    }

    /// Every component of `self` is at most its partner in `other`.
    pub open spec fn at_most(self, other: Vector) -> bool {
        self.x.at_most(other.x) && self.y.at_most(other.y) && self.z.at_most(other.z)
    }

    /// The order in which every component of `self` stands to its partner in
    /// `other`, if it is the same for all three.
    pub open spec fn compared(self, other: Vector) -> Option<Ordering> {
        agreed(self.x.compared(other.x), self.y.compared(other.y), self.z.compared(other.z))
    }

    /// The vector with `scalar` in every component.
    pub open spec fn splat(scalar: Scalar) -> Vector {
        Vector { x: scalar, y: scalar, z: scalar }
    }

    /// The vector with every component negated.
    pub open spec fn negated(self) -> Vector {
        Vector { x: self.x.negated(), y: self.y.negated(), z: self.z.negated() }
    }

    pub fn new(x: Scalar, y: Scalar, z: Scalar) -> (vector: Self)
        ensures
            vector == (Vector { x, y, z }),
    {
        Self { x, y, z }
    }

    /// The vector of three positive zeros.
    pub fn zero() -> (vector: Self)
        ensures
            vector == Vector::splat(Scalar { bits: 0 }),
    {
        Vector::new(Scalar::zero(), Scalar::zero(), Scalar::zero())
    }

    /// The vector with `scalar` in every component.
    pub fn broadcast(scalar: Scalar) -> (vector: Self)
        ensures
            vector == Vector::splat(scalar),
    {
        Vector::new(scalar, scalar, scalar)
    }

    /// Applies `f` to each component.
    pub fn map<F: Fn(Scalar) -> Scalar>(self, f: F) -> (vector: Self)
        requires
            call_requires(f, (self.x,)),
            call_requires(f, (self.y,)),
            call_requires(f, (self.z,)),
        ensures
            call_ensures(f, (self.x,), vector.x),
            call_ensures(f, (self.y,), vector.y),
            call_ensures(f, (self.z,), vector.z),
    {
        let x = f(self.x);
        let y = f(self.y);
        let z = f(self.z);
        Self::new(x, y, z)
    }

    /// Negates each component.
    pub fn neg(self) -> (vector: Self)
        ensures
            vector == self.negated(),
    {
        Self::new(self.x.neg(), self.y.neg(), self.z.neg())
    }

    /// The order of `self` to `other`, where all three components agree on
    /// one.
    pub fn partial_cmp(&self, other: &Self) -> (order: Option<Ordering>)
        ensures
            order == self.compared(*other),
    {
        let x = self.x.partial_cmp(&other.x);
        let y = self.y.partial_cmp(&other.y);
        let z = self.z.partial_cmp(&other.z);
        if same_order(x, y) && same_order(y, z) {
            x
        } else {
            None
        }
    }

    /// Every component is less than its partner.
    pub fn lt(&self, other: &Self) -> (less: bool)
        ensures
            less == (self.compared(*other) == Some(Ordering::Less)),
    {
        is_order(self.partial_cmp(other), Ordering::Less)
    }

    /// Every component is greater than its partner.
    pub fn gt(&self, other: &Self) -> (greater: bool)
        ensures
            greater == (self.compared(*other) == Some(Ordering::Greater)),
    {
        is_order(self.partial_cmp(other), Ordering::Greater)
    }

    /// Every component is at most its partner.
    pub fn le(&self, other: &Self) -> (at_most: bool)
        ensures
            at_most == self.at_most(*other),
    {
        self.x <= other.x && self.y <= other.y && self.z <= other.z
    }

    /// Every component is at least its partner.
    pub fn ge(&self, other: &Self) -> (at_least: bool)
        ensures
            at_least == other.at_most(*self),
    {
        self.x >= other.x && self.y >= other.y && self.z >= other.z
    }

    /// Every component equals `scalar`.
    pub fn eq_scalar(&self, scalar: Scalar) -> (equal: bool)
        ensures
            equal == self.same(Vector::splat(scalar)),
    {
        self.x == scalar && self.y == scalar && self.z == scalar
    }

    /// The order of every component to `scalar`, where the three agree.
    pub fn partial_cmp_scalar(&self, scalar: Scalar) -> (order: Option<Ordering>)
        ensures
            order == self.compared(Vector::splat(scalar)),
    {
        self.partial_cmp(&Vector::broadcast(scalar))
    }

    /// Every component is less than `scalar`.
    pub fn lt_scalar(&self, scalar: Scalar) -> (less: bool)
        ensures
            less == (self.compared(Vector::splat(scalar)) == Some(Ordering::Less)),
    {
        self.lt(&Vector::broadcast(scalar))
    }

    /// Every component is greater than `scalar`.
    pub fn gt_scalar(&self, scalar: Scalar) -> (greater: bool)
        ensures
            greater == (self.compared(Vector::splat(scalar)) == Some(Ordering::Greater)),
    {
        self.gt(&Vector::broadcast(scalar))
    }

    /// Every component is at most `scalar`.
    pub fn le_scalar(&self, scalar: Scalar) -> (at_most: bool)
        ensures
            at_most == self.at_most(Vector::splat(scalar)),
    {
        self.le(&Vector::broadcast(scalar))
    }

    /// Every component is at least `scalar`.
    pub fn ge_scalar(&self, scalar: Scalar) -> (at_least: bool)
        ensures
            at_least == Vector::splat(scalar).at_most(*self),
    {
        self.ge(&Vector::broadcast(scalar))
    }
}

/// A scalar on the left of a vector compares as the vector that has the
/// scalar in every component.
impl Scalar {
    /// Every component of `vector` equals `self`.
    pub fn eq_vector(&self, vector: &Vector) -> (equal: bool)
        ensures
            equal == vector.same(Vector::splat(*self)),
    {
        vector.eq_scalar(*self)
    }

    /// The order of `self` to every component of `vector`, where the three
    /// agree.
    pub fn partial_cmp_vector(&self, vector: &Vector) -> (order: Option<Ordering>)
        ensures
            order == Vector::splat(*self).compared(*vector),
    {
        Vector::broadcast(*self).partial_cmp(vector)
    }

    /// `self` is less than every component of `vector`.
    pub fn lt_vector(&self, vector: &Vector) -> (less: bool)
        ensures
            less == (Vector::splat(*self).compared(*vector) == Some(Ordering::Less)),
    {
        Vector::broadcast(*self).lt(vector)
    }

    /// `self` is greater than every component of `vector`.
    pub fn gt_vector(&self, vector: &Vector) -> (greater: bool)
        ensures
            greater == (Vector::splat(*self).compared(*vector) == Some(Ordering::Greater)),
    {
        Vector::broadcast(*self).gt(vector)
    }

    /// `self` is at most every component of `vector`.
    pub fn le_vector(&self, vector: &Vector) -> (at_most: bool)
        ensures
            at_most == Vector::splat(*self).at_most(*vector),
    {
        vector.ge_scalar(*self)
    }

    /// `self` is at least every component of `vector`.
    pub fn ge_vector(&self, vector: &Vector) -> (at_least: bool)
        ensures
            at_least == vector.at_most(Vector::splat(*self)),
    {
        vector.le_scalar(*self)
    }
}

/// Two comparisons came out the same.
fn same_order(a: Option<Ordering>, b: Option<Ordering>) -> (same: bool)
    ensures
        same == (a == b),
{
    match (a, b) {
        (None, None) => true,
        (Some(Ordering::Less), Some(Ordering::Less)) => true,
        (Some(Ordering::Equal), Some(Ordering::Equal)) => true,
        (Some(Ordering::Greater), Some(Ordering::Greater)) => true,
        _ => false,
    }
}

/// A comparison came out as `wanted`.
fn is_order(a: Option<Ordering>, wanted: Ordering) -> (is: bool)
    ensures
        is == (a == Some(wanted)),
{
    same_order(a, Some(wanted))
}

impl PartialEq for Vector {
    fn eq(&self, other: &Self) -> (equal: bool) {
        self.x == other.x && self.y == other.y && self.z == other.z
    }
}

impl vstd::std_specs::cmp::PartialEqSpecImpl for Vector {
    open spec fn obeys_eq_spec() -> bool {
        true
    }

    open spec fn eq_spec(&self, other: &Vector) -> bool {
        self.same(*other)
    }
}

} // verus!
