//! Surfaces: shapes with a material, and scenes made of them.

use vstd::prelude::*;
use crate::geometry::scalar::{Scalar, LARGEST_BITS};
use crate::geometry::shape::{first_within, Shape};
use crate::geometry::vector::{Point, Vector};
use crate::geometry::{Interval, IntervalBounds, Ray};

pub mod set;

verus! {

/// A boundary in space that scatters the rays that meet it.
pub trait Surface {
    /// The ray that leaves `point` of the surface when `ray` comes in, with
    /// what the surface takes from its light; or nothing, where the surface
    /// absorbs the ray.
    fn scatter(&self, point: Point, ray: Ray) -> Option<ScatteredRay>;

    /// The first parameter in `time_interval` at which `ray` crosses the
    /// surface, if there is one.
    fn intersection(&self, ray: Ray, time_interval: Interval) -> Option<Scalar>;
}

/// `surface` answers every search along `ray` as a surface does that the ray
/// crosses at the parameters `crossings` and nowhere else: with the first of
/// them in the interval searched, or with nothing where there is none.
pub open spec fn faithful<S: Surface>(surface: S, ray: Ray, crossings: Set<Scalar>) -> bool {
    forall|window: Interval, t: Option<Scalar>| #[trigger]
        call_ensures(S::intersection, (&surface, ray, window), t) ==> first_within(crossings, window, t)
}

/// A scattered ray, and the factor by which each colour channel of its light
/// is dimmed.
#[derive(Debug, Clone, Copy)]
pub struct ScatteredRay {
    pub attenuation: Vector,
    pub ray: Ray,
}

/// What a material is made to do with the rays that reach it.
pub trait Material {
    /// The direction in which a ray leaves, and the factor by which its light
    /// is dimmed; or nothing, where the material absorbs the ray.
    ///
    /// `ray_direction` is the direction of the ray that comes in,
    /// `rebound_normal` the normal at the point it meets, turned against it.
    /// `entering_surface` tells whether the ray goes into the shape rather
    /// than out of it; finding out may be costly, so a material asks only if
    /// it has to know.
    fn random_reflection(
        &self,
        ray_direction: Vector,
        rebound_normal: Vector,
        entering_surface: impl Fn() -> bool,
    ) -> Option<Reflection>
        requires
            call_requires(entering_surface, ()),
    ;
}

/// A direction to leave in, and the factor by which each colour channel is
/// dimmed.
#[derive(Debug, Clone, Copy)]
pub struct Reflection {
    pub attenuation: Vector,
    pub direction: Vector,
}

/// The bits of one ten-thousandth, the least parameter at which a ray that
/// starts on a shape is taken to meet the shape again.
pub const REENTRY_BITS: u64 = 0x3f1a_36e2_eb1c_432d;

/// The parameters at which a ray that starts on a shape can meet the shape
/// again: above one ten-thousandth and below the largest finite scalar.
pub open spec fn reentry_window() -> Interval {
    Interval {
        min: Scalar { bits: REENTRY_BITS },
        max: Scalar { bits: LARGEST_BITS },
        bounds: IntervalBounds::Open,
    }
}

/// A scattered ray from a reflection: it starts at `point`, leaves in the
/// reflection's direction and is dimmed by the reflection's factor. No
/// reflection gives no ray.
pub open spec fn leaving(point: Point, reflection: Option<Reflection>) -> Option<ScatteredRay> {
    match reflection {
        Some(r) => Some(
            ScatteredRay { attenuation: r.attenuation, ray: Ray { origin: point, direction: r.direction } },
        ),
        None => None,
    }
}

/// Makes the scattered ray that leaves `point` from what the material
/// answered.
pub fn scattered_from(point: Point, reflection: Option<Reflection>) -> (scattered: Option<ScatteredRay>)
    ensures
        scattered == leaving(point, reflection),
{
    match reflection {
        Some(r) => Some(
            ScatteredRay { attenuation: r.attenuation, ray: Ray { origin: point, direction: r.direction } },
        ),
        None => None,
    }
}

/// A shape that is of one material all over.
pub struct UniformSurface<S: Shape, M: Material> {
    pub shape: S,
    pub material: M,
}

impl<S: Shape, M: Material> UniformSurface<S, M> {
    pub fn new(shape: S, material: M) -> (surface: Self)
        ensures
            surface.shape == shape,
            surface.material == material,
    {
        Self { shape, material }
    }
}

impl<S: Shape, M: Material> Surface for UniformSurface<S, M> {
    /// Asks the material, with the ray's direction, the shape's normal at
    /// `point` turned against the ray, and a probe that tells whether the
    /// ray, continued from `point`, meets the shape again. A ray that the
    /// material lets go leaves from `point`.
    fn scatter(&self, point: Point, ray: Ray) -> (scattered: Option<ScatteredRay>)
        ensures
            scattered matches Some(s) ==> s.ray.origin == point,
    {
        let entering_surface = || -> (entering: bool)
            ensures
                exists|t: Option<Scalar>|
                    {
                        &&& #[trigger] call_ensures(
                            S::intersection,
                            (&self.shape, Ray { origin: point, direction: ray.direction }, reentry_window()),
                            t,
                        )
                        &&& entering == t is Some
                    },
            {
                let window = Interval::new(
                    Scalar::from_bits(REENTRY_BITS),
                    Scalar::largest(),
                    IntervalBounds::Open,
                );
                self.shape.intersection(Ray::new(point, ray.direction), window).is_some()
            };
        let reflection = self.material.random_reflection(
            ray.direction,
            self.shape.normal_against_ray(point, ray),
            entering_surface,
        );
        scattered_from(point, reflection)
    }

    /// What the shape answers.
    fn intersection(&self, ray: Ray, time_interval: Interval) -> (t: Option<Scalar>)
        ensures
            call_ensures(S::intersection, (&self.shape, ray, time_interval), t),
    {
        self.shape.intersection(ray, time_interval)
    }
}

/// A surface is as faithful as its shape.
pub proof fn lemma_uniform_faithful<S: Shape, M: Material>(
    surface: UniformSurface<S, M>,
    ray: Ray,
    crossings: Set<Scalar>,
)
    requires
        crate::geometry::shape::faithful(surface.shape, ray, crossings),
    ensures
        faithful(surface, ray, crossings),
{
}

/// A surface in a box is the surface: this is what lets one scene hold
/// surfaces of many kinds.
impl<S: Surface + ?Sized> Surface for Box<S> {
    fn scatter(&self, point: Point, ray: Ray) -> (scattered: Option<ScatteredRay>)
        ensures
            call_ensures(S::scatter, (&**self, point, ray), scattered),
    {
        (**self).scatter(point, ray)
    }

    fn intersection(&self, ray: Ray, time_interval: Interval) -> (t: Option<Scalar>)
        ensures
            call_ensures(S::intersection, (&**self, ray, time_interval), t),
    {
        (**self).intersection(ray, time_interval)
    }
}

/// A surface in a box is as faithful as the surface.
pub proof fn lemma_boxed_faithful<S: Surface>(surface: Box<S>, ray: Ray, crossings: Set<Scalar>)
    requires
        faithful(*surface, ray, crossings),
    ensures
        faithful(surface, ray, crossings),
{
}

} // verus!
