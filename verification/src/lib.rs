//! A path tracer's verified core.
//!
//! The crate holds the parts of an offline path tracer that decide rather than
//! compute: which surface a ray meets first and which surfaces tie with it,
//! when a traced ray stops, how an interval treats its end points, how a
//! finished picture is laid out and encoded. Scalars enter as IEEE 754
//! binary64 bit patterns. The crate compares them, negates them and cuts them
//! off to bytes, all of it exactly; it never adds or multiplies them, which
//! is left to the caller, as are the random numbers and the files.

pub mod camera;
pub mod geometry;
pub mod image;
pub mod surface;

pub use crate::camera::{pixel_samples, ray_colour, rebound, Bounce, Trace};
pub use crate::geometry::scalar::Scalar;
pub use crate::geometry::shape::sphere::Sphere;
pub use crate::geometry::shape::{against_ray, Shape};
pub use crate::geometry::vector::{Point, Vector};
pub use crate::geometry::{Interval, IntervalBounds, Ray};
pub use crate::image::formatter::ppm::PPMFormatter;
pub use crate::image::formatter::ImageFormatter;
pub use crate::image::{Image, Pixel};
pub use crate::surface::set::{SurfaceSet, SurfaceSetIntersection};
pub use crate::surface::{scattered_from, Material, Reflection, ScatteredRay, Surface, UniformSurface};
