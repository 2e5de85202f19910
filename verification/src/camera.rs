//! What a camera decides: which samples make a pixel, and how far a ray is
//! followed.
//!
//! Tracing a ray alternates arithmetic with decisions. The decisions are
//! here. [`ray_colour`] says what a ray comes to: nothing, the background, or
//! a meeting with a surface. Where it meets a surface the caller finds the
//! point of the meeting and asks the surface to scatter the ray, and
//! [`rebound`] says what follows from the answer: nothing again, or another
//! ray to trace with one bounce fewer, whose colour is to be dimmed.

use vstd::prelude::*;
use crate::geometry::scalar::{Scalar, LARGEST_BITS};
use crate::geometry::vector::Vector;
use crate::geometry::{Interval, IntervalBounds, Ray};
use crate::surface::set::{all_faithful, missed, nearest, tied, SurfaceSet};
use crate::surface::{ScatteredRay, Surface};

verus! {

/// The bits of one thousandth: a ray is not taken to meet a surface nearer
/// than this to where it starts, which is as a rule on a surface.
pub const NEAR_BITS: u64 = 0x3f50_624d_d2f1_a9fc;

/// The bits of one half.
pub const HALF_BITS: u64 = 0x3fe0_0000_0000_0000;

/// The bits of minus one half.
pub const MINUS_HALF_BITS: u64 = 0xbfe0_0000_0000_0000;

/// The parameters at which a traced ray may meet a surface: above one
/// thousandth and below the largest finite scalar.
pub open spec fn sight() -> Interval {
    Interval { min: Scalar { bits: NEAR_BITS }, max: Scalar { bits: LARGEST_BITS }, bounds: IntervalBounds::Open }
}

/// The offsets of a jittered sample from its pixel's centre, in either
/// direction: from minus one half to one half, the ends included.
pub open spec fn jitter() -> Interval {
    Interval {
        min: Scalar { bits: MINUS_HALF_BITS },
        max: Scalar { bits: HALF_BITS },
        bounds: IntervalBounds::Closed,
    }
}

/// The interval that holds nothing, which is the offset of the sample through
/// the pixel's centre.
pub open spec fn centred() -> Interval {
    Interval { min: Scalar { bits: 0 }, max: Scalar { bits: 0 }, bounds: IntervalBounds::Open }
}

/// The ranges of offset for the samples of one pixel, in the order in which
/// their colours are summed: `antialiasing` jittered samples, then the one
/// through the centre. The sum is divided by their number.
pub fn pixel_samples(antialiasing: u8) -> (samples: Vec<Interval>)
    ensures
        samples@.len() == antialiasing + 1,
        forall|k: int| 0 <= k < antialiasing ==> samples@[k] == jitter(),
        samples@[antialiasing as int] == centred(),
{
    let mut samples: Vec<Interval> = Vec::new();
    let mut k: u8 = 0;
    while k < antialiasing
        invariant
            k <= antialiasing,
            samples@.len() == k,
            forall|j: int| 0 <= j < k ==> samples@[j] == jitter(),
        decreases antialiasing - k,
    {
        samples.push(
            Interval::new(Scalar::from_bits(MINUS_HALF_BITS), Scalar::from_bits(HALF_BITS), IntervalBounds::Closed),
        );
        k += 1;
    }
    samples.push(Interval::empty());
    samples
}

/// What a ray comes to.
pub enum Trace<'a, S: Surface> {
    /// Its colour is settled, with no more to trace.
    Settled(Vector),
    /// It leaves the scene: its colour is the background's.
    Escaped,
    /// It meets `surface` at the parameter `t`.
    Hit { t: Scalar, surface: &'a S },
}

/// What a ray comes to, with `max_ray_bounces` bounces left to it.
///
/// With none left, its colour is settled as zero: it brings no light. Else
/// the scene is searched along the ray. A ray that crosses nothing leaves
/// the scene. One that crosses something meets the surface that was added
/// first among those it crosses first.
pub fn ray_colour<'a, S: Surface>(world: &'a SurfaceSet<S>, ray: Ray, max_ray_bounces: u8) -> (trace: Trace<
    'a,
    S,
>)
    ensures
        max_ray_bounces == 0 ==> trace == Trace::<S>::Settled(Vector::splat(Scalar { bits: 0 })),
        max_ray_bounces != 0 ==> !(trace is Settled),
        max_ray_bounces != 0 && world@.len() == 0 ==> trace is Escaped,
        trace matches Trace::Hit { surface, .. } ==> world@.contains(*surface),
        max_ray_bounces != 0 ==> forall|crossings: Seq<Set<Scalar>>| #[trigger]
            all_faithful(world@, ray, crossings) ==> match trace {
                Trace::Settled(_) => false,
                Trace::Escaped => missed(crossings, sight()),
                Trace::Hit { t, surface } => {
                    &&& nearest(crossings, sight(), t)
                    &&& tied(world@, crossings, t).len() >= 1
                    &&& *surface == tied(world@, crossings, t)[0]
                },
            },
{
    if max_ray_bounces == 0 {
        return Trace::Settled(Vector::zero());
    }
    let window = Interval::new(Scalar::from_bits(NEAR_BITS), Scalar::largest(), IntervalBounds::Open);
    match world.intersection(ray, window) {
        None => Trace::Escaped,
        Some(hit) => {
            assert(hit.tie_set()[0] == *hit.surfaces@[0]);
            assert(hit.tie_set().len() >= 1);
            Trace::Hit { t: hit.t, surface: hit.surfaces[0] }
        },
    }
}

/// What follows when a surface has been asked to scatter a ray.
pub enum Bounce {
    /// The surface took the ray: its colour is settled.
    Settled(Vector),
    /// The surface let a ray go: its colour, found with `max_ray_bounces`
    /// bounces left, is to be multiplied by `attenuation`, channel by
    /// channel.
    Onward { attenuation: Vector, ray: Ray, max_ray_bounces: u8 },
}

/// What follows from a surface's answer for a ray that had
/// `max_ray_bounces` bounces left, the one at the surface among them. A ray
/// that was absorbed has the colour zero. One that was scattered goes on
/// with one bounce fewer.
pub fn rebound(scattered: Option<ScatteredRay>, max_ray_bounces: u8) -> (bounce: Bounce)
    requires
        max_ray_bounces > 0,
    ensures
        bounce == match scattered {
            None => Bounce::Settled(Vector::splat(Scalar { bits: 0 })),
            Some(s) => Bounce::Onward {
                attenuation: s.attenuation,
                ray: s.ray,
                max_ray_bounces: (max_ray_bounces - 1) as u8,
            },
        },
{
    match scattered {
        None => Bounce::Settled(Vector::zero()),
        Some(s) => Bounce::Onward { attenuation: s.attenuation, ray: s.ray, max_ray_bounces: max_ray_bounces - 1 },
    }
}

} // verus!
