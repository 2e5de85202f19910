//! Encoders that turn a picture into bytes.

use vstd::prelude::*;
use crate::image::Image;

pub mod ppm;

verus! {

/// An encoding of pictures as a run of byte chunks.
pub trait ImageFormatter {
    /// The encoded picture, chunk by chunk, in the order in which the chunks
    /// are to be written.
    fn get_bytes(&mut self, image: Image) -> Vec<Vec<u8>>;

    /// The number of bytes to expect for `image`.
    fn len(&self, image: &Image) -> u64;
}

} // verus!
