//! The portable pixmap format, plain and raw.

use vstd::prelude::*;
use crate::image::formatter::ImageFormatter;
use crate::image::{Image, Pixel};

verus! {

/// The decimal digits of `n` in ASCII, most significant first, with no
/// leading zero.
pub open spec fn decimal(n: nat) -> Seq<u8>
    decreases n,
{
    if n < 10 {
        seq![(48 + n) as u8]
    } else {
        decimal(n / 10).push((48 + n % 10) as u8)
    }
}

/// The two bytes that open a pixmap: `P3` for the plain form, `P6` for the raw.
pub open spec fn magic_number(ascii_mode: bool) -> Seq<u8> {
    if ascii_mode {
        seq![80u8, 51u8]
    } else {
        seq![80u8, 54u8]
    }
}

/// The header of a pixmap: the magic number, the width and the height in
/// decimal with a space between them, and the largest channel value, 255,
/// each followed by a line feed.
pub open spec fn header_bytes(ascii_mode: bool, width: u16, height: u16) -> Seq<u8> {
    magic_number(ascii_mode) + seq![10u8] + decimal(width as nat) + seq![32u8] + decimal(
        height as nat,
    ) + seq![10u8, 50u8, 53u8, 53u8, 10u8]
}

/// One pixel's bytes. Plain: the three channels in decimal, a space between
/// them and a line feed after them. Raw: the three channels as they are.
pub open spec fn pixel_bytes(ascii_mode: bool, pixel: Pixel) -> Seq<u8> {
    if ascii_mode {
        decimal(pixel.red as nat) + seq![32u8] + decimal(pixel.green as nat) + seq![32u8] + decimal(
            pixel.blue as nat,
        ) + seq![10u8]
    } else {
        seq![pixel.red, pixel.green, pixel.blue]
    }
}

/// The number of bytes set aside for the pixels: three per pixel in the raw
/// form, and four times that in the plain form, where a channel takes at most
/// three digits and a separator.
pub open spec fn pixel_budget(ascii_mode: bool, width: u16, height: u16) -> int {
    if ascii_mode {
        width * height * 3 * 4
    } else {
        width * height * 3
    }
}

/// Appends the decimal digits of `n` to `out`.
fn push_decimal(out: &mut Vec<u8>, n: u16)
    ensures
        final(out)@ == old(out)@ + decimal(n as nat),
    decreases n,
{
    if n >= 10 {
        push_decimal(out, n / 10);
    }
    let digit: u8 = (n % 10) as u8;
    out.push(48 + digit);
    assert(out@ =~= old(out)@ + decimal(n as nat));
}

/// A decimal numeral of a 16-bit number has from one to five digits.
pub proof fn lemma_decimal_len(n: nat)
    requires
        n <= u16::MAX,
    ensures
        1 <= decimal(n).len() <= 5,
{
    reveal_with_fuel(decimal, 6);
}

/// A decimal numeral of an 8-bit number has from one to three digits.
pub proof fn lemma_decimal_len_byte(n: nat)
    requires
        n <= u8::MAX,
    ensures
        1 <= decimal(n).len() <= 3,
{
    reveal_with_fuel(decimal, 4);
}

pub struct PPMFormatter {
    pub ascii_mode: bool,
}

impl PPMFormatter {
    pub fn new(ascii_mode: bool) -> (formatter: Self)
        ensures
            formatter.ascii_mode == ascii_mode,
    {
        Self { ascii_mode }
    }

    /// The header for a picture of `image`'s width and height.
    pub fn header(&self, image: &Image) -> (bytes: Vec<u8>)
        ensures
            bytes@ == header_bytes(self.ascii_mode, image.width, image.height),
    {
        let mut bytes: Vec<u8> = Vec::new();
        bytes.push(80);
        if self.ascii_mode {
            bytes.push(51);
        } else {
            bytes.push(54);
        }
        bytes.push(10);
        push_decimal(&mut bytes, image.width);
        bytes.push(32);
        push_decimal(&mut bytes, image.height);
        bytes.push(10);
        bytes.push(50);
        bytes.push(53);
        bytes.push(53);
        bytes.push(10);
        assert(bytes@ =~= header_bytes(self.ascii_mode, image.width, image.height));
        bytes
    }

    /// The bytes of one pixel.
    pub fn pixel_to_bytes(&self, pixel: Pixel) -> (bytes: Vec<u8>)
        ensures
            bytes@ == pixel_bytes(self.ascii_mode, pixel),
    {
        let mut bytes: Vec<u8> = Vec::new();
        if self.ascii_mode {
            push_decimal(&mut bytes, pixel.red as u16);
            bytes.push(32);
            push_decimal(&mut bytes, pixel.green as u16);
            bytes.push(32);
            push_decimal(&mut bytes, pixel.blue as u16);
            bytes.push(10);
        } else {
            bytes.push(pixel.red);
            bytes.push(pixel.green);
            bytes.push(pixel.blue);
        }
        assert(bytes@ =~= pixel_bytes(self.ascii_mode, pixel));
        bytes
    }
}

impl ImageFormatter for PPMFormatter {
    /// The header as the first chunk, then one chunk for each pixel, in
    /// storage order.
    fn get_bytes(&mut self, image: Image) -> (chunks: Vec<Vec<u8>>)
        ensures
            final(self).ascii_mode == old(self).ascii_mode,
            chunks@.len() == image@.len() + 1,
            chunks@[0]@ == header_bytes(old(self).ascii_mode, image.width, image.height),
            forall|i: int|
                0 <= i < image@.len() ==> (#[trigger] chunks@[i + 1])@ == pixel_bytes(
                    old(self).ascii_mode,
                    image@[i],
                ),
    {
        let mut chunks: Vec<Vec<u8>> = Vec::new();
        chunks.push(self.header(&image));
        let ghost width = image.width;
        let ghost height = image.height;
        let pixels = image.collect();
        let mut i: usize = 0;
        while i < pixels.len()
            invariant
                i <= pixels@.len(),
                chunks@.len() == i + 1,
                chunks@[0]@ == header_bytes(self.ascii_mode, width, height),
                forall|k: int|
                    0 <= k < i ==> (#[trigger] chunks@[k + 1])@ == pixel_bytes(self.ascii_mode, pixels@[k]),
            decreases pixels@.len() - i,
        {
            chunks.push(self.pixel_to_bytes(pixels[i]));
            i += 1;
        }
        chunks
    }

    /// The header's length and the room set aside for the pixels.
    fn len(&self, image: &Image) -> (n: u64)
        ensures
            n == header_bytes(self.ascii_mode, image.width, image.height).len() + pixel_budget(
                self.ascii_mode,
                image.width,
                image.height,
            ),
    {
        let width: u64 = image.width as u64;
        let height: u64 = image.height as u64;
        assert(width * height <= 0xffff * 0xffff) by (nonlinear_arith)
            requires
                width <= 0xffff,
                height <= 0xffff,
        ;
        let mut pixel_bytes: u64 = width * height * 3;
        if self.ascii_mode {
            pixel_bytes = pixel_bytes * 4;
        }
        let header = self.header(image);
        proof {
            lemma_decimal_len(image.width as nat);
            lemma_decimal_len(image.height as nat);
        }
        header.len() as u64 + pixel_bytes
    }
}

/// A walk over the pixels of a picture of `rows` rows and `cols` columns that
/// hands out one pixel's bytes at a time, so that a large picture need not be
/// encoded as a whole.
pub struct PPMIterator<'a> {
    pub ascii_mode: bool,
    pub rows: u32,
    pub cols: u32,
    pub pixels: &'a [Pixel],
    pub ix: u64,
}

impl<'a> PPMIterator<'a> {
    /// There is a pixel for every cell, and the walk has not gone past the
    /// last.
    pub open spec fn well_formed(&self) -> bool {
        self.ix <= self.rows * self.cols <= self.pixels@.len()
    }

    pub fn new(ascii_mode: bool, rows: u32, cols: u32, pixels: &'a [Pixel]) -> (walk: Self)
        ensures
            walk == (PPMIterator { ascii_mode, rows, cols, pixels, ix: 0 }),
            walk.well_formed() <==> rows * cols <= pixels@.len(),
    {
        Self { ascii_mode, rows, cols, pixels, ix: 0 }
    }

    /// The bytes of the next pixel, or nothing once every cell has been
    /// handed out.
    pub fn next(&mut self) -> (chunk: Option<Vec<u8>>)
        requires
            old(self).well_formed(),
        ensures
            final(self).well_formed(),
            final(self).ascii_mode == old(self).ascii_mode,
            final(self).rows == old(self).rows,
            final(self).cols == old(self).cols,
            final(self).pixels == old(self).pixels,
            old(self).ix == old(self).rows * old(self).cols ==> chunk is None && final(self).ix == old(
                self,
            ).ix,
            old(self).ix < old(self).rows * old(self).cols ==> {
                &&& final(self).ix == old(self).ix + 1
                &&& chunk matches Some(bytes)
                &&& bytes@ == pixel_bytes(old(self).ascii_mode, old(self).pixels@[old(self).ix as int])
            },
    {
        let rows: u64 = self.rows as u64;
        let cols: u64 = self.cols as u64;
        assert(rows * cols <= 0xffff_ffff * 0xffff_ffff) by (nonlinear_arith)
            requires
                rows <= 0xffff_ffff,
                cols <= 0xffff_ffff,
        ;
        if self.ix == rows * cols {
            return None;
        }
        let pixel = self.pixels[self.ix as usize];
        self.ix += 1;
        let formatter = PPMFormatter { ascii_mode: self.ascii_mode };
        Some(formatter.pixel_to_bytes(pixel))
    }
}

/// The number of bytes in `chunks`.
pub open spec fn total_len(chunks: Seq<Vec<u8>>) -> nat
    decreases chunks.len(),
{
    if chunks.len() == 0 {
        0
    } else {
        total_len(chunks.drop_last()) + chunks.last()@.len()
    }
}

/// One pixel takes three bytes in the raw form, and from six to twelve in the
/// plain form.
pub proof fn lemma_pixel_bytes_len(ascii_mode: bool, pixel: Pixel)
    ensures
        !ascii_mode ==> pixel_bytes(ascii_mode, pixel).len() == 3,
        ascii_mode ==> 6 <= pixel_bytes(ascii_mode, pixel).len() <= 12,
{
    lemma_decimal_len_byte(pixel.red as nat);
    lemma_decimal_len_byte(pixel.green as nat);
    lemma_decimal_len_byte(pixel.blue as nat);
}

/// The length that a formatter announces for a full picture is never less
/// than the number of bytes that it hands out, and in the raw form it is that
/// number.
pub proof fn lemma_len_covers_bytes(ascii_mode: bool, image: Image, chunks: Seq<Vec<u8>>)
    requires
        image.well_formed(),
        chunks.len() == image@.len() + 1,
        chunks[0]@ == header_bytes(ascii_mode, image.width, image.height),
        forall|i: int| 0 <= i < image@.len() ==> (#[trigger] chunks[i + 1])@ == pixel_bytes(ascii_mode, image@[i]),
    ensures
        total_len(chunks) <= header_bytes(ascii_mode, image.width, image.height).len() + pixel_budget(
            ascii_mode,
            image.width,
            image.height,
        ),
        !ascii_mode ==> total_len(chunks) == header_bytes(ascii_mode, image.width, image.height).len()
            + pixel_budget(ascii_mode, image.width, image.height),
{
    lemma_total_len(ascii_mode, image@, chunks, image@.len() as int);
    assert(chunks.take(image@.len() as int + 1) == chunks);
    assert(image.width * image.height * 3 * 4 == 12 * (image.height * image.width)) by (nonlinear_arith);
    assert(image.width * image.height * 3 == 3 * (image.height * image.width)) by (nonlinear_arith);
}

/// The header and the first `n` pixels take the header's bytes and three
/// bytes a pixel in the raw form, at most twelve a pixel in the plain form.
proof fn lemma_total_len(ascii_mode: bool, pixels: Seq<Pixel>, chunks: Seq<Vec<u8>>, n: int)
    requires
        0 <= n <= pixels.len(),
        chunks.len() == pixels.len() + 1,
        forall|i: int| 0 <= i < pixels.len() ==> (#[trigger] chunks[i + 1])@ == pixel_bytes(ascii_mode, pixels[i]),
    ensures
        total_len(chunks.take(n + 1)) <= chunks[0]@.len() + 12 * n,
        !ascii_mode ==> total_len(chunks.take(n + 1)) == chunks[0]@.len() + 3 * n,
    decreases n,
{
    let upto = chunks.take(n + 1);
    assert(upto.last() == chunks[n]);
    if n == 0 {
        assert(upto.drop_last().len() == 0);
        assert(total_len(upto.drop_last()) == 0);
    } else {
        assert(upto.drop_last() == chunks.take(n));
        lemma_total_len(ascii_mode, pixels, chunks, n - 1);
        assert(chunks[(n - 1) + 1]@ == pixel_bytes(ascii_mode, pixels[n - 1]));
        lemma_pixel_bytes_len(ascii_mode, pixels[n - 1]);
    }
}

} // verus!
