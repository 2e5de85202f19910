//! Pixels and pictures.

use vstd::prelude::*;
use crate::geometry::vector::Vector;

pub mod formatter;

verus! {

/// One picture element: three 8-bit channels.
#[derive(Debug, Clone, Copy, PartialEq, Eq, Structural)]
pub struct Pixel {
    pub red: u8,
    pub green: u8,
    pub blue: u8,
}

impl Pixel {
    pub fn new(red: u8, green: u8, blue: u8) -> (pixel: Self)
        ensures
            pixel == (Pixel { red, green, blue }),
    {
        Self { red, green, blue }
    }

    pub fn black() -> (pixel: Self)
        ensures
            pixel == (Pixel { red: 0, green: 0, blue: 0 }),
    {
        Self { red: 0, green: 0, blue: 0 }
    }

    /// The pixel for a colour whose channels are on the scale from 0 to 255:
    /// each channel is cut off to a whole number and kept within that scale.
    pub fn from_scaled(colour: Vector) -> (pixel: Self)
        ensures
            pixel.red == colour.x.clamped_byte(),
            pixel.green == colour.y.clamped_byte(),
            pixel.blue == colour.z.clamped_byte(),
    {
        Self { red: colour.x.to_u8(), green: colour.y.to_u8(), blue: colour.z.to_u8() }
    }

    /// The pixel as one number: a zero byte, then red, green and blue, most
    /// significant first.
    pub open spec fn packed(self) -> u32 {
        (self.red * 0x1_0000 + self.green * 0x100 + self.blue) as u32
    }
}

impl From<Pixel> for u32 {
    fn from(value: Pixel) -> (packed: u32) {
        let red: u32 = value.red as u32;
        let green: u32 = value.green as u32;
        let blue: u32 = value.blue as u32;
        assert((red << 16) == red * 0x1_0000 && (green << 8) == green * 0x100) by (bit_vector)
            requires
                red < 0x100,
                green < 0x100,
        ;
        (red << 16) + (green << 8) + blue
    }
}

impl vstd::std_specs::convert::FromSpecImpl<Pixel> for u32 {
    open spec fn obeys_from_spec() -> bool {
        true
    }

    open spec fn from_spec(value: Pixel) -> u32 {
        value.packed()
    }
}

/// A grid of `height` rows of `width` pixels each, stored row by row from the
/// top, each row from the left.
pub struct Image {
    pub height: u16,
    pub width: u16,
    pub pixels: Vec<Pixel>,
}

impl View for Image {
    type V = Seq<Pixel>;

    open spec fn view(&self) -> Seq<Pixel> {
        self.pixels@
    }
}

impl Image {
    /// The grid is full: one pixel for every cell.
    pub open spec fn well_formed(&self) -> bool {
        self@.len() == self.height * self.width
    }

    /// The pixel in column `col` of row `row`.
    pub open spec fn pixel_at(&self, col: int, row: int) -> Pixel {
        cell(self@, self.width as int, col, row)
    }

    /// Builds a picture by asking `colour` for every cell, with the column
    /// first and the row second, row by row.
    pub fn from_pixels<F>(height: u16, width: u16, colour: &F) -> (image: Self) where
        F: Fn(u16, u16) -> Pixel,

        requires
            forall|col: u16, row: u16| col < width && row < height ==> call_requires(*colour, (col, row)),
        ensures
            image.height == height,
            image.width == width,
            image.well_formed(),
            forall|col: u16, row: u16|
                col < width && row < height ==> call_ensures(
                    *colour,
                    (col, row),
                    #[trigger] image.pixel_at(col as int, row as int),
                ),
    {
        let mut pixels: Vec<Pixel> = Vec::new();
        let mut row: u16 = 0;
        while row < height
            invariant
                row <= height,
                pixels@.len() == row * width,
                forall|c: u16, r: u16| c < width && r < height ==> call_requires(*colour, (c, r)),
                forall|c: u16, r: u16|
                    c < width && r < row ==> call_ensures(
                        *colour,
                        (c, r),
                        #[trigger] cell(pixels@, width as int, c as int, r as int),
                    ),
            decreases height - row,
        {
            let mut col: u16 = 0;
            while col < width
                invariant
                    row < height,
                    col <= width,
                    pixels@.len() == row * width + col,
                    forall|c: u16, r: u16| c < width && r < height ==> call_requires(*colour, (c, r)),
                    forall|c: u16, r: u16|
                        (r < row && c < width) || (r == row && c < col) ==> call_ensures(
                            *colour,
                            (c, r),
                            #[trigger] cell(pixels@, width as int, c as int, r as int),
                        ),
                decreases width - col,
            {
                let ghost before = pixels@;
                let pixel = colour(col, row);
                pixels.push(pixel);
                proof {
                    assert forall|c: u16, r: u16|
                        (r < row && c < width) || (r == row && c < col + 1) implies call_ensures(
                        *colour,
                        (c, r),
                        #[trigger] cell(pixels@, width as int, c as int, r as int),
                    ) by {
                        if r < row || c < col {
                            lemma_cell_order(width as int, c as int, r as int, col as int, row as int);
                            assert(cell(pixels@, width as int, c as int, r as int) == cell(
                                before,
                                width as int,
                                c as int,
                                r as int,
                            ));
                        }
                    }
                }
                col += 1;
            }
            assert(row * width + width == (row + 1) * width) by (nonlinear_arith);
            row += 1;
        }
        Image { height, width, pixels }
    }

    /// Hands the pixels out, in storage order.
    pub fn collect(self) -> (pixels: Vec<Pixel>)
        ensures
            pixels@ == self@,
    {
        self.pixels
    }
}

/// The element that stands for column `col` of row `row` when rows of `width`
/// cells are laid end to end.
pub open spec fn cell(pixels: Seq<Pixel>, width: int, col: int, row: int) -> Pixel {
    pixels[row * width + col]
}

/// A cell that comes before another in reading order has the smaller index.
proof fn lemma_cell_order(width: int, c: int, r: int, col: int, row: int)
    requires
        0 <= c < width,
        0 <= r,
        0 <= col <= width,
        r < row || (r == row && c < col),
    ensures
        0 <= r * width + c < row * width + col,
{
    assert(0 <= r * width) by (nonlinear_arith)
        requires
            0 <= r,
            0 <= width,
    ;
    if r < row {
        assert((r + 1) * width <= row * width) by (nonlinear_arith)
            requires
                r + 1 <= row,
                0 <= width,
        ;
        assert((r + 1) * width == r * width + width) by (nonlinear_arith);
    }
}

} // verus!
