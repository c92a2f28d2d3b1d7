//! A decoded image as plain values: its size and the colour of every pixel.

use vstd::prelude::*;
use crate::scan::lemma_scan_index;
use crate::tile::Rgb;

verus! {

/// What a raster is, mathematically: its size and its pixels in scan order,
/// that is row by row from the top, each row from left to right.
pub ghost struct RasterModel {
    pub width: nat,
    pub height: nat,
    pub pixels: Seq<Rgb>,
}

impl RasterModel {
    /// Validity of a raster: sides of at most 32 bits, and one pixel for
    /// each coordinate.
    pub open spec fn wf(self) -> bool {
        &&& self.width <= u32::MAX
        &&& self.height <= u32::MAX
        &&& self.pixels.len() == self.width * self.height
    }

    /// Whether `(x, y)` lies inside the raster.
    pub open spec fn contains(self, x: int, y: int) -> bool {
        0 <= x < self.width && 0 <= y < self.height
    }

    /// Colour of the pixel in column `x` of row `y`.
    pub open spec fn pixel(self, x: int, y: int) -> Rgb {
        self.pixels[y * self.width + x]
    }
}

/// A `width` × `height` grid of colours.
#[derive(Debug)]
pub struct Raster {
    width: u32,
    height: u32,
    pixels: Vec<Rgb>,
}

impl View for Raster {
    type V = RasterModel;

    closed spec fn view(&self) -> RasterModel {
        RasterModel { width: self.width as nat, height: self.height as nat, pixels: self.pixels@ }
    }
}

impl Raster {
    /// Validity of a raster; it holds of every `Raster`.
    #[verifier::type_invariant]
    pub open spec fn wf(&self) -> bool {
        self@.wf()
    }

    /// A raster of the given size from its pixels in scan order, or `None`
    /// where their number is not `width * height`.
    pub fn new(width: u32, height: u32, pixels: Vec<Rgb>) -> (raster: Option<Raster>)
        ensures
            raster is Some <==> pixels@.len() == width * height,
            raster matches Some(r) ==> r@ == (RasterModel {
                width: width as nat,
                height: height as nat,
                pixels: pixels@,
            }),
    {
        assert(width * height <= 0xffff_ffff * 0xffff_ffff) by (nonlinear_arith)
            requires
                0 <= width <= 0xffff_ffff,
                0 <= height <= 0xffff_ffff,
        ;
        if pixels.len() as u64 == (width as u64) * (height as u64) {
            Some(Raster { width, height, pixels })
        } else {
            None
        }
    }

    /// Number of pixel columns.
    pub fn width(&self) -> (w: u32)
        ensures
            w == self@.width,
    {
        self.width
    }

    /// Number of pixel rows.
    pub fn height(&self) -> (h: u32)
        ensures
            h == self@.height,
    {
        self.height
    }

    /// The pixels in scan order.
    pub fn pixels(&self) -> (pixels: &Vec<Rgb>)
        ensures
            pixels@ == self@.pixels,
    {
        &self.pixels
    }

    /// Colour of the pixel in column `x` of row `y`, or `None` outside the
    /// raster.
    pub fn pixel(&self, x: u32, y: u32) -> (color: Option<Rgb>)
        ensures
            color == (if self@.contains(x as int, y as int) {
                Some(self@.pixel(x as int, y as int))
            } else {
                None
            }),
    {
        proof {
            use_type_invariant(self);
        }
        if x < self.width && y < self.height {
            proof {
                lemma_scan_index(self.width as nat, self.height as nat, x as int, y as int);
                assert(self.pixels.len() == self.width * self.height);
            }
            Some(self.pixels[(y as usize) * (self.width as usize) + (x as usize)])
        } else {
            None
        }
    }
}

} // verus!
