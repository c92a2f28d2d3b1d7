//! Reading a `bmp::Image` into a raster.
//!
//! An image is opaque to the verifier. It is modelled by three values: its
//! width, its height, and the colour of each pixel by column `x` and row
//! `y`, counted from the upper left corner. What its methods do is stated
//! over these three without proof; `read_image` is proved from that.

use vstd::prelude::*;
use crate::raster::{Raster, RasterModel};
use crate::scan::{lemma_scan_index, lemma_scan_position};
use crate::tile::Rgb;

verus! {

/// `bmp::Image`, of which the verifier sees nothing but the three values
/// below.
#[verifier::external_type_specification]
#[verifier::external_body]
pub struct ExImage(bmp::Image);

/// Number of pixel columns of an image.
pub uninterp spec fn image_width(img: bmp::Image) -> nat;

/// Number of pixel rows of an image.
pub uninterp spec fn image_height(img: bmp::Image) -> nat;

/// The pixels of an image, keyed by `(x, y)`.
pub uninterp spec fn image_pixels(img: bmp::Image) -> Map<(int, int), (u8, u8, u8)>;

/// Whether the pixel count fits the 32-bit index arithmetic of `bmp`.
pub open spec fn addressable(img: bmp::Image) -> bool {
    image_width(img) * image_height(img) <= u32::MAX
}

/// `bmp::Image::get_width` returns the width the image was made or decoded
/// with.
pub assume_specification[ bmp::Image::get_width ](img: &bmp::Image) -> (w: u32)
    ensures
        w == image_width(*img),
;

/// `bmp::Image::get_height` returns the height the image was made or decoded
/// with.
pub assume_specification[ bmp::Image::get_height ](img: &bmp::Image) -> (h: u32)
    ensures
        h == image_height(*img),
;

/// `bmp::Image::get_pixel` returns the stored pixel at `(x, y)`; its three
/// channels are handed on as a triple. The contract only names that pixel.
///
/// The method indexes the pixel store at `(height - y - 1) * width + x`,
/// computed in 32 bits. Outside the image, or where the pixel count exceeds
/// 32 bits, that may panic or reach another pixel, so both are excluded.
#[verifier::external_body]
pub(crate) fn pixel_at(img: &bmp::Image, x: u32, y: u32) -> (c: Rgb)
    requires
        x < image_width(*img),
        y < image_height(*img),
        addressable(*img),
    ensures
        c == image_pixels(*img)[(x as int, y as int)],
{
    let p = img.get_pixel(x, y);
    (p.r, p.g, p.b)
}

/// `bmp::Image::coordinates` yields every coordinate of the image once, row
/// by row from the top, each row from left to right; they are collected in
/// that order. The bound on the pixel count keeps the list within what a
/// vector can hold.
#[verifier::external_body]
pub(crate) fn coordinates_of(img: &bmp::Image) -> (v: Vec<(u32, u32)>)
    requires
        addressable(*img),
    ensures
        v@.len() == image_width(*img) * image_height(*img),
        forall|i: int|
            0 <= i < v@.len() ==> (#[trigger] v@[i]).0 == i % (image_width(*img) as int)
                && v@[i].1 == i / (image_width(*img) as int),
{
    img.coordinates().collect()
}

/// Whether `raster` holds the pixels of `img`: it has the image's size, and
/// the same colour at every coordinate.
pub open spec fn depicts(raster: RasterModel, img: bmp::Image) -> bool {
    &&& raster.wf()
    &&& raster.width == image_width(img)
    &&& raster.height == image_height(img)
    &&& forall|x: int, y: int|
        raster.contains(x, y) ==> #[trigger] raster.pixel(x, y) == image_pixels(img)[(x, y)]
}

/// Copies the pixels of an image into a raster. An image with more pixels
/// than `bmp` can address is not read.
pub fn read_image(img: &bmp::Image) -> (raster: Option<Raster>)
    ensures
        raster is Some <==> addressable(*img),
        raster matches Some(r) ==> depicts(r@, *img),
{
    let width = img.get_width();
    let height = img.get_height();
    assert(width * height <= 0xffff_ffff * 0xffff_ffff) by (nonlinear_arith)
        requires
            0 <= width <= 0xffff_ffff,
            0 <= height <= 0xffff_ffff,
    ;
    if (width as u64) * (height as u64) > u32::MAX as u64 {
        return None;
    }
    let coords = coordinates_of(img);
    let mut pixels: Vec<Rgb> = Vec::new();
    let mut i: usize = 0;
    while i < coords.len()
        invariant
            i <= coords.len(),
            addressable(*img),
            width == image_width(*img),
            height == image_height(*img),
            coords@.len() == width * height,
            forall|k: int|
                0 <= k < coords@.len() ==> (#[trigger] coords@[k]).0 == k % (width as int)
                    && coords@[k].1 == k / (width as int),
            pixels@.len() == i,
            forall|k: int|
                0 <= k < i ==> #[trigger] pixels@[k] == image_pixels(*img)[(
                    k % (width as int),
                    k / (width as int),
                )],
        decreases coords.len() - i,
    {
        let (x, y) = coords[i];
        proof {
            lemma_scan_position(width as nat, height as nat, i as int);
        }
        pixels.push(pixel_at(img, x, y));
        i += 1;
    }
    let ghost filled = pixels@;
    let raster = Raster::new(width, height, pixels);
    proof {
        let model = RasterModel { width: width as nat, height: height as nat, pixels: filled };
        assert forall|x: int, y: int| model.contains(x, y) implies #[trigger] model.pixel(x, y)
            == image_pixels(*img)[(x, y)] by {
            lemma_scan_index(width as nat, height as nat, x, y);
        }
    }
    raster
}

} // verus!
