//! The order in which a raster is scanned, and what follows from it.

use vstd::prelude::*;
use vstd::arithmetic::div_mod::{lemma_fundamental_div_mod, lemma_fundamental_div_mod_converse};

verus! {

/// The coordinates `(x, y)` of a `width` × `height` raster in scan order: row
/// by row from the top, each row from left to right.
pub open spec fn scan_order(width: nat, height: nat) -> Seq<(u32, u32)> {
    Seq::new(width * height, |i: int| ((i % width as int) as u32, (i / width as int) as u32))
}

/// Position `i` of the scan is column `i % width` of row `i / width`, and
/// that pixel lies inside the raster.
pub proof fn lemma_scan_position(width: nat, height: nat, i: int)
    requires
        0 <= i < width * height,
    ensures
        0 <= i % (width as int) < width,
        0 <= i / (width as int) < height,
        (i / (width as int)) * width + i % (width as int) == i,
{
    let w = width as int;
    let h = height as int;
    assert(0 < w) by (nonlinear_arith)
        requires
            0 <= i < w * h,
            0 <= w,
    ;
    lemma_fundamental_div_mod(i, w);
    let q = i / w;
    let r = i % w;
    assert(q * w == w * q) by (nonlinear_arith);
    assert(q < h) by (nonlinear_arith)
        requires
            w * q + r < w * h,
            0 <= r,
            0 < w,
    ;
}

/// The pixel `(x, y)` is met at position `y * width + x` of the scan, and
/// nowhere else.
pub proof fn lemma_scan_index(width: nat, height: nat, x: int, y: int)
    requires
        0 <= x < width,
        0 <= y < height,
    ensures
        0 <= y * width + x < width * height,
        (y * width + x) % (width as int) == x,
        (y * width + x) / (width as int) == y,
{
    let w = width as int;
    let h = height as int;
    assert(0 <= y * w + x < w * h) by (nonlinear_arith)
        requires
            0 <= x < w,
            0 <= y < h,
    ;
    lemma_fundamental_div_mod_converse(y * w + x, w, y, x);
}

} // verus!
