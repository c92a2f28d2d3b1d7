//! Building a grid from a raster: every pixel is classified by its colour.

use vstd::prelude::*;
use crate::grid::{GridModel, MapGrid};
use crate::raster::{Raster, RasterModel};
use crate::scan::{lemma_scan_index, lemma_scan_position, scan_order};
use crate::tile::{lemma_match_finds_entry, Rgb, TileDictionary, TileKind, TILE_COUNT};

verus! {

/// Width of the standard playing field, in pixels.
pub const FIELD_WIDTH: u32 = 136;

/// Height of the standard playing field, in pixels.
pub const FIELD_HEIGHT: u32 = 136;

/// What to do with a pixel whose colour is in no dictionary entry.
#[derive(Clone, Copy, Debug, PartialEq, Eq, Structural)]
pub enum OnUnmatched {
    /// Stop, and report the pixel as an error.
    Reject,
    /// Store the given kind in the cell, and record the coordinate.
    Substitute(TileKind),
}

/// Why no grid was built.
#[derive(Clone, Copy, Debug, PartialEq, Eq)]
pub enum MapError {
    /// The raster does not have the size that the builder asks for.
    DimensionMismatch { expected_width: u32, expected_height: u32, actual_width: u32, actual_height: u32 },
    /// The pixel at `(x, y)` has a colour that is in no dictionary entry.
    UnmatchedColor { x: u32, y: u32, color: Rgb },
}

/// Whether the pixel of `raster` at the coordinate `at` matches no entry of
/// `dict`.
pub open spec fn is_unmatched(dict: TileDictionary, raster: RasterModel, at: (u32, u32)) -> bool {
    dict.spec_match_color(raster.pixel(at.0 as int, at.1 as int)) is None
}

/// Whether every pixel of `raster` matches an entry of `dict`.
pub open spec fn all_matched(dict: TileDictionary, raster: RasterModel) -> bool {
    forall|x: int, y: int|
        raster.contains(x, y) ==> dict.spec_match_color(#[trigger] raster.pixel(x, y)) is Some
}

/// `is_unmatched` as a predicate on coordinates.
pub open spec fn unmatched_in(dict: TileDictionary, raster: RasterModel) -> spec_fn((u32, u32)) -> bool {
    |at: (u32, u32)| is_unmatched(dict, raster, at)
}

/// The coordinates of the pixels of `raster` that match no entry of `dict`,
/// in scan order.
pub open spec fn unmatched_pixels(dict: TileDictionary, raster: RasterModel) -> Seq<(u32, u32)> {
    scan_order(raster.width, raster.height).filter(unmatched_in(dict, raster))
}

/// Settings for building a grid: the size that the raster must have, and
/// what to do with a colour that matches nothing.
#[derive(Clone, Copy, Debug)]
pub struct MapBuilder {
    pub width: u32,
    pub height: u32,
    pub on_unmatched: OnUnmatched,
}

impl MapBuilder {
    /// Whether `raster` has the size this builder asks for.
    pub open spec fn accepts(&self, raster: RasterModel) -> bool {
        raster.width == self.width && raster.height == self.height
    }

    /// The tile index that a pixel of colour `color` is classified as: the
    /// position of its dictionary entry, else that of the substitute kind.
    /// A colour that matches nothing and is not substituted has no class.
    pub open spec fn classify(&self, dict: TileDictionary, color: Rgb) -> Option<usize> {
        match dict.spec_match_color(color) {
            Some(index) => Some(index),
            None => match self.on_unmatched {
                OnUnmatched::Substitute(kind) => Some(kind.spec_index() as usize),
                OnUnmatched::Reject => None,
            },
        }
    }

    /// Whether `grid` is the classification of `raster`: of the raster's
    /// size, each cell `(x, y)` holding the class of the pixel `(x, y)`, with
    /// exactly the unmatched pixels recorded.
    pub open spec fn classifies(&self, dict: TileDictionary, raster: RasterModel, grid: GridModel) -> bool {
        &&& grid.width == raster.width
        &&& grid.height == raster.height
        &&& grid.cells.len() == grid.width
        &&& forall|x: int| 0 <= x < grid.width ==> (#[trigger] grid.cells[x]).len() == grid.height
        &&& forall|x: int, y: int|
            grid.contains(x, y) ==> Some(#[trigger] grid.cells[x][y]) == self.classify(
                dict,
                raster.pixel(x, y),
            )
        &&& grid.unmatched == unmatched_pixels(dict, raster)
    }

    /// Whether `build` succeeds: the raster has the builder's size, and
    /// every pixel matches a dictionary entry where unmatched colours are
    /// rejected.
    pub open spec fn succeeds(&self, dict: TileDictionary, raster: RasterModel) -> bool {
        &&& self.accepts(raster)
        &&& self.on_unmatched is Reject ==> all_matched(dict, raster)
    }

    /// What `build` returns for a raster and a dictionary: the grid that
    /// classifies the raster, or the reason why there is none.
    pub open spec fn build_spec(
        &self,
        dict: TileDictionary,
        raster: RasterModel,
        result: Result<MapGrid, MapError>,
    ) -> bool {
        match result {
            Ok(grid) => {
                &&& self.succeeds(dict, raster)
                &&& self.classifies(dict, raster, grid@)
                &&& grid.wf()
            },
            Err(MapError::DimensionMismatch {
                expected_width,
                expected_height,
                actual_width,
                actual_height,
            }) => {
                &&& !self.accepts(raster)
                &&& expected_width == self.width
                &&& expected_height == self.height
                &&& actual_width == raster.width
                &&& actual_height == raster.height
            },
            Err(MapError::UnmatchedColor { x, y, color }) => {
                &&& self.accepts(raster)
                &&& self.on_unmatched is Reject
                &&& raster.contains(x as int, y as int)
                &&& color == raster.pixel(x as int, y as int)
                &&& dict.spec_match_color(color) is None
                &&& unmatched_pixels(dict, raster).len() > 0
                &&& (x, y) == unmatched_pixels(dict, raster)[0]
            },
        }
    }

    /// A builder for rasters of the given size that rejects unmatched
    /// colours.
    pub fn new(width: u32, height: u32) -> (builder: MapBuilder)
        ensures
            builder == (MapBuilder { width, height, on_unmatched: OnUnmatched::Reject }),
    {
        MapBuilder { width, height, on_unmatched: OnUnmatched::Reject }
    }

    /// Classifies every pixel of `raster` against `dict`.
    ///
    /// A raster of another size than the builder's is refused. A pixel whose
    /// colour is in no dictionary entry is either reported as an error, the
    /// first such pixel in scan order, or stored as the substitute kind and
    /// recorded in the grid, as `on_unmatched` says.
    pub fn build(&self, raster: &Raster, dict: &TileDictionary) -> (result: Result<
        MapGrid,
        MapError,
    >)
        ensures
            result is Ok <==> self.succeeds(*dict, raster@),
            self.build_spec(*dict, raster@, result),
    {
        let width = raster.width();
        let height = raster.height();
        if width != self.width || height != self.height {
            return Err(
                MapError::DimensionMismatch {
                    expected_width: self.width,
                    expected_height: self.height,
                    actual_width: width,
                    actual_height: height,
                },
            );
        }
        let pixels = raster.pixels();
        let mut cells = blank_cells(width, height);
        let mut unmatched: Vec<(u32, u32)> = Vec::new();
        let ghost order = scan_order(width as nat, height as nat);
        let ghost pred = unmatched_in(*dict, raster@);
        proof {
            use_type_invariant(dict);
            use_type_invariant(raster);
        }
        let mut i: usize = 0;
        while i < pixels.len()
            invariant
                i <= pixels.len(),
                dict.wf(),
                self.accepts(raster@),
                width == raster@.width,
                height == raster@.height,
                pixels@ == raster@.pixels,
                pixels@.len() == width * height,
                order == scan_order(width as nat, height as nat),
                pred == unmatched_in(*dict, raster@),
                cells@.len() == width,
                forall|x: int| 0 <= x < width ==> (#[trigger] cells@[x])@.len() == height,
                forall|x: int, y: int|
                    0 <= x < width && 0 <= y < height ==> (#[trigger] cells@[x]@[y]) < TILE_COUNT,
                forall|x: int, y: int|
                    0 <= x < width && 0 <= y < height && y * width + x < i ==> Some(
                        #[trigger] cells@[x]@[y],
                    ) == self.classify(*dict, raster@.pixel(x, y)),
                unmatched@ == order.take(i as int).filter(pred),
                self.on_unmatched is Reject ==> unmatched@.len() == 0,
                forall|k: int|
                    0 <= k < unmatched@.len() ==> (#[trigger] unmatched@[k]).0 < width
                        && unmatched@[k].1 < height,
            decreases pixels.len() - i,
        {
            proof {
                lemma_scan_position(width as nat, height as nat, i as int);
            }
            let x = (i % width as usize) as u32;
            let y = (i / width as usize) as u32;
            let color = pixels[i];
            proof {
                assert(order.take(i + 1) =~= order.take(i as int).push((x, y)));
                lemma_filter_push(order.take(i as int), (x, y), pred);
            }
            let index = match dict.match_color(color) {
                Some(index) => index,
                None => match self.on_unmatched {
                    OnUnmatched::Reject => {
                        proof {
                            lemma_filter_first(order, i as int, pred);
                        }
                        return Err(MapError::UnmatchedColor { x, y, color });
                    },
                    OnUnmatched::Substitute(kind) => {
                        unmatched.push((x, y));
                        kind.index()
                    },
                },
            };
            cells[x as usize][y as usize] = index;
            proof {
                assert forall|px: int, py: int|
                    0 <= px < width && 0 <= py < height && py * width + px < i + 1 implies Some(
                    #[trigger] cells@[px]@[py],
                ) == self.classify(*dict, raster@.pixel(px, py)) by {
                    lemma_scan_index(width as nat, height as nat, px, py);
                }
            }
            i += 1;
        }
        proof {
            assert(order.take(i as int) =~= order);
            lemma_unmatched_pixels(*dict, raster@);
            assert forall|x: int, y: int| 0 <= x < width && 0 <= y < height implies Some(
                #[trigger] cells@[x]@[y],
            ) == self.classify(*dict, raster@.pixel(x, y)) by {
                lemma_scan_index(width as nat, height as nat, x, y);
            }
        }
        Ok(MapGrid::assemble(width, height, cells, unmatched))
    }
}

/// The list of unmatched pixels holds exactly the coordinates inside the
/// raster whose pixel matches no dictionary entry.
pub proof fn lemma_unmatched_pixels(dict: TileDictionary, raster: RasterModel)
    requires
        raster.wf(),
    ensures
        forall|k: int|
            0 <= k < unmatched_pixels(dict, raster).len() ==> is_unmatched(
                dict,
                raster,
                #[trigger] unmatched_pixels(dict, raster)[k],
            ) && raster.contains(
                unmatched_pixels(dict, raster)[k].0 as int,
                unmatched_pixels(dict, raster)[k].1 as int,
            ),
        forall|x: u32, y: u32|
            raster.contains(x as int, y as int) && #[trigger] is_unmatched(dict, raster, (x, y))
                ==> unmatched_pixels(dict, raster).contains((x, y)),
        all_matched(dict, raster) <==> unmatched_pixels(dict, raster).len() == 0,
{
    let order = scan_order(raster.width, raster.height);
    let pred = unmatched_in(dict, raster);
    let kept = order.filter(pred);
    assert forall|k: int| 0 <= k < kept.len() implies is_unmatched(dict, raster, #[trigger] kept[k])
        && raster.contains(kept[k].0 as int, kept[k].1 as int) by {
        order.lemma_filter_contains_rev(pred, kept[k]);
        let i = choose|i: int| 0 <= i < order.len() && order[i] == kept[k];
        lemma_scan_position(raster.width, raster.height, i);
    }
    assert forall|x: u32, y: u32|
        raster.contains(x as int, y as int) && #[trigger] is_unmatched(
            dict,
            raster,
            (x, y),
        ) implies kept.contains((x, y)) by {
        lemma_scan_index(raster.width, raster.height, x as int, y as int);
        let i = y * raster.width + x;
        order.lemma_filter_contains(pred, i);
    }
    if kept.len() == 0 {
        assert forall|x: int, y: int| raster.contains(x, y) implies dict.spec_match_color(
            #[trigger] raster.pixel(x, y),
        ) is Some by {
            assert(!is_unmatched(dict, raster, (x as u32, y as u32)));
        }
    } else {
        assert(is_unmatched(dict, raster, kept[0]));
    }
}

/// Where a pixel has the colour of a dictionary entry, the cell of a built
/// grid at the pixel's coordinate resolves back to that entry.
pub proof fn lemma_build_resolves(
    builder: MapBuilder,
    dict: TileDictionary,
    raster: RasterModel,
    grid: GridModel,
    x: int,
    y: int,
    k: int,
)
    requires
        dict.wf(),
        builder.classifies(dict, raster, grid),
        grid.contains(x, y),
        0 <= k < dict@.len(),
        raster.pixel(x, y) == dict@[k].color,
    ensures
        grid.cells[x][y] == k,
        dict@[grid.cells[x][y] as int] == dict@[k],
{
    lemma_match_finds_entry(dict, k);
}

/// A grid of the given size with every cell set to index 0.
fn blank_cells(width: u32, height: u32) -> (cells: Vec<Vec<usize>>)
    ensures
        cells@.len() == width,
        forall|x: int| 0 <= x < width ==> (#[trigger] cells@[x])@.len() == height,
        forall|x: int, y: int| 0 <= x < width && 0 <= y < height ==> (#[trigger] cells@[x]@[y]) == 0,
{
    let mut cells: Vec<Vec<usize>> = Vec::new();
    let mut x: u32 = 0;
    while x < width
        invariant
            x <= width,
            cells@.len() == x,
            forall|k: int| 0 <= k < x ==> (#[trigger] cells@[k])@.len() == height,
            forall|k: int, y: int| 0 <= k < x && 0 <= y < height ==> (#[trigger] cells@[k]@[y]) == 0,
        decreases width - x,
    {
        let mut row: Vec<usize> = Vec::new();
        let mut y: u32 = 0;
        while y < height
            invariant
                y <= height,
                row@.len() == y,
                forall|k: int| 0 <= k < y ==> row@[k] == 0,
            decreases height - y,
        {
            row.push(0);
            y += 1;
        }
        cells.push(row);
        x += 1;
    }
    cells
}

/// Filtering a sequence extended by one element keeps that element exactly
/// when it satisfies the predicate.
proof fn lemma_filter_push<A>(s: Seq<A>, a: A, pred: spec_fn(A) -> bool)
    ensures
        s.push(a).filter(pred) == (if pred(a) {
            s.filter(pred).push(a)
        } else {
            s.filter(pred)
        }),
{
    reveal(Seq::filter);
    assert(s.push(a).drop_last() =~= s);
}

/// The first element that satisfies the predicate is the first element of
/// the filtered sequence.
proof fn lemma_filter_first<A>(s: Seq<A>, i: int, pred: spec_fn(A) -> bool)
    requires
        0 <= i < s.len(),
        pred(s[i]),
        s.take(i).filter(pred).len() == 0,
    ensures
        s.filter(pred).len() > 0,
        s.filter(pred)[0] == s[i],
{
    let head = s.take(i);
    let tail = s.skip(i + 1);
    assert(s =~= head + (seq![s[i]] + tail));
    tail.lemma_filter_prepend(s[i], pred);
}

} // verus!
