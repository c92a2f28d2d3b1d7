//! The classified grid that a map build produces.

use vstd::prelude::*;
use crate::tile::TILE_COUNT;

verus! {

/// What a grid is, mathematically: its size, the tile index of every cell,
/// and the coordinates whose colour was in no dictionary entry, in scan
/// order.
///
/// A grid is indexed like the raster it was built from: `cells[x][y]` is the
/// cell of the pixel in column `x` of row `y`. The rows of the grid are the
/// sequences `cells[x]`, so there are `width` rows of `height` cells.
pub ghost struct GridModel {
    pub width: nat,
    pub height: nat,
    pub cells: Seq<Seq<usize>>,
    pub unmatched: Seq<(u32, u32)>,
}

impl GridModel {
    /// Whether `(x, y)` lies inside the grid.
    pub open spec fn contains(self, x: int, y: int) -> bool {
        0 <= x < self.width && 0 <= y < self.height
    }

    /// Validity of a grid: `width` rows of `height` cells, every cell an
    /// index into the dictionary, every recorded coordinate inside the grid.
    pub open spec fn wf(self) -> bool {
        &&& self.cells.len() == self.width
        &&& forall|x: int| 0 <= x < self.width ==> (#[trigger] self.cells[x]).len() == self.height
        &&& forall|x: int, y: int|
            self.contains(x, y) ==> (#[trigger] self.cells[x][y]) < TILE_COUNT
        &&& forall|k: int|
            0 <= k < self.unmatched.len() ==> self.contains(
                (#[trigger] self.unmatched[k]).0 as int,
                self.unmatched[k].1 as int,
            )
    }
}

/// A fully populated grid of tile indices. It is made by
/// [`MapBuilder::build`](crate::builder::MapBuilder::build) and only read
/// afterwards.
#[derive(Debug)]
pub struct MapGrid {
    width: u32,
    height: u32,
    cells: Vec<Vec<usize>>,
    unmatched: Vec<(u32, u32)>,
}

impl View for MapGrid {
    type V = GridModel;

    closed spec fn view(&self) -> GridModel {
        GridModel {
            width: self.width as nat,
            height: self.height as nat,
            cells: Seq::new(self.cells@.len(), |x: int| self.cells@[x]@),
            unmatched: self.unmatched@,
        }
    }
}

impl MapGrid {
    /// Validity of a grid; it holds of every `MapGrid`.
    #[verifier::type_invariant]
    pub open spec fn wf(&self) -> bool {
        self@.wf()
    }

    /// Puts a grid together from its parts.
    pub(crate) fn assemble(
        width: u32,
        height: u32,
        cells: Vec<Vec<usize>>,
        unmatched: Vec<(u32, u32)>,
    ) -> (grid: MapGrid)
        requires
            cells@.len() == width,
            forall|x: int| 0 <= x < width ==> (#[trigger] cells@[x])@.len() == height,
            forall|x: int, y: int|
                0 <= x < width && 0 <= y < height ==> (#[trigger] cells@[x]@[y]) < TILE_COUNT,
            forall|k: int|
                0 <= k < unmatched@.len() ==> (#[trigger] unmatched@[k]).0 < width
                    && unmatched@[k].1 < height,
        ensures
            grid.wf(),
            grid@.width == width,
            grid@.height == height,
            grid@.cells.len() == width,
            forall|x: int| 0 <= x < width ==> #[trigger] grid@.cells[x] == cells@[x]@,
            grid@.unmatched == unmatched@,
    {
        MapGrid { width, height, cells, unmatched }
    }

    /// Number of rows: the width of the raster that the grid was built from.
    pub fn width(&self) -> (w: u32)
        ensures
            w == self@.width,
    {
        self.width
    }

    /// Number of cells in each row: the height of that raster.
    pub fn height(&self) -> (h: u32)
        ensures
            h == self@.height,
    {
        self.height
    }

    /// The tile index stored for the pixel `(x, y)`, or `None` outside the
    /// grid.
    pub fn get(&self, x: u32, y: u32) -> (cell: Option<usize>)
        ensures
            cell == (if self@.contains(x as int, y as int) {
                Some(self@.cells[x as int][y as int])
            } else {
                None
            }),
            cell matches Some(index) ==> index < TILE_COUNT,
    {
        proof {
            use_type_invariant(self);
        }
        if x < self.width && y < self.height {
            assert(self@.cells[x as int] == self.cells@[x as int]@);
            Some(self.cells[x as usize][y as usize])
        } else {
            None
        }
    }

    /// The coordinates whose colour matched no dictionary entry, in scan
    /// order.
    pub fn unmatched(&self) -> (list: &Vec<(u32, u32)>)
        ensures
            list@ == self@.unmatched,
    {
        &self.unmatched
    }
}

} // verus!
