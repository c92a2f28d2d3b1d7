//! Rendering a grid as text, one symbol per cell.

use vstd::prelude::*;
use crate::grid::MapGrid;
use crate::tile::{TileDefinition, TileDictionary};

verus! {

/// `String::push` appends the given character to the end of the string.
pub assume_specification[ String::push ](text: &mut String, ch: char)
    ensures
        final(text)@ == old(text)@.push(ch),
;

/// The symbols of one row of tile indices, in order.
pub open spec fn row_symbols(dict: Seq<TileDefinition>, row: Seq<usize>) -> Seq<char> {
    Seq::new(row.len(), |y: int| dict[row[y] as int].symbol)
}

/// The text of a grid: for each row in order, its symbols followed by a
/// line feed.
pub open spec fn grid_text(dict: Seq<TileDefinition>, cells: Seq<Seq<usize>>) -> Seq<char>
    decreases cells.len(),
{
    if cells.len() == 0 {
        Seq::empty()
    } else {
        grid_text(dict, cells.drop_last()) + row_symbols(dict, cells.last()).push('\n')
    }
}

/// Renders a grid: each cell is resolved to the symbol of its dictionary
/// entry, and each row is ended by a line feed.
pub fn render(grid: &MapGrid, dict: &TileDictionary) -> (text: String)
    ensures
        text@ == grid_text(dict@, grid@.cells),
{
    proof {
        use_type_invariant(grid);
        use_type_invariant(dict);
    }
    let width = grid.width();
    let height = grid.height();
    let mut text = String::new();
    let mut x: u32 = 0;
    while x < width
        invariant
            x <= width,
            grid.wf(),
            dict.wf(),
            width == grid@.width,
            height == grid@.height,
            text@ == grid_text(dict@, grid@.cells.take(x as int)),
        decreases width - x,
    {
        let ghost done = text@;
        let ghost row = grid@.cells[x as int];
        let mut y: u32 = 0;
        while y < height
            invariant
                y <= height,
                x < width,
                grid.wf(),
                dict.wf(),
                width == grid@.width,
                height == grid@.height,
                row == grid@.cells[x as int],
                text@ == done + row_symbols(dict@, row).take(y as int),
            decreases height - y,
        {
            let index = grid.get(x, y).unwrap();
            let entry = dict.get(index).unwrap();
            text.push(entry.symbol);
            proof {
                let symbols = row_symbols(dict@, row);
                assert(done + symbols.take(y + 1) =~= (done + symbols.take(y as int)).push(
                    symbols[y as int],
                ));
            }
            y += 1;
        }
        text.push('\n');
        proof {
            assert(grid@.cells.take(x + 1).drop_last() =~= grid@.cells.take(x as int));
        }
        x += 1;
    }
    assert(grid@.cells.take(width as int) =~= grid@.cells);
    text
}

} // verus!
