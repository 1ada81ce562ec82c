use vstd::prelude::*;

use crate::engine::World;
use crate::grid::{Cell, COL, ROW};

verus! {

/// The three-character token of one cell.
pub open spec fn token(status: bool) -> Seq<char> {
    if status {
        seq![' ', '0', ' ']
    } else {
        seq![' ', '.', ' ']
    }
}

/// The tokens of a sequence of cells, in order.
pub open spec fn row_text(cells: Seq<Cell>) -> Seq<char>
    decreases cells.len(),
{
    if cells.len() == 0 {
        Seq::empty()
    } else {
        row_text(cells.drop_last()) + token(cells.last().status)
    }
}

/// One line per row: the row's tokens followed by a line break.
pub open spec fn grid_text(rows: Seq<[Cell; COL]>) -> Seq<char>
    decreases rows.len(),
{
    if rows.len() == 0 {
        Seq::empty()
    } else {
        grid_text(rows.drop_last()) + row_text(rows.last()@) + seq!['\n']
    }
}

/// The text of the whole world.
pub open spec fn world_text(w: World) -> Seq<char> {
    grid_text(w@)
}

/// Renders the world as text, one line per row and one token per cell:
/// `" 0 "` for a live cell and `" . "` for a dead one.
pub fn render(world: &World) -> (text: String)
    ensures
        text@ == world_text(*world),
{
    let mut text = String::new();
    let mut i: usize = 0;
    while i < ROW
        invariant
            i <= ROW,
            text@ == grid_text(world@.take(i as int)),
        decreases ROW - i,
    {
        let row = world[i];
        let mut j: usize = 0;
        let ghost start = text@;
        while j < COL
            invariant
                i < ROW,
                j <= COL,
                row == world@[i as int],
                start == grid_text(world@.take(i as int)),
                text@ == start + row_text(row@.take(j as int)),
            decreases COL - j,
        {
            let ghost before = text@;
            if row[j].status {
                text.append(" 0 ");
                proof {
                    reveal_strlit(" 0 ");
                }
            } else {
                text.append(" . ");
                proof {
                    reveal_strlit(" . ");
                }
            }
            proof {
                assert(row@.take(j + 1).drop_last() =~= row@.take(j as int));
                assert(text@ =~= start + row_text(row@.take(j + 1)));
            }
            j = j + 1;
        }
        text.append("\n");
        proof {
            reveal_strlit("\n");
            assert(row@.take(COL as int) =~= row@);
            assert(world@.take(i + 1).drop_last() =~= world@.take(i as int));
            assert(text@ =~= grid_text(world@.take(i + 1)));
        }
        i = i + 1;
    }
    assert(world@.take(ROW as int) =~= world@);
    text
}

} // verus!
