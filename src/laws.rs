use vstd::prelude::*;

use crate::engine::{
    alive, cell_at, is_empty, is_next, live_among, live_neighbors, next_status, World,
};
use crate::grid::{directions, in_grid, resolve, Cell, Position, COL, ROW};
use crate::render::{grid_text, row_text, world_text};

verus! {

/// Indicator of a live cell at (r, c).
spec fn live_at(w: World, r: int, c: int) -> nat {
    if alive(w, r, c) {
        1
    } else {
        0
    }
}

/// The neighbour count written out as a sum over the eight surrounding cells.
proof fn lemma_live_neighbors_sum(w: World, r: int, c: int)
    ensures
        live_neighbors(w, r, c) == live_at(w, r - 1, c) + live_at(w, r - 1, c + 1) + live_at(
            w,
            r,
            c + 1,
        ) + live_at(w, r + 1, c + 1) + live_at(w, r + 1, c) + live_at(w, r + 1, c - 1) + live_at(
            w,
            r,
            c - 1,
        ) + live_at(w, r - 1, c - 1),
{
    let ds = directions();
    assert(ds.drop_last() =~= ds.take(7));
    assert(ds.take(7).drop_last() =~= ds.take(6));
    assert(ds.take(6).drop_last() =~= ds.take(5));
    assert(ds.take(5).drop_last() =~= ds.take(4));
    assert(ds.take(4).drop_last() =~= ds.take(3));
    assert(ds.take(3).drop_last() =~= ds.take(2));
    assert(ds.take(2).drop_last() =~= ds.take(1));
    assert(ds.take(1).drop_last() =~= ds.take(0));
    reveal_with_fuel(live_among, 9);
}

/// A cell has between zero and eight live neighbours.
pub proof fn lemma_neighbor_count_bounded(w: World, r: int, c: int)
    ensures
        0 <= live_neighbors(w, r, c) <= 8,
{
    lemma_live_neighbors_sum(w, r, c);
}

/// A cell never counts itself: its neighbour count does not depend on its own
/// status. In particular, a neighbour that falls off the grid (as the one above
/// a cell of row 0) resolves to the cell itself and adds nothing to its tally.
pub proof fn lemma_own_status_not_counted(w1: World, w2: World, r: int, c: int)
    requires
        in_grid(r, c),
        forall|r2: int, c2: int|
            #![trigger cell_at(w2, r2, c2)]
            in_grid(r2, c2) && !(r2 == r && c2 == c) ==> cell_at(w1, r2, c2).status == cell_at(
                w2,
                r2,
                c2,
            ).status,
    ensures
        live_neighbors(w1, r, c) == live_neighbors(w2, r, c),
        r == 0 ==> resolve(Position(r as i32, c as i32), Position(-1i32, c as i32)) == Position(
            r as i32,
            c as i32,
        ),
{
    lemma_live_neighbors_sum(w1, r, c);
    lemma_live_neighbors_sum(w2, r, c);
    assert(cell_at(w2, r - 1, c) == cell_at(w2, r - 1, c));
    assert(cell_at(w2, r - 1, c + 1) == cell_at(w2, r - 1, c + 1));
    assert(cell_at(w2, r, c + 1) == cell_at(w2, r, c + 1));
    assert(cell_at(w2, r + 1, c + 1) == cell_at(w2, r + 1, c + 1));
    assert(cell_at(w2, r + 1, c) == cell_at(w2, r + 1, c));
    assert(cell_at(w2, r + 1, c - 1) == cell_at(w2, r + 1, c - 1));
    assert(cell_at(w2, r, c - 1) == cell_at(w2, r, c - 1));
    assert(cell_at(w2, r - 1, c - 1) == cell_at(w2, r - 1, c - 1));
}

/// Each world of `ws` is the generation after the one before it.
pub open spec fn is_run(ws: Seq<World>) -> bool {
    forall|k: int| #![trigger ws[k + 1]] 0 <= k < ws.len() - 1 ==> is_next(ws[k], ws[k + 1])
}

/// The cells of `w` that are alive are exactly the 2×2 square whose top-left
/// corner is (r0, c0).
pub open spec fn is_block(w: World, r0: int, c0: int) -> bool {
    forall|r: int, c: int|
        #![trigger cell_at(w, r, c)]
        in_grid(r, c) ==> (cell_at(w, r, c).status <==> (r0 <= r <= r0 + 1 && c0 <= c <= c0 + 1))
}

/// A lone live cell dies of underpopulation, and nothing is born: the next
/// generation is empty.
pub proof fn lemma_lone_cell_dies(w1: World, w2: World, r0: int, c0: int)
    requires
        in_grid(r0, c0),
        forall|r: int, c: int|
            #![trigger cell_at(w1, r, c)]
            in_grid(r, c) ==> (cell_at(w1, r, c).status <==> (r == r0 && c == c0)),
        is_next(w1, w2),
    ensures
        is_empty(w2),
{
    assert forall|r: int, c: int| in_grid(r, c) implies !(#[trigger] cell_at(w2, r, c)).status by {
        lemma_live_neighbors_sum(w1, r, c);
        assert(live_neighbors(w1, r, c) <= 1);
    }
}

/// The empty world is a fixed point: it stays empty in every later generation.
pub proof fn lemma_empty_stays_empty(ws: Seq<World>)
    requires
        ws.len() > 0,
        is_empty(ws[0]),
        is_run(ws),
    ensures
        forall|k: int| 0 <= k < ws.len() ==> is_empty(#[trigger] ws[k]),
    decreases ws.len(),
{
    if ws.len() > 1 {
        let prefix = ws.drop_last();
        assert forall|k: int| #![trigger prefix[k + 1]] 0 <= k < prefix.len() - 1 implies is_next(
            prefix[k],
            prefix[k + 1],
        ) by {
            assert(ws[k + 1] == prefix[k + 1]);
        }
        lemma_empty_stays_empty(prefix);
        let k = ws.len() - 2;
        let w1 = ws[k];
        let w2 = ws[k + 1];
        assert(prefix[k] == w1);
        assert forall|r: int, c: int| in_grid(r, c) implies !(#[trigger] cell_at(w2, r, c)).status by {
            lemma_live_neighbors_sum(w1, r, c);
            assert(live_neighbors(w1, r, c) == 0);
        }
        assert forall|k2: int| 0 <= k2 < ws.len() implies is_empty(#[trigger] ws[k2]) by {
            if k2 < ws.len() - 1 {
                assert(ws[k2] == prefix[k2]);
            }
        }
    }
}

/// One generation leaves a 2×2 block unchanged, wherever it stands on the grid.
proof fn lemma_block_step(w1: World, w2: World, r0: int, c0: int)
    requires
        0 <= r0 && r0 + 1 < ROW,
        0 <= c0 && c0 + 1 < COL,
        is_block(w1, r0, c0),
        is_next(w1, w2),
    ensures
        forall|r: int, c: int|
            #![trigger cell_at(w2, r, c)]
            in_grid(r, c) ==> cell_at(w2, r, c) == cell_at(w1, r, c),
{
    assert forall|r: int, c: int| in_grid(r, c) implies #[trigger] cell_at(w2, r, c) == cell_at(
        w1,
        r,
        c,
    ) by {
        lemma_live_neighbors_sum(w1, r, c);
        assert(next_status(w1, r, c) == cell_at(w1, r, c).status);
    }
}

/// The block is a still life: a 2×2 square of live cells, with every other
/// cell dead, is the same in every later generation.
pub proof fn lemma_block_is_still_life(ws: Seq<World>, r0: int, c0: int)
    requires
        0 <= r0 && r0 + 1 < ROW,
        0 <= c0 && c0 + 1 < COL,
        ws.len() > 0,
        is_block(ws[0], r0, c0),
        is_run(ws),
    ensures
        forall|k: int, r: int, c: int|
            0 <= k < ws.len() && in_grid(r, c) ==> #[trigger] cell_at(ws[k], r, c) == cell_at(
                ws[0],
                r,
                c,
            ),
    decreases ws.len(),
{
    if ws.len() > 1 {
        let prefix = ws.drop_last();
        assert forall|k: int| #![trigger prefix[k + 1]] 0 <= k < prefix.len() - 1 implies is_next(
            prefix[k],
            prefix[k + 1],
        ) by {
            assert(ws[k + 1] == prefix[k + 1]);
        }
        lemma_block_is_still_life(prefix, r0, c0);
        let k = ws.len() - 2;
        assert(prefix[k] == ws[k]);
        assert(prefix[0] == ws[0]);
        assert(is_block(ws[k], r0, c0)) by {
            assert forall|r: int, c: int| in_grid(r, c) implies (#[trigger] cell_at(
                ws[k],
                r,
                c,
            ).status <==> (r0 <= r <= r0 + 1 && c0 <= c <= c0 + 1)) by {
                assert(cell_at(prefix[k], r, c) == cell_at(prefix[0], r, c));
            }
        }
        lemma_block_step(ws[k], ws[k + 1], r0, c0);
        assert forall|k2: int, r: int, c: int|
            0 <= k2 < ws.len() && in_grid(r, c) implies #[trigger] cell_at(ws[k2], r, c) == cell_at(
            ws[0],
            r,
            c,
        ) by {
            if k2 < ws.len() - 1 {
                assert(ws[k2] == prefix[k2]);
            } else {
                assert(cell_at(prefix[k], r, c) == cell_at(prefix[0], r, c));
            }
        }
    }
}

proof fn lemma_row_text_by_status(a: Seq<Cell>, b: Seq<Cell>)
    requires
        a.len() == b.len(),
        forall|c: int| 0 <= c < a.len() ==> (#[trigger] a[c]).status == b[c].status,
    ensures
        row_text(a) == row_text(b),
    decreases a.len(),
{
    if a.len() > 0 {
        lemma_row_text_by_status(a.drop_last(), b.drop_last());
    }
}

proof fn lemma_grid_text_by_status(a: Seq<[Cell; COL]>, b: Seq<[Cell; COL]>)
    requires
        a.len() == b.len(),
        forall|r: int, c: int|
            0 <= r < a.len() && 0 <= c < COL ==> (#[trigger] a[r]@[c]).status
                == b[r]@[c].status,
    ensures
        grid_text(a) == grid_text(b),
    decreases a.len(),
{
    if a.len() > 0 {
        let (a1, b1) = (a.drop_last(), b.drop_last());
        assert forall|r: int, c: int|
            0 <= r < a1.len() && 0 <= c < COL implies (#[trigger] a1[r]@[c]).status
            == b1[r]@[c].status by {
            assert(a1[r] == a[r] && b1[r] == b[r]);
        }
        lemma_grid_text_by_status(a1, b1);
        let n = a.len() - 1;
        assert forall|c: int| 0 <= c < a.last()@.len() implies (#[trigger] a.last()@[c]).status
            == b.last()@[c].status by {
            assert(a[n]@[c].status == b[n]@[c].status);
        }
        lemma_row_text_by_status(a.last()@, b.last()@);
    }
}

/// Rendering is a function of the cells' statuses alone: two worlds whose
/// cells have the same statuses render to the same text.
pub proof fn lemma_render_depends_on_status(w1: World, w2: World)
    requires
        forall|r: int, c: int|
            #![trigger cell_at(w2, r, c)]
            in_grid(r, c) ==> cell_at(w1, r, c).status == cell_at(w2, r, c).status,
    ensures
        world_text(w1) == world_text(w2),
{
    assert forall|r: int, c: int|
        0 <= r < w1@.len() && 0 <= c < COL implies (#[trigger] w1@[r]@[c]).status
        == w2@[r]@[c].status by {
        assert(cell_at(w2, r, c) == w2@[r]@[c]);
    }
    lemma_grid_text_by_status(w1@, w2@);
}

} // verus!
