use vstd::prelude::*;

use crate::grid::{
    d_col, d_row, directions, get_valid_position, in_grid, Cell, Direction, Position, COL, ROW,
};

verus! {

/// The whole grid: `ROW` rows of `COL` cells.
pub type World = [[Cell; COL]; ROW];

/// The cell stored at (r, c).
pub open spec fn cell_at(w: World, r: int, c: int) -> Cell {
    w@[r]@[c]
}

/// Every cell's stored position equals its indices.
pub open spec fn world_wf(w: World) -> bool {
    forall|r: int, c: int|
        #![trigger cell_at(w, r, c)]
        in_grid(r, c) ==> cell_at(w, r, c).position == Position(r as i32, c as i32)
}

/// True when (r, c) is on the grid and its cell is alive; off-grid addresses
/// read as dead.
pub open spec fn alive(w: World, r: int, c: int) -> bool {
    in_grid(r, c) && cell_at(w, r, c).status
}

/// Number of live neighbours of (r, c) among the directions `ds`.
pub open spec fn live_among(w: World, r: int, c: int, ds: Seq<Direction>) -> nat
    decreases ds.len(),
{
    if ds.len() == 0 {
        0
    } else {
        let d = ds.last();
        live_among(w, r, c, ds.drop_last()) + if alive(w, r + d_row(d), c + d_col(d)) {
            1nat
        } else {
            0nat
        }
    }
}

/// Number of live cells among the eight neighbours of (r, c).
pub open spec fn live_neighbors(w: World, r: int, c: int) -> nat {
    live_among(w, r, c, directions())
}

/// The birth / survival rule: a live cell survives with two or three live
/// neighbours, a dead cell is born with exactly three.
pub open spec fn rule(status: bool, count: int) -> bool {
    if status {
        2 <= count <= 3
    } else {
        count == 3
    }
}

/// Status of (r, c) in the generation after `w`.
pub open spec fn next_status(w: World, r: int, c: int) -> bool {
    rule(cell_at(w, r, c).status, live_neighbors(w, r, c) as int)
}

/// `w2` is the generation after `w1`, with every position kept.
pub open spec fn is_next(w1: World, w2: World) -> bool {
    forall|r: int, c: int|
        #![trigger cell_at(w2, r, c)]
        in_grid(r, c) ==> cell_at(w2, r, c) == Cell {
            status: next_status(w1, r, c),
            position: cell_at(w1, r, c).position,
        }
}

proof fn lemma_live_among_bound(w: World, r: int, c: int, ds: Seq<Direction>)
    ensures
        live_among(w, r, c, ds) <= ds.len(),
    decreases ds.len(),
{
    if ds.len() > 0 {
        lemma_live_among_bound(w, r, c, ds.drop_last());
    }
}

/// Counts the live neighbours of cell (i, j), reading each neighbour through
/// the wrap rule and leaving the cell itself out of its own tally.
pub fn neighbor_count(world: &World, i: usize, j: usize) -> (n: u32)
    requires
        world_wf(*world),
        i < ROW,
        j < COL,
    ensures
        n == live_neighbors(*world, i as int, j as int),
        n <= 8,
{
    let cell = world[i][j];
    assert(cell == cell_at(*world, i as int, j as int));
    let ds = Direction::values();
    let mut n: u32 = 0;
    let mut k: usize = 0;
    while k < 8
        invariant
            k <= 8,
            ds@ == directions(),
            world_wf(*world),
            i < ROW,
            j < COL,
            cell.position == Position(i as i32, j as i32),
            n == live_among(*world, i as int, j as int, directions().take(k as int)),
        decreases 8 - k,
    {
        let d = ds[k];
        let p = get_valid_position(cell.position, cell.get_neighboring_coordinate(d));
        proof {
            assert(directions().take(k + 1).drop_last() =~= directions().take(k as int));
            lemma_live_among_bound(*world, i as int, j as int, directions().take(k as int));
        }
        if !(p.0 == i as i32 && p.1 == j as i32) {
            if world[p.0 as usize][p.1 as usize].status {
                n = n + 1;
            }
        }
        k = k + 1;
    }
    assert(directions().take(8) =~= directions());
    proof {
        lemma_live_among_bound(*world, i as int, j as int, directions());
    }
    n
}

/// Advances the world by one generation. Every neighbour count is taken from
/// the current generation; the changes are collected first and written after
/// the whole grid has been scanned.
pub fn step(world: &mut World)
    requires
        world_wf(*old(world)),
    ensures
        world_wf(*final(world)),
        is_next(*old(world), *final(world)),
{
    let ghost w0 = *world;
    let mut update_list: Vec<(Position, bool)> = Vec::new();
    for i in 0..ROW
        invariant
            *world == w0,
            world_wf(w0),
            forall|m: int|
                #![trigger update_list@[m]]
                0 <= m < update_list@.len() ==> {
                    let (p, s) = update_list@[m];
                    &&& in_grid(p.0 as int, p.1 as int)
                    &&& s == next_status(w0, p.0 as int, p.1 as int)
                },
            forall|r: int, c: int|
                #![trigger next_status(w0, r, c)]
                0 <= r < i && 0 <= c < COL && next_status(w0, r, c) != cell_at(w0, r, c).status
                    ==> exists|m: int|
                    0 <= m < update_list@.len() && #[trigger] update_list@[m].0 == Position(
                        r as i32,
                        c as i32,
                    ),
    {
        for j in 0..COL
            invariant
                0 <= i < ROW,
                *world == w0,
                world_wf(w0),
                forall|m: int|
                    #![trigger update_list@[m]]
                    0 <= m < update_list@.len() ==> {
                        let (p, s) = update_list@[m];
                        &&& in_grid(p.0 as int, p.1 as int)
                        &&& s == next_status(w0, p.0 as int, p.1 as int)
                    },
                forall|r: int, c: int|
                    #![trigger next_status(w0, r, c)]
                    (0 <= r < i && 0 <= c < COL || r == i && 0 <= c < j) && next_status(w0, r, c)
                        != cell_at(w0, r, c).status ==> exists|m: int|
                        0 <= m < update_list@.len() && #[trigger] update_list@[m].0 == Position(
                            r as i32,
                            c as i32,
                        ),
        {
            let active_neighbour_count = neighbor_count(world, i, j);
            let here = Position(i as i32, j as i32);
            let ghost before = update_list@;
            if world[i][j].status {
                if active_neighbour_count > 1 && active_neighbour_count < 4 {
                    update_list.push((here, true));
                } else if active_neighbour_count < 2 || active_neighbour_count > 3 {
                    update_list.push((here, false));
                }
            } else {
                if active_neighbour_count == 3 {
                    update_list.push((here, true));
                }
            }
            proof {
                if update_list@.len() > before.len() {
                    assert(update_list@[before.len() as int].0 == here);
                }
                assert forall|r: int, c: int|
                    (0 <= r < i && 0 <= c < COL || r == i && 0 <= c < j + 1) && #[trigger] next_status(
                        w0,
                        r,
                        c,
                    ) != cell_at(w0, r, c).status implies exists|m: int|
                    0 <= m < update_list@.len() && #[trigger] update_list@[m].0 == Position(
                        r as i32,
                        c as i32,
                    ) by {
                    if r == i && c == j {
                        assert(update_list@[before.len() as int].0 == here);
                    } else {
                        let m = choose|m: int|
                            0 <= m < before.len() && #[trigger] before[m].0 == Position(
                                r as i32,
                                c as i32,
                            );
                        assert(update_list@[m] == before[m]);
                    }
                }
            }
        }
    }
    let mut k: usize = 0;
    while k < update_list.len()
        invariant
            0 <= k <= update_list@.len(),
            world_wf(*world),
            forall|m: int|
                #![trigger update_list@[m]]
                0 <= m < update_list@.len() ==> {
                    let (p, s) = update_list@[m];
                    &&& in_grid(p.0 as int, p.1 as int)
                    &&& s == next_status(w0, p.0 as int, p.1 as int)
                },
            forall|r: int, c: int|
                #![trigger next_status(w0, r, c)]
                in_grid(r, c) && next_status(w0, r, c) != cell_at(w0, r, c).status ==> exists|
                    m: int,
                |
                    0 <= m < update_list@.len() && #[trigger] update_list@[m].0 == Position(
                        r as i32,
                        c as i32,
                    ),
            forall|r: int, c: int|
                #![trigger cell_at(*world, r, c)]
                in_grid(r, c) ==> cell_at(*world, r, c).position == cell_at(w0, r, c).position && (
                cell_at(*world, r, c).status == cell_at(w0, r, c).status || cell_at(*world, r, c).status
                    == next_status(w0, r, c)),
            forall|m: int|
                #![trigger update_list@[m]]
                0 <= m < k ==> cell_at(*world, update_list@[m].0.0 as int, update_list@[m].0.1 as int).status
                    == next_status(w0, update_list@[m].0.0 as int, update_list@[m].0.1 as int),
        decreases update_list@.len() - k,
    {
        let (update_position, new_status) = update_list[k];
        let r = update_position.0 as usize;
        let c = update_position.1 as usize;
        let ghost prev = *world;
        let mut row = world[r];
        let mut cell = row[c];
        cell.status = new_status;
        row[c] = cell;
        world[r] = row;
        proof {
            assert(world@ == prev@.update(r as int, row));
            assert(row@ == prev@[r as int]@.update(c as int, cell));
            assert(cell.position == cell_at(prev, r as int, c as int).position);
            assert(cell.status == next_status(w0, r as int, c as int));
            assert forall|r2: int, c2: int| in_grid(r2, c2) implies #[trigger] cell_at(*world, r2, c2)
                == if r2 == r && c2 == c {
                cell
            } else {
                cell_at(prev, r2, c2)
            } by {
                if r2 == r {
                    assert(cell_at(*world, r2, c2) == row@[c2]);
                }
            }
        }
        k = k + 1;
    }
    assert forall|r: int, c: int| in_grid(r, c) implies #[trigger] cell_at(*world, r, c) == Cell {
        status: next_status(w0, r, c),
        position: cell_at(w0, r, c).position,
    } by {
        if next_status(w0, r, c) != cell_at(w0, r, c).status {
            let m = choose|m: int|
                0 <= m < update_list@.len() && #[trigger] update_list@[m].0 == Position(
                    r as i32,
                    c as i32,
                );
            assert(update_list@[m].0 == Position(r as i32, c as i32));
        }
    }
}

/// No cell of the world is alive.
pub open spec fn is_empty(w: World) -> bool {
    forall|r: int, c: int| #![trigger cell_at(w, r, c)] in_grid(r, c) ==> !cell_at(w, r, c).status
}

/// The seven live cells of the starting pattern.
pub open spec fn is_seed_cell(r: int, c: int) -> bool {
    ||| r == 1 && c == 1
    ||| r == 2 && c == 1
    ||| r == 1 && c == 2
    ||| r == 0 && c == 1
    ||| r == 3 && c == 4
    ||| r == 3 && c == 5
    ||| r == 4 && c == 5
}

/// A world in which every cell is dead and knows its own position.
pub fn new_world() -> (w: World)
    ensures
        world_wf(w),
        is_empty(w),
{
    let mut w: World = [[Cell { status: false, position: Position(0, 0) }; COL]; ROW];
    for i in 0..ROW
        invariant
            forall|r: int, c: int|
                #![trigger cell_at(w, r, c)]
                in_grid(r, c) ==> !cell_at(w, r, c).status && (r < i ==> cell_at(w, r, c).position
                    == Position(r as i32, c as i32)),
    {
        let mut row = w[i];
        assert forall|c: int| 0 <= c < COL implies !(#[trigger] row@[c]).status by {
            assert(row@[c] == cell_at(w, i as int, c));
        }
        for j in 0..COL
            invariant
                0 <= i < ROW,
                forall|c: int| 0 <= c < COL ==> !(#[trigger] row@[c]).status,
                forall|c: int| 0 <= c < j ==> (#[trigger] row@[c]).position == Position(i as i32, c as i32),
        {
            row[j] = Cell { status: false, position: Position(i as i32, j as i32) };
        }
        let ghost prev = w;
        w[i] = row;
        assert forall|r: int, c: int| in_grid(r, c) implies #[trigger] cell_at(w, r, c) == if r == i {
            row@[c]
        } else {
            cell_at(prev, r, c)
        } by {}
    }
    w
}

/// Sets the status of cell (i, j), leaving every other cell as it was.
pub fn set_status(world: &mut World, i: usize, j: usize, status: bool)
    requires
        i < ROW,
        j < COL,
    ensures
        forall|r: int, c: int|
            #![trigger cell_at(*final(world), r, c)]
            in_grid(r, c) ==> cell_at(*final(world), r, c) == if r == i && c == j {
                Cell { status, position: cell_at(*old(world), r, c).position }
            } else {
                cell_at(*old(world), r, c)
            },
{
    let ghost prev = *world;
    let mut row = world[i];
    let mut cell = row[j];
    cell.status = status;
    row[j] = cell;
    world[i] = row;
    assert forall|r: int, c: int| in_grid(r, c) implies #[trigger] cell_at(*world, r, c) == if r == i
        && c == j {
        Cell { status, position: cell_at(prev, r, c).position }
    } else {
        cell_at(prev, r, c)
    } by {
        if r == i {
            assert(cell_at(*world, r, c) == row@[c]);
        }
    }
}

/// The starting world: every cell dead but the seven cells of the seed pattern.
pub fn seed_world() -> (w: World)
    ensures
        world_wf(w),
        forall|r: int, c: int|
            #![trigger cell_at(w, r, c)]
            in_grid(r, c) ==> cell_at(w, r, c).status == is_seed_cell(r, c),
{
    let mut w = new_world();
    set_status(&mut w, 1, 1, true);
    set_status(&mut w, 2, 1, true);
    set_status(&mut w, 1, 2, true);
    set_status(&mut w, 0, 1, true);
    set_status(&mut w, 3, 4, true);
    set_status(&mut w, 3, 5, true);
    set_status(&mut w, 4, 5, true);
    w
}

} // verus!
