use vstd::prelude::*;

verus! {

/// Number of rows of the grid.
pub const ROW: usize = 9;

/// Number of columns of the grid.
pub const COL: usize = 9;

/// A (row, column) pair: an address in the grid or an offset between cells.
#[derive(Clone, Copy, Debug, PartialEq, Eq, Structural)]
pub struct Position(pub i32, pub i32);

/// One grid unit: its life status and its own fixed coordinate.
#[derive(Clone, Copy, Debug, PartialEq, Eq, Structural)]
pub struct Cell {
    pub status: bool,
    pub position: Position,
}

/// The eight compass directions, in the order in which they are visited.
#[derive(Clone, Copy, Debug, PartialEq, Eq, Structural)]
pub enum Direction {
    Up,
    UpRight,
    Right,
    DownRight,
    Down,
    DownLeft,
    Left,
    LeftUp,
}

/// Row offset of a direction.
pub open spec fn d_row(d: Direction) -> int {
    match d {
        Direction::Up | Direction::UpRight | Direction::LeftUp => -1,
        Direction::Right | Direction::Left => 0,
        Direction::DownRight | Direction::Down | Direction::DownLeft => 1,
    }
}

/// Column offset of a direction.
pub open spec fn d_col(d: Direction) -> int {
    match d {
        Direction::Up | Direction::Down => 0,
        Direction::UpRight | Direction::Right | Direction::DownRight => 1,
        Direction::DownLeft | Direction::Left | Direction::LeftUp => -1,
    }
}

/// All eight directions, in visiting order.
pub open spec fn directions() -> Seq<Direction> {
    seq![
        Direction::Up,
        Direction::UpRight,
        Direction::Right,
        Direction::DownRight,
        Direction::Down,
        Direction::DownLeft,
        Direction::Left,
        Direction::LeftUp,
    ]
}

impl Direction {
    /// All eight directions, in visiting order.
    pub fn values() -> (r: [Direction; 8])
        ensures
            r@ == directions(),
    {
        let r = [
            Direction::Up,
            Direction::UpRight,
            Direction::Right,
            Direction::DownRight,
            Direction::Down,
            Direction::DownLeft,
            Direction::Left,
            Direction::LeftUp,
        ];
        assert(r@ =~= directions());
        r
    }
}

/// True when (r, c) addresses a cell of the grid.
pub open spec fn in_grid(r: int, c: int) -> bool {
    0 <= r < ROW && 0 <= c < COL
}

/// The address that the wrap rule resolves `candidate` to, seen from `origin`:
/// an off-grid candidate falls back to the origin itself.
pub open spec fn resolve(origin: Position, candidate: Position) -> Position {
    if in_grid(candidate.0 as int, candidate.1 as int) {
        candidate
    } else {
        origin
    }
}

impl Cell {
    /// The raw (possibly off-grid) address of this cell's neighbour in `direction`.
    pub fn get_neighboring_coordinate(&self, direction: Direction) -> (r: Position)
        requires
            i32::MIN < self.position.0 < i32::MAX,
            i32::MIN < self.position.1 < i32::MAX,
        ensures
            r.0 == self.position.0 + d_row(direction),
            r.1 == self.position.1 + d_col(direction),
    {
        match direction {
            Direction::Up => Position(self.position.0 - 1, self.position.1),
            Direction::UpRight => Position(self.position.0 - 1, self.position.1 + 1),
            Direction::Right => Position(self.position.0, self.position.1 + 1),
            Direction::DownRight => Position(self.position.0 + 1, self.position.1 + 1),
            Direction::Down => Position(self.position.0 + 1, self.position.1),
            Direction::DownLeft => Position(self.position.0 + 1, self.position.1 - 1),
            Direction::Left => Position(self.position.0, self.position.1 - 1),
            Direction::LeftUp => Position(self.position.0 - 1, self.position.1 - 1),
        }
    }
}

/// Resolves a candidate neighbour address to an in-grid address: a candidate
/// whose row or column falls off the grid is replaced by `origin_position`.
pub fn get_valid_position(origin_position: Position, position: Position) -> (r: Position)
    ensures
        r == resolve(origin_position, position),
{
    let mut x_pos = position.1;
    let mut y_pos = position.0;
    if position.0 < 0 || position.0 >= ROW as i32 {
        y_pos = origin_position.0;
        x_pos = origin_position.1;
    } else if position.1 < 0 || position.1 >= COL as i32 {
        x_pos = origin_position.1;
        y_pos = origin_position.0;
    }
    Position(y_pos, x_pos)
}

} // verus!
