use game_of_life::{
    get_valid_position, neighbor_count, new_world, render, seed_world, set_status, step, Cell,
    Direction, Position, World, COL, ROW,
};

fn live_cells(w: &World) -> Vec<(usize, usize)> {
    let mut v = Vec::new();
    for r in 0..ROW {
        for c in 0..COL {
            if w[r][c].status {
                v.push((r, c));
            }
        }
    }
    v
}

fn world_with(cells: &[(usize, usize)]) -> World {
    let mut w = new_world();
    for &(r, c) in cells {
        set_status(&mut w, r, c, true);
    }
    w
}

#[test]
fn new_world_is_dead_and_positioned() {
    let w = new_world();
    for r in 0..ROW {
        for c in 0..COL {
            assert!(!w[r][c].status);
            assert_eq!(w[r][c].position, Position(r as i32, c as i32));
        }
    }
}

#[test]
fn seed_world_has_seven_cells() {
    let w = seed_world();
    assert_eq!(
        live_cells(&w),
        vec![(0, 1), (1, 1), (1, 2), (2, 1), (3, 4), (3, 5), (4, 5)]
    );
}

#[test]
fn set_status_touches_one_cell() {
    let mut w = new_world();
    set_status(&mut w, 4, 7, true);
    assert_eq!(live_cells(&w), vec![(4, 7)]);
    assert_eq!(w[4][7].position, Position(4, 7));
    set_status(&mut w, 4, 7, false);
    assert!(live_cells(&w).is_empty());
}

#[test]
fn directions_in_visiting_order() {
    assert_eq!(
        Direction::values(),
        [
            Direction::Up,
            Direction::UpRight,
            Direction::Right,
            Direction::DownRight,
            Direction::Down,
            Direction::DownLeft,
            Direction::Left,
            Direction::LeftUp,
        ]
    );
}

#[test]
fn neighboring_coordinates() {
    let cell = Cell { status: true, position: Position(4, 6) };
    let expected = [
        (Direction::Up, Position(3, 6)),
        (Direction::UpRight, Position(3, 7)),
        (Direction::Right, Position(4, 7)),
        (Direction::DownRight, Position(5, 7)),
        (Direction::Down, Position(5, 6)),
        (Direction::DownLeft, Position(5, 5)),
        (Direction::Left, Position(4, 5)),
        (Direction::LeftUp, Position(3, 5)),
    ];
    for (d, p) in expected {
        assert_eq!(cell.get_neighboring_coordinate(d), p);
    }
    let corner = Cell { status: false, position: Position(0, 0) };
    assert_eq!(corner.get_neighboring_coordinate(Direction::LeftUp), Position(-1, -1));
}

#[test]
fn valid_position_passes_in_grid_candidates_unchanged() {
    assert_eq!(get_valid_position(Position(2, 4), Position(3, 5)), Position(3, 5));
    assert_eq!(get_valid_position(Position(1, 7), Position(2, 8)), Position(2, 8));
    assert_eq!(get_valid_position(Position(0, 0), Position(0, 1)), Position(0, 1));
}

#[test]
fn valid_position_falls_back_to_origin() {
    assert_eq!(get_valid_position(Position(0, 3), Position(-1, 3)), Position(0, 3));
    assert_eq!(get_valid_position(Position(8, 2), Position(9, 1)), Position(8, 2));
    assert_eq!(get_valid_position(Position(4, 0), Position(4, -1)), Position(4, 0));
    assert_eq!(get_valid_position(Position(5, 8), Position(6, 9)), Position(5, 8));
    assert_eq!(get_valid_position(Position(0, 8), Position(-1, 9)), Position(0, 8));
}

#[test]
fn neighbor_count_of_full_grid() {
    let mut w = new_world();
    for r in 0..ROW {
        for c in 0..COL {
            set_status(&mut w, r, c, true);
        }
    }
    assert_eq!(neighbor_count(&w, 4, 4), 8);
    assert_eq!(neighbor_count(&w, 0, 0), 3);
    assert_eq!(neighbor_count(&w, 8, 8), 3);
    assert_eq!(neighbor_count(&w, 0, 4), 5);
    assert_eq!(neighbor_count(&w, 4, 8), 5);
    for r in 0..ROW {
        for c in 0..COL {
            assert!(neighbor_count(&w, r, c) <= 8);
        }
    }
}

#[test]
fn row_zero_cell_does_not_count_itself() {
    let w = world_with(&[(0, 4)]);
    assert_eq!(neighbor_count(&w, 0, 4), 0);
    let w = world_with(&[(0, 4), (0, 5), (1, 3)]);
    assert_eq!(neighbor_count(&w, 0, 4), 2);
    let w = world_with(&[(0, 0)]);
    assert_eq!(neighbor_count(&w, 0, 0), 0);
}

#[test]
fn lone_cell_dies_and_grid_stays_empty() {
    let mut w = world_with(&[(4, 4)]);
    step(&mut w);
    assert!(live_cells(&w).is_empty());
    for _ in 0..5 {
        step(&mut w);
        assert!(live_cells(&w).is_empty());
    }
}

#[test]
fn lone_corner_cell_dies() {
    let mut w = world_with(&[(0, 0)]);
    step(&mut w);
    assert!(live_cells(&w).is_empty());
}

#[test]
fn block_is_still_life() {
    let cells = [(3, 3), (3, 4), (4, 3), (4, 4)];
    let mut w = world_with(&cells);
    for _ in 0..10 {
        step(&mut w);
        assert_eq!(live_cells(&w), cells.to_vec());
    }
}

#[test]
fn block_in_corner_is_still_life() {
    let cells = [(7, 7), (7, 8), (8, 7), (8, 8)];
    let mut w = world_with(&cells);
    for _ in 0..4 {
        step(&mut w);
        assert_eq!(live_cells(&w), cells.to_vec());
    }
}

#[test]
fn blinker_oscillates() {
    let horizontal = [(4, 3), (4, 4), (4, 5)];
    let vertical = [(3, 4), (4, 4), (5, 4)];
    let mut w = world_with(&horizontal);
    step(&mut w);
    assert_eq!(live_cells(&w), vertical.to_vec());
    step(&mut w);
    assert_eq!(live_cells(&w), horizontal.to_vec());
}

#[test]
fn birth_needs_exactly_three() {
    let mut w = world_with(&[(2, 2), (2, 4), (4, 3)]);
    step(&mut w);
    assert!(w[3][3].status);
    let mut w = world_with(&[(2, 2), (2, 4)]);
    step(&mut w);
    assert!(!w[3][3].status);
}

#[test]
fn overcrowded_cell_dies() {
    let mut w = world_with(&[(4, 4), (3, 4), (5, 4), (4, 3), (4, 5)]);
    step(&mut w);
    assert!(!w[4][4].status);
}

#[test]
fn seed_cell_one_one_survives_first_step() {
    let mut w = seed_world();
    assert_eq!(neighbor_count(&w, 1, 1), 3);
    step(&mut w);
    assert!(w[1][1].status);
}

#[test]
fn seed_first_two_generations() {
    let mut w = seed_world();
    step(&mut w);
    assert_eq!(
        live_cells(&w),
        vec![(0, 1), (0, 2), (1, 0), (1, 1), (1, 2), (2, 1), (2, 2), (3, 4), (3, 5), (4, 4), (4, 5)]
    );
    step(&mut w);
    assert_eq!(
        live_cells(&w),
        vec![(0, 0), (0, 2), (1, 0), (1, 3), (2, 0), (2, 2), (2, 3), (3, 3), (3, 4), (3, 5), (4, 4), (4, 5)]
    );
}

#[test]
fn step_keeps_positions() {
    let mut w = seed_world();
    for _ in 0..3 {
        step(&mut w);
    }
    for r in 0..ROW {
        for c in 0..COL {
            assert_eq!(w[r][c].position, Position(r as i32, c as i32));
        }
    }
}

#[test]
fn render_empty_world() {
    let w = new_world();
    let line = " . ".repeat(COL) + "\n";
    assert_eq!(render(&w), line.repeat(ROW));
}

#[test]
fn render_seed_world() {
    let text = render(&seed_world());
    let lines: Vec<&str> = text.lines().collect();
    assert_eq!(lines.len(), ROW);
    assert_eq!(lines[0], " .  0  .  .  .  .  .  .  . ");
    assert_eq!(lines[1], " .  0  0  .  .  .  .  .  . ");
    assert_eq!(lines[2], " .  0  .  .  .  .  .  .  . ");
    assert_eq!(lines[3], " .  .  .  .  0  0  .  .  . ");
    assert_eq!(lines[4], " .  .  .  .  .  0  .  .  . ");
    assert_eq!(lines[8], " .  .  .  .  .  .  .  .  . ");
    assert!(text.ends_with('\n'));
}

#[test]
fn render_is_repeatable_and_leaves_world_alone() {
    let w = seed_world();
    let before = w;
    let a = render(&w);
    let b = render(&w);
    assert_eq!(a.as_bytes(), b.as_bytes());
    assert_eq!(w, before);
    let copy = seed_world();
    assert_eq!(render(&copy), a);
}
