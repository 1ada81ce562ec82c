//! Conway's Game of Life on a fixed 9×9 grid whose border behaves as if it
//! were surrounded by permanently dead cells.

pub mod engine;
pub mod grid;
pub mod laws;
pub mod render;

pub use engine::{neighbor_count, new_world, seed_world, set_status, step, World};
pub use grid::{get_valid_position, Cell, Direction, Position, COL, ROW};
pub use render::render;
