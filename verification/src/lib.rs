//! Conway's Game of Life: a finite, edge-bounded grid of boolean cells,
//! a stepper that applies the classic rule set generation by generation,
//! and seeders that place fixed patterns or randomize the board.

pub mod grid;
pub mod render;
pub mod seeder;
pub mod stepper;
