//! A Sudoku puzzle engine: a puzzle and its solution, validation of a
//! player's grid against the solution, and single-cell hints.

pub mod codec;
pub mod solver;
pub mod engine;

pub use codec::{convert_from_2d_array, convert_to_2d_array, Grid};
pub use engine::{Sudoku, SudokuError};
pub use solver::{Deduction, SolveStrategy};
