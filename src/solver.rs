//! The calls into the `sudoku` crate: puzzle generation, solving, and the
//! strategy solver's deductions.

use vstd::prelude::*;
use sudoku::strategy::Deduction as FoundDeduction;
use sudoku::strategy::{Strategy, StrategySolver};
use sudoku::Sudoku as Puzzle;

verus! {

/// A puzzle of the `sudoku` crate, carried through unopened.
#[verifier::external_type_specification]
#[verifier::external_body]
pub struct ExPuzzle(Puzzle);

/// A solving technique that the strategy solver may be asked to apply.
#[derive(Clone, Copy, Debug, PartialEq, Eq, Structural)]
pub enum SolveStrategy {
    /// A cell with one candidate digit left.
    NakedSingles,
    /// A digit with one cell left in a row, column or box.
    HiddenSingles,
}

/// One deduction of the strategy solver: a cell forced to a digit by a naked
/// single or by a hidden single, or a deduction of another kind.
#[derive(Clone, Copy, Debug, PartialEq, Eq, Structural)]
pub enum Deduction {
    /// Row, column and digit of a cell with one candidate left.
    NakedSingle(u8, u8, u8),
    /// Row, column and digit of the one place left for a digit in a house.
    HiddenSingle(u8, u8, u8),
    Other,
}

/// The strategies used for hints, in the order they are tried.
pub open spec fn hint_strategies() -> Seq<SolveStrategy> {
    seq![SolveStrategy::NakedSingles, SolveStrategy::HiddenSingles]
}

/// A single lies on the board, at an empty cell of `cells`, and holds a digit.
pub open spec fn single_in_range(cells: Seq<u8>, d: Deduction) -> bool {
    match d {
        Deduction::NakedSingle(row, col, digit) | Deduction::HiddenSingle(row, col, digit) => {
            &&& row < 9
            &&& col < 9
            &&& 1 <= digit <= 9
            &&& cells[9 * row + col] == 0
        },
        Deduction::Other => true,
    }
}

/// The deductions of the strategy solver of the `sudoku` crate on a flat
/// grid with the given strategies, in the order it made them; empty when a
/// cell is above 9.
pub uninterp spec fn deductions_of(cells: Seq<u8>, strategies: Seq<SolveStrategy>) -> Seq<Deduction>;

/// Builds the list of hint strategies.
pub fn hint_strategy_list() -> (r: Vec<SolveStrategy>)
    ensures
        r@ == hint_strategies(),
{
    let r = vec![SolveStrategy::NakedSingles, SolveStrategy::HiddenSingles];
    assert(r@ =~= hint_strategies());
    r
}

/// Relies on sudoku::Sudoku::generate: a random, uniquely solvable puzzle.
/// Nothing is stated of which one.
#[verifier::external_body]
pub(crate) fn generate_puzzle() -> Puzzle {
    Puzzle::generate()
}

/// Relies on sudoku::Sudoku::some_solution: a solution of the puzzle, or
/// `None` when it has none. Nothing is stated of the cells it holds.
#[verifier::external_body]
pub(crate) fn some_solution(puzzle: Puzzle) -> Option<Puzzle> {
    puzzle.some_solution()
}

/// Relies on sudoku::Sudoku::to_bytes: the 81 cells, row by row, `0` for an
/// empty cell and 1 to 9 for a digit.
#[verifier::external_body]
pub(crate) fn puzzle_bytes(puzzle: Puzzle) -> (r: [u8; 81])
    ensures
        forall|k: int| 0 <= k < 81 ==> #[trigger] r[k] <= 9,
{
    puzzle.to_bytes()
}

/// Relies on sudoku::Sudoku::from_bytes, StrategySolver::from_sudoku,
/// StrategySolver::solve and Deductions::iter: the deductions the solver
/// records, whether or not it solves the grid. A single's row and column lie
/// in 0..=8 and its digit in 1..=9 (the crate's `Row`, `Col` and `Digit`
/// types), and it is found only at a cell that is empty in the input. A grid
/// that `from_bytes` refuses gives no deduction.
#[verifier::external_body]
pub(crate) fn solver_deductions(cells: [u8; 81], strategies: &Vec<SolveStrategy>) -> (r: Vec<Deduction>)
    ensures
        r@ == deductions_of(cells@, strategies@),
        forall|k: int| 0 <= k < r@.len() ==> single_in_range(cells@, #[trigger] r@[k]),
{
    let Ok(puzzle) = Puzzle::from_bytes(cells) else { return vec![] };
    let list: Vec<Strategy> = strategies.iter().map(|s| match s {
        SolveStrategy::NakedSingles => Strategy::NakedSingles,
        SolveStrategy::HiddenSingles => Strategy::HiddenSingles,
    }).collect();
    let found = StrategySolver::from_sudoku(puzzle).solve(&list).unwrap_or_else(|e| e).1;
    found.iter().map(|d| match d {
        FoundDeduction::NakedSingles(c) => Deduction::NakedSingle(c.row().get(), c.col().get(), c.digit.get()),
        FoundDeduction::HiddenSingles(c, _) => Deduction::HiddenSingle(c.row().get(), c.col().get(), c.digit.get()),
        _ => Deduction::Other,
    }).collect()
}

} // verus!
