//! A puzzle and its solution, and the queries a player makes against them:
//! validation of a grid and a single-cell hint.

use vstd::prelude::*;
use crate::codec::{Grid, flat_grid, convert_to_2d_array, convert_from_2d_array, lemma_flat_round_trip};
use crate::solver::{
    Deduction, deductions_of, generate_puzzle, hint_strategies, hint_strategy_list, puzzle_bytes,
    single_in_range, solver_deductions, some_solution,
};

verus! {

/// The ways a request to the engine can fail.
#[derive(Clone, Copy, Debug, PartialEq, Eq, Structural)]
pub enum SudokuError {
    /// The generator gave no puzzle with a complete, consistent solution.
    ConstructionFailure,
    /// A submitted grid holds a cell value above 9.
    InvalidGridShape,
}

/// Flat cells `a` and `b` lie in one row, one column or one 3 x 3 box.
pub open spec fn same_unit(a: int, b: int) -> bool {
    ||| a / 9 == b / 9
    ||| a % 9 == b % 9
    ||| (a / 27 == b / 27 && a % 9 / 3 == b % 9 / 3)
}

/// `sol` is a valid complete solution (every cell a digit 1 to 9, no digit
/// twice in a row, column or box, so each of them holds 1 to 9 exactly once)
/// and `init` a puzzle of it: every filled cell of `init` holds the
/// solution's digit.
pub open spec fn is_puzzle_pair(init: Seq<u8>, sol: Seq<u8>) -> bool {
    &&& init.len() == 81
    &&& sol.len() == 81
    &&& forall|k: int| 0 <= k < 81 ==> 1 <= #[trigger] sol[k] <= 9 && (init[k] == 0 || init[k] == sol[k])
    &&& forall|a: int, b: int| 0 <= a < b < 81 && #[trigger] same_unit(a, b) ==> sol[a] != sol[b]
}

/// Whether flat cells `a` and `b` lie in one row, column or box.
fn share_unit(a: usize, b: usize) -> (r: bool)
    requires
        a < 81,
        b < 81,
    ensures
        r == same_unit(a as int, b as int),
{
    a / 9 == b / 9 || a % 9 == b % 9 || (a / 27 == b / 27 && a % 9 / 3 == b % 9 / 3)
}

/// Whether every cell of the grid holds 0 to 9.
fn grid_in_range(grid: &Grid) -> (r: bool)
    ensures
        r == cells_in_range(*grid),
{
    let mut i: usize = 0;
    while i < 9
        invariant
            0 <= i <= 9,
            forall|ii: int, j: int| 0 <= ii < i && 0 <= j < 9 ==> #[trigger] grid[ii][j] <= 9,
        decreases 9 - i,
    {
        let mut j: usize = 0;
        while j < 9
            invariant
                0 <= i < 9,
                0 <= j <= 9,
                forall|ii: int, jj: int| 0 <= ii < i && 0 <= jj < 9 ==> #[trigger] grid[ii][jj] <= 9,
                forall|jj: int| 0 <= jj < j ==> #[trigger] grid[i as int][jj] <= 9,
            decreases 9 - j,
        {
            if grid[i][j] > 9 {
                return false;
            }
            j = j + 1;
        }
        i = i + 1;
    }
    true
}

/// Every cell of the grid holds 0 to 9.
pub open spec fn cells_in_range(g: Grid) -> bool {
    forall|i: int, j: int| 0 <= i < 9 && 0 <= j < 9 ==> #[trigger] g[i][j] <= 9
}

/// The grid has an empty cell.
pub open spec fn has_empty(g: Grid) -> bool {
    exists|i: int, j: int| 0 <= i < 9 && 0 <= j < 9 && #[trigger] g[i][j] == 0
}

/// `k` is the first empty cell of `cells`.
pub open spec fn is_first_empty(cells: Seq<u8>, k: int) -> bool {
    &&& 0 <= k < cells.len()
    &&& cells[k] == 0
    &&& forall|m: int| 0 <= m < k ==> #[trigger] cells[m] != 0
}

/// The positional hint: row, column and solution digit of the first empty
/// cell in row-major order, or of the last cell when none is empty.
pub open spec fn fallback_hint(cells: Seq<u8>, solved: Seq<u8>) -> (u8, u8, u8) {
    if exists|k: int| is_first_empty(cells, k) {
        let k = choose|k: int| is_first_empty(cells, k);
        ((k / 9) as u8, (k % 9) as u8, solved[k])
    } else {
        (8, 8, solved[80])
    }
}

/// The solver's first deduction is a naked or a hidden single.
pub open spec fn first_is_single(ds: Seq<Deduction>) -> bool {
    ds.len() > 0 && !(ds[0] is Other)
}

/// The hint for grid `g` when the solver's deductions are `ds`: a first
/// deduction that is a single gives its cell and digit; otherwise the
/// positional hint.
pub open spec fn hint_of(solved: Grid, g: Grid, ds: Seq<Deduction>) -> (u8, u8, u8) {
    if ds.len() == 0 {
        fallback_hint(flat_grid(g), flat_grid(solved))
    } else {
        match ds[0] {
            Deduction::NakedSingle(row, col, digit) => (row, col, digit),
            Deduction::HiddenSingle(row, col, digit) => (row, col, digit),
            Deduction::Other => fallback_hint(flat_grid(g), flat_grid(solved)),
        }
    }
}

/// A first deduction that is a single lies at an empty cell of `g` and gives
/// the solution's digit there.
pub open spec fn first_single_agrees(ds: Seq<Deduction>, solved: Grid, g: Grid) -> bool {
    ds.len() > 0 ==> match ds[0] {
        Deduction::NakedSingle(row, col, digit) | Deduction::HiddenSingle(row, col, digit) => {
            &&& row < 9
            &&& col < 9
            &&& g[row as int][col as int] == 0
            &&& solved[row as int][col as int] == digit
        },
        Deduction::Other => true,
    }
}

/// One puzzle: the grid the player starts from and its solution.
pub struct Sudoku {
    initial_grid: Grid,
    solved_grid: Grid,
}

impl Sudoku {
    /// The starting grid.
    pub closed spec fn initial(&self) -> Grid {
        self.initial_grid
    }

    /// The solution.
    pub closed spec fn solved(&self) -> Grid {
        self.solved_grid
    }

    /// The solution is complete and the starting grid agrees with it.
    pub open spec fn wf(&self) -> bool {
        is_puzzle_pair(flat_grid(self.initial()), flat_grid(self.solved()))
    }

    /// A new puzzle from the generator of the `sudoku` crate.
    pub fn new() -> (r: Result<Sudoku, SudokuError>)
        ensures
            r is Ok ==> r->Ok_0.wf(),
            r is Err ==> r->Err_0 == SudokuError::ConstructionFailure,
    {
        let puzzle = generate_puzzle();
        let initial = puzzle_bytes(puzzle);
        let solution = match some_solution(puzzle) {
            Some(s) => Some(puzzle_bytes(s)),
            None => None,
        };
        Sudoku::from_parts(initial, solution)
    }

    /// A puzzle from the flat cells of a starting grid and of its solution,
    /// if there is a solution and the two form a puzzle.
    pub fn from_parts(initial: [u8; 81], solution: Option<[u8; 81]>) -> (r: Result<Sudoku, SudokuError>)
        ensures
            r is Ok <==> match solution {
                Some(s) => is_puzzle_pair(initial@, s@),
                None => false,
            },
            r is Ok ==> match solution {
                Some(s) => flat_grid(r->Ok_0.initial()) == initial@ && flat_grid(r->Ok_0.solved()) == s@,
                None => false,
            },
            r is Ok ==> r->Ok_0.wf(),
            r is Err ==> r->Err_0 == SudokuError::ConstructionFailure,
    {
        if solution.is_none() {
            return Err(SudokuError::ConstructionFailure);
        }
        let sol = solution.unwrap();
        let mut k: usize = 0;
        while k < 81
            invariant
                0 <= k <= 81,
                solution == Some(sol),
                forall|m: int| 0 <= m < k ==> 1 <= #[trigger] sol[m] <= 9 && (initial[m] == 0 || initial[m] == sol[m]),
            decreases 81 - k,
        {
            if sol[k] == 0 || sol[k] > 9 || (initial[k] != 0 && initial[k] != sol[k]) {
                assert(!(1 <= sol@[k as int] <= 9 && (initial@[k as int] == 0 || initial@[k as int] == sol@[k as int])));
                return Err(SudokuError::ConstructionFailure);
            }
            k = k + 1;
        }
        let mut a: usize = 0;
        while a < 81
            invariant
                0 <= a <= 81,
                solution == Some(sol),
                forall|m: int| 0 <= m < 81 ==> 1 <= #[trigger] sol[m] <= 9 && (initial[m] == 0 || initial[m] == sol[m]),
                forall|x: int, y: int| 0 <= x < a && x < y < 81 && #[trigger] same_unit(x, y) ==> sol[x] != sol[y],
            decreases 81 - a,
        {
            let mut b: usize = a + 1;
            while b < 81
                invariant
                    0 <= a < 81,
                    a + 1 <= b <= 81,
                    solution == Some(sol),
                    forall|m: int| 0 <= m < 81 ==> 1 <= #[trigger] sol[m] <= 9 && (initial[m] == 0 || initial[m] == sol[m]),
                    forall|x: int, y: int| 0 <= x < a && x < y < 81 && #[trigger] same_unit(x, y) ==> sol[x] != sol[y],
                    forall|y: int| a < y < b && #[trigger] same_unit(a as int, y) ==> sol[a as int] != sol[y],
                decreases 81 - b,
            {
                if share_unit(a, b) && sol[a] == sol[b] {
                    assert(same_unit(a as int, b as int) && sol@[a as int] == sol@[b as int]);
                    return Err(SudokuError::ConstructionFailure);
                }
                b = b + 1;
            }
            a = a + 1;
        }
        proof {
            lemma_flat_round_trip(initial@);
            lemma_flat_round_trip(sol@);
        }
        Ok(Sudoku { initial_grid: convert_to_2d_array(initial), solved_grid: convert_to_2d_array(sol) })
    }

    /// A copy of the starting grid.
    pub fn get_initial(&self) -> (r: Grid)
        ensures
            r == self.initial(),
    {
        self.initial_grid
    }

    /// A copy of the solution.
    pub fn get_solved(&self) -> (r: Grid)
        ensures
            r == self.solved(),
    {
        self.solved_grid
    }

    /// Marks each cell of `grid` that is empty or holds the solution's digit.
    /// A grid with a cell above 9 is refused.
    pub fn validate_grid(&self, grid: &Grid) -> (r: Result<[[bool; 9]; 9], SudokuError>)
        ensures
            r is Err <==> !cells_in_range(*grid),
            r is Err ==> r->Err_0 == SudokuError::InvalidGridShape,
            r is Ok ==> forall|i: int, j: int| 0 <= i < 9 && 0 <= j < 9 ==>
                (!#[trigger] r->Ok_0[i][j] <==> (grid[i][j] != 0 && grid[i][j] != self.solved()[i][j])),
    {
        if !grid_in_range(grid) {
            return Err(SudokuError::InvalidGridShape);
        }
        let mut result: [[bool; 9]; 9] = [[false; 9]; 9];
        let mut i: usize = 0;
        while i < 9
            invariant
                0 <= i <= 9,
                forall|ii: int, j: int| 0 <= ii < i && 0 <= j < 9 ==>
                    (#[trigger] result[ii][j] <==> (grid[ii][j] == 0 || grid[ii][j] == self.solved()[ii][j])),
            decreases 9 - i,
        {
            let mut row: [bool; 9] = [false; 9];
            let mut j: usize = 0;
            while j < 9
                invariant
                    0 <= i < 9,
                    0 <= j <= 9,
                    forall|jj: int| 0 <= jj < j ==>
                        (#[trigger] row[jj] <==> (grid[i as int][jj] == 0 || grid[i as int][jj] == self.solved()[i as int][jj])),
                decreases 9 - j,
            {
                row[j] = grid[i][j] == 0 || grid[i][j] == self.solved_grid[i][j];
                j = j + 1;
            }
            result[i] = row;
            i = i + 1;
        }
        Ok(result)
    }

    /// The positional hint for the flat cells `array`.
    fn get_manual_hint(&self, array: [u8; 81]) -> (r: (u8, u8, u8))
        ensures
            r == fallback_hint(array@, flat_grid(self.solved())),
    {
        let solved_flat = convert_from_2d_array(self.solved_grid);
        let mut i: usize = 0;
        while i < 81
            invariant
                0 <= i <= 81,
                solved_flat@ == flat_grid(self.solved()),
                forall|m: int| 0 <= m < i ==> #[trigger] array@[m] != 0,
            decreases 81 - i,
        {
            if array[i] == 0 {
                assert(is_first_empty(array@, i as int));
                assert forall|k: int| is_first_empty(array@, k) implies k == i by {
                    if k < i {
                        assert(array@[k] != 0);
                    } else if k > i {
                        assert(array@[i as int] != 0);
                    }
                }
                return ((i / 9) as u8, (i % 9) as u8, solved_flat[i]);
            }
            i = i + 1;
        }
        assert forall|k: int| !is_first_empty(array@, k) by {
            if 0 <= k < 81 {
                assert(array@[k] != 0);
            }
        }
        (8, 8, solved_flat[80])
    }

    /// The hint for `grid` when the strategy solver's deductions on it are
    /// `found`.
    pub fn hint_for(&self, grid: &Grid, found: &Vec<Deduction>) -> (r: (u8, u8, u8))
        ensures
            r == hint_of(self.solved(), *grid, found@),
    {
        if found.len() > 0 {
            match found[0] {
                Deduction::NakedSingle(row, col, digit) => return (row, col, digit),
                Deduction::HiddenSingle(row, col, digit) => return (row, col, digit),
                Deduction::Other => {},
            }
        }
        self.get_manual_hint(convert_from_2d_array(*grid))
    }

    /// A hint for `grid`: the first deduction of the strategy solver with
    /// naked and hidden singles if it is a single, else the positional hint.
    /// The hint names an empty cell when there is one, and the last cell with
    /// its solution digit when there is none. A grid with a cell above 9 is
    /// refused.
    pub fn get_hint(&self, grid: &Grid) -> (r: Result<(u8, u8, u8), SudokuError>)
        ensures
            r is Err <==> !cells_in_range(*grid),
            r is Err ==> r->Err_0 == SudokuError::InvalidGridShape,
            r is Ok ==> r->Ok_0 == hint_of(
                self.solved(),
                *grid,
                deductions_of(flat_grid(*grid), hint_strategies()),
            ),
            r is Ok ==> r->Ok_0.0 < 9 && r->Ok_0.1 < 9,
            r is Ok && has_empty(*grid) ==> grid[r->Ok_0.0 as int][r->Ok_0.1 as int] == 0,
            r is Ok && !has_empty(*grid) ==> r->Ok_0 == (8u8, 8u8, self.solved()[8][8]),
            r is Ok && self.wf() && *grid == self.solved() ==> r->Ok_0 == (8u8, 8u8, self.solved()[8][8]),
            r is Ok && self.wf() ==> 1 <= r->Ok_0.2 <= 9,
    {
        if !grid_in_range(grid) {
            return Err(SudokuError::InvalidGridShape);
        }
        let array = convert_from_2d_array(*grid);
        let strategies = hint_strategy_list();
        let found = solver_deductions(array, &strategies);
        let r = self.hint_for(grid, &found);
        proof {
            lemma_fallback_facts(*grid, self.solved());
            if first_is_single(found@) {
                assert(single_in_range(array@, found@[0]));
                let (row, col, digit) = r;
                assert((9 * row as int + col as int) / 9 == row && (9 * row as int + col as int) % 9 == col);
                assert(array@[9 * row as int + col as int] == grid[row as int][col as int]);
                assert(has_empty(*grid));
            }
            if self.wf() {
                lemma_wf_solution_full(*self);
            }
        }
        Ok(r)
    }
}

/// Facts of the positional hint on grids: it names a cell on the board, an
/// empty one when there is one, else the last cell; its digit is one of the
/// solution's cells.
proof fn lemma_fallback_facts(g: Grid, solved: Grid)
    ensures
        ({
            let (r, c, v) = fallback_hint(flat_grid(g), flat_grid(solved));
            &&& r < 9
            &&& c < 9
            &&& has_empty(g) ==> g[r as int][c as int] == 0
            &&& !has_empty(g) ==> (r, c, v) == (8u8, 8u8, solved[8][8])
            &&& exists|k: int| 0 <= k < 81 && #[trigger] flat_grid(solved)[k] == v
        }),
{
    let cells = flat_grid(g);
    let v = fallback_hint(cells, flat_grid(solved)).2;
    if exists|k: int| is_first_empty(cells, k) {
        let k = choose|k: int| is_first_empty(cells, k);
        assert(cells[k] == g[k / 9][k % 9]);
        assert(flat_grid(solved)[k] == v);
    } else {
        if has_empty(g) {
            let (i, j) = choose|i: int, j: int| 0 <= i < 9 && 0 <= j < 9 && #[trigger] g[i][j] == 0;
            assert((9 * i + j) / 9 == i && (9 * i + j) % 9 == j);
            assert(cells[9 * i + j] == 0);
            lemma_first_empty_exists(cells, 9 * i + j);
        }
        assert(flat_grid(solved)[80] == v);
    }
}

/// A well-formed puzzle's solution has no empty cell, and its cells are digits.
proof fn lemma_wf_solution_full(s: Sudoku)
    requires
        s.wf(),
    ensures
        !has_empty(s.solved()),
        forall|k: int| 0 <= k < 81 ==> 1 <= #[trigger] flat_grid(s.solved())[k] <= 9,
{
    let cells = flat_grid(s.solved());
    if has_empty(s.solved()) {
        let (i, j) = choose|i: int, j: int| 0 <= i < 9 && 0 <= j < 9 && #[trigger] s.solved()[i][j] == 0;
        assert((9 * i + j) / 9 == i && (9 * i + j) % 9 == j);
        assert(cells[9 * i + j] == 0);
    }
}

/// A sequence with an empty cell has a first empty cell.
proof fn lemma_first_empty_exists(cells: Seq<u8>, k: int)
    requires
        0 <= k < cells.len(),
        cells[k] == 0,
    ensures
        exists|m: int| is_first_empty(cells, m),
    decreases k,
{
    if exists|m: int| 0 <= m < k && cells[m] == 0 {
        let m = choose|m: int| 0 <= m < k && cells[m] == 0;
        lemma_first_empty_exists(cells, m);
    } else {
        assert(is_first_empty(cells, k));
    }
}

/// On a grid with an empty cell, the hint names an empty cell and gives the
/// solution's digit there, provided the solver's first deduction, if it is a
/// single, gives the solution's digit at an empty cell too.
pub proof fn lemma_hint_gives_solution_digit(s: Sudoku, g: Grid)
    requires
        has_empty(g),
        first_single_agrees(deductions_of(flat_grid(g), hint_strategies()), s.solved(), g),
    ensures
        ({
            let (r, c, v) = hint_of(s.solved(), g, deductions_of(flat_grid(g), hint_strategies()));
            &&& r < 9
            &&& c < 9
            &&& g[r as int][c as int] == 0
            &&& s.solved()[r as int][c as int] == v
        }),
{
    let ds = deductions_of(flat_grid(g), hint_strategies());
    if !first_is_single(ds) {
        let cells = flat_grid(g);
        lemma_fallback_facts(g, s.solved());
        let (i, j) = choose|i: int, j: int| 0 <= i < 9 && 0 <= j < 9 && #[trigger] g[i][j] == 0;
        assert((9 * i + j) / 9 == i && (9 * i + j) % 9 == j);
        assert(cells[9 * i + j] == 0);
        lemma_first_empty_exists(cells, 9 * i + j);
        let k = choose|k: int| is_first_empty(cells, k);
        assert(flat_grid(s.solved())[k] == s.solved()[k / 9][k % 9]);
    }
}

/// When the solver's first deduction is a naked or a hidden single, the hint
/// is exactly that cell and digit.
pub proof fn lemma_single_is_hint(s: Sudoku, g: Grid, row: u8, col: u8, digit: u8)
    requires
        deductions_of(flat_grid(g), hint_strategies()).len() > 0,
        deductions_of(flat_grid(g), hint_strategies())[0] == Deduction::NakedSingle(row, col, digit)
            || deductions_of(flat_grid(g), hint_strategies())[0] == Deduction::HiddenSingle(row, col, digit),
    ensures
        hint_of(s.solved(), g, deductions_of(flat_grid(g), hint_strategies())) == (row, col, digit),
{
}

/// When the solver's first deduction is no single, the hint is the row-major
/// first empty cell with its solution digit.
pub proof fn lemma_fallback_is_first_empty(s: Sudoku, g: Grid, k: int)
    requires
        !first_is_single(deductions_of(flat_grid(g), hint_strategies())),
        is_first_empty(flat_grid(g), k),
    ensures
        hint_of(s.solved(), g, deductions_of(flat_grid(g), hint_strategies()))
            == ((k / 9) as u8, (k % 9) as u8, s.solved()[k / 9][k % 9]),
{
    let cells = flat_grid(g);
    assert forall|m: int| is_first_empty(cells, m) implies m == k by {
        if m < k {
            assert(cells[m] != 0);
        } else if m > k {
            assert(cells[k] != 0);
        }
    }
}

} // verus!
