use sudoku_solver::{convert_from_2d_array, Deduction, Grid, Sudoku, SudokuError};

const SOLVED: Grid = [
    [5, 3, 4, 6, 7, 8, 9, 1, 2],
    [6, 7, 2, 1, 9, 5, 3, 4, 8],
    [1, 9, 8, 3, 4, 2, 5, 6, 7],
    [8, 5, 9, 7, 6, 1, 4, 2, 3],
    [4, 2, 6, 8, 5, 3, 7, 9, 1],
    [7, 1, 3, 9, 2, 4, 8, 5, 6],
    [9, 6, 1, 5, 3, 7, 2, 8, 4],
    [2, 8, 7, 4, 1, 9, 6, 3, 5],
    [3, 4, 5, 2, 8, 6, 1, 7, 9],
];

fn puzzle() -> Sudoku {
    let mut initial = SOLVED;
    initial[0][0] = 0;
    initial[4][4] = 0;
    initial[8][8] = 0;
    Sudoku::from_parts(convert_from_2d_array(initial), Some(convert_from_2d_array(SOLVED))).unwrap()
}

#[test]
fn from_parts_keeps_both_grids() {
    let s = puzzle();
    assert_eq!(s.get_solved(), SOLVED);
    let initial = s.get_initial();
    assert_eq!(initial[0][0], 0);
    assert_eq!(initial[0][1], 3);
    assert_eq!(initial[4][4], 0);
}

#[test]
fn from_parts_without_solution_fails() {
    let r = Sudoku::from_parts([0u8; 81], None);
    assert_eq!(r.err(), Some(SudokuError::ConstructionFailure));
}

#[test]
fn from_parts_with_incomplete_solution_fails() {
    let mut sol = convert_from_2d_array(SOLVED);
    sol[40] = 0;
    let r = Sudoku::from_parts([0u8; 81], Some(sol));
    assert_eq!(r.err(), Some(SudokuError::ConstructionFailure));
}

#[test]
fn from_parts_with_disagreeing_clue_fails() {
    let sol = convert_from_2d_array(SOLVED);
    let mut initial = [0u8; 81];
    initial[0] = 4;
    let r = Sudoku::from_parts(initial, Some(sol));
    assert_eq!(r.err(), Some(SudokuError::ConstructionFailure));
}

#[test]
fn new_puzzle_agrees_with_its_solution() {
    let s = Sudoku::new().unwrap();
    let initial = s.get_initial();
    let solved = s.get_solved();
    for i in 0..9 {
        for j in 0..9 {
            assert!((1..=9).contains(&solved[i][j]));
            assert!(initial[i][j] == 0 || initial[i][j] == solved[i][j]);
        }
    }
}

#[test]
fn validate_single_empty_cell_is_all_true() {
    let s = puzzle();
    let mut g = SOLVED;
    g[0][0] = 0;
    assert_eq!(s.validate_grid(&g), Ok([[true; 9]; 9]));
}

#[test]
fn validate_flags_wrong_digit() {
    let s = puzzle();
    let mut g = SOLVED;
    g[4][4] = 1;
    let r = s.validate_grid(&g).unwrap();
    for i in 0..9 {
        for j in 0..9 {
            assert_eq!(r[i][j], !(i == 4 && j == 4));
        }
    }
}

#[test]
fn validate_empty_grid_is_all_true() {
    let s = puzzle();
    assert_eq!(s.validate_grid(&[[0u8; 9]; 9]), Ok([[true; 9]; 9]));
}

#[test]
fn hint_single_empty_cell() {
    let s = puzzle();
    let mut g = SOLVED;
    g[0][0] = 0;
    assert_eq!(s.get_hint(&g), Ok((0, 0, 5)));
}

#[test]
fn hint_on_solved_grid_is_last_cell() {
    let s = puzzle();
    assert_eq!(s.get_hint(&SOLVED), Ok((8, 8, 9)));
}

#[test]
fn hint_prefers_forced_cell_over_first_empty() {
    let s = puzzle();
    let mut g = SOLVED;
    g[0][0] = 0;
    g[0][1] = 0;
    g[8][0] = 0;
    let r = s.get_hint(&g).unwrap();
    assert_ne!(r, (0, 0, 5));
    assert!(r == (0, 1, 3) || r == (8, 0, 3));
}

#[test]
fn hint_on_generated_puzzle_is_correct() {
    let s = Sudoku::new().unwrap();
    let g = s.get_initial();
    let solved = s.get_solved();
    let (r, c, v) = s.get_hint(&g).unwrap();
    assert_eq!(g[r as usize][c as usize], 0);
    assert_eq!(solved[r as usize][c as usize], v);
}

#[test]
fn hint_refuses_out_of_range_cell() {
    let s = puzzle();
    let mut g = SOLVED;
    g[3][7] = 10;
    assert_eq!(s.get_hint(&g), Err(SudokuError::InvalidGridShape));
}

#[test]
fn hint_for_naked_single() {
    let s = puzzle();
    let g = [[0u8; 9]; 9];
    let d = Deduction::NakedSingle(1, 2, 2);
    assert_eq!(s.hint_for(&g, &vec![d, Deduction::Other]), (1, 2, 2));
}

#[test]
fn hint_for_hidden_single() {
    let s = puzzle();
    let g = [[0u8; 9]; 9];
    let d = Deduction::HiddenSingle(7, 4, 1);
    assert_eq!(s.hint_for(&g, &vec![d]), (7, 4, 1));
}

#[test]
fn hint_for_other_takes_first_empty() {
    let s = puzzle();
    let mut g = SOLVED;
    g[2][3] = 0;
    g[6][6] = 0;
    let single = Deduction::NakedSingle(6, 6, 2);
    assert_eq!(s.hint_for(&g, &vec![Deduction::Other, single]), (2, 3, 3));
    assert_eq!(s.hint_for(&g, &vec![]), (2, 3, 3));
}

#[test]
fn hint_for_full_grid_without_deduction() {
    let s = puzzle();
    assert_eq!(s.hint_for(&SOLVED, &vec![]), (8, 8, 9));
}

#[test]
fn validate_refuses_out_of_range_cell() {
    let s = puzzle();
    let mut g = SOLVED;
    g[5][0] = 12;
    assert_eq!(s.validate_grid(&g), Err(SudokuError::InvalidGridShape));
}

#[test]
fn from_parts_with_all_ones_solution_fails() {
    let r = Sudoku::from_parts([0u8; 81], Some([1u8; 81]));
    assert_eq!(r.err(), Some(SudokuError::ConstructionFailure));
}

#[test]
fn from_parts_with_repeated_digit_in_column_fails() {
    let mut sol = SOLVED;
    sol[0][0] = 3;
    sol[0][1] = 5;
    let r = Sudoku::from_parts([0u8; 81], Some(convert_from_2d_array(sol)));
    assert_eq!(r.err(), Some(SudokuError::ConstructionFailure));
}

#[test]
fn hint_with_wrong_player_digit_names_empty_cell() {
    let s = puzzle();
    let mut g = SOLVED;
    g[0][0] = 0;
    g[0][1] = 0;
    g[8][2] = 0;
    g[8][0] = 5;
    let (r, c, v) = s.get_hint(&g).unwrap();
    assert_eq!(g[r as usize][c as usize], 0);
    assert!((1..=9).contains(&v));
}
