//! Conversion between the flat 81-cell layout and the 9 x 9 row-major grid.

use vstd::prelude::*;

verus! {

/// A 9 x 9 grid of cell values, row-major; `0` marks an empty cell.
pub type Grid = [[u8; 9]; 9];

/// The rows of a grid, each as a sequence of its nine cells.
pub open spec fn grid_seq(g: Grid) -> Seq<Seq<u8>> {
    Seq::new(9, |i: int| g[i]@)
}

/// Row `i` of the matrix made of a flat sequence is `f[9i .. 9i + 9]`.
pub open spec fn rows_of(f: Seq<u8>) -> Seq<Seq<u8>> {
    Seq::new(9, |i: int| f.subrange(9 * i, 9 * i + 9))
}

/// The flat sequence of a matrix: cell `9i + j` is `m[i][j]`.
pub open spec fn flatten(m: Seq<Seq<u8>>) -> Seq<u8> {
    Seq::new(81, |k: int| m[k / 9][k % 9])
}

/// The flat sequence of a grid.
pub open spec fn flat_grid(g: Grid) -> Seq<u8> {
    flatten(grid_seq(g))
}

/// Converts a flat array of 81 cells into a 9 x 9 grid.
pub fn convert_to_2d_array(grid: [u8; 81]) -> (r: Grid)
    ensures
        grid_seq(r) == rows_of(grid@),
{
    let mut result: Grid = [[0u8; 9]; 9];
    let mut i: usize = 0;
    while i < 9
        invariant
            0 <= i <= 9,
            forall|ii: int| 0 <= ii < i ==> #[trigger] result[ii]@ == grid@.subrange(9 * ii, 9 * ii + 9),
        decreases 9 - i,
    {
        let mut row: [u8; 9] = [0u8; 9];
        let mut j: usize = 0;
        while j < 9
            invariant
                0 <= i < 9,
                0 <= j <= 9,
                forall|jj: int| 0 <= jj < j ==> #[trigger] row[jj] == grid[9 * i + jj],
            decreases 9 - j,
        {
            row[j] = grid[9 * i + j];
            j = j + 1;
        }
        assert(row@ == grid@.subrange(9 * i as int, 9 * i as int + 9));
        result[i] = row;
        i = i + 1;
    }
    assert(grid_seq(result) =~= rows_of(grid@));
    result
}

/// Converts a 9 x 9 grid into the flat array of its 81 cells.
pub fn convert_from_2d_array(grid: Grid) -> (r: [u8; 81])
    ensures
        r@ == flat_grid(grid),
{
    let mut result: [u8; 81] = [0u8; 81];
    let mut i: usize = 0;
    while i < 9
        invariant
            0 <= i <= 9,
            forall|k: int| 0 <= k < 9 * i ==> #[trigger] result[k] == grid[k / 9][k % 9],
        decreases 9 - i,
    {
        let mut j: usize = 0;
        while j < 9
            invariant
                0 <= i < 9,
                0 <= j <= 9,
                forall|k: int| 0 <= k < 9 * i + j ==> #[trigger] result[k] == grid[k / 9][k % 9],
            decreases 9 - j,
        {
            result[9 * i + j] = grid[i][j];
            j = j + 1;
        }
        i = i + 1;
    }
    assert(result@ =~= flat_grid(grid));
    result
}

/// Flattening the matrix made of a flat sequence of 81 cells gives that
/// sequence back.
pub proof fn lemma_flat_round_trip(f: Seq<u8>)
    requires
        f.len() == 81,
    ensures
        flatten(rows_of(f)) == f,
{
    assert forall|k: int| 0 <= k < 81 implies #[trigger] flatten(rows_of(f))[k] == f[k] by {
        assert(9 * (k / 9) + k % 9 == k);
    }
    assert(flatten(rows_of(f)) =~= f);
}

/// Building the matrix of the flat sequence of a 9 x 9 matrix gives that
/// matrix back.
pub proof fn lemma_matrix_round_trip(m: Seq<Seq<u8>>)
    requires
        m.len() == 9,
        forall|i: int| 0 <= i < 9 ==> (#[trigger] m[i]).len() == 9,
    ensures
        rows_of(flatten(m)) == m,
{
    assert forall|i: int| 0 <= i < 9 implies #[trigger] rows_of(flatten(m))[i] == m[i] by {
        assert forall|j: int| 0 <= j < 9 implies #[trigger] rows_of(flatten(m))[i][j] == m[i][j] by {
            assert((9 * i + j) / 9 == i && (9 * i + j) % 9 == j);
        }
        assert(rows_of(flatten(m))[i] =~= m[i]);
    }
    assert(rows_of(flatten(m)) =~= m);
}

} // verus!
