//! The Moore neighbourhood of a cell on a table without wraparound.

use vstd::prelude::*;
use crate::grid::{
    in_bounds, is_binary, is_rectangular, lemma_rows_of_shape, rows_of, ALIVE, DEAD,
};

verus! {

/// The state of the cell at `(r, c)` as a sequence of one item, or the empty
/// sequence where `(r, c)` lies outside `g`.
pub open spec fn cell_if_present(g: Seq<Seq<i32>>, r: int, c: int) -> Seq<i32> {
    if in_bounds(g, r, c) {
        seq![g[r][c]]
    } else {
        Seq::empty()
    }
}

/// The states of the cells of `g` that touch `(r, c)` by a side or a corner,
/// row by row from the upper left to the lower right. The cell itself is left
/// out, and so is every position outside `g`.
pub open spec fn neighbourhood(g: Seq<Seq<i32>>, r: int, c: int) -> Seq<i32> {
    cell_if_present(g, r - 1, c - 1) + cell_if_present(g, r - 1, c) + cell_if_present(
        g,
        r - 1,
        c + 1,
    ) + cell_if_present(g, r, c - 1) + cell_if_present(g, r, c + 1) + cell_if_present(
        g,
        r + 1,
        c - 1,
    ) + cell_if_present(g, r + 1, c) + cell_if_present(g, r + 1, c + 1)
}

/// Collects the states of the neighbours of the cell at `(row, column)`.
///
/// Only cells of the table are read, so a cell on a border has fewer than
/// eight neighbours: as many as the three rows and three columns around it
/// have cells on the table, less the cell itself.
pub fn get_cell_neighbourhood<const R: usize, const C: usize>(
    table: &[[i32; C]; R],
    row: usize,
    column: usize,
) -> (cells: Vec<i32>)
    requires
        row < R,
        column < C,
    ensures
        cells@ == neighbourhood(rows_of(*table), row as int, column as int),
        cells@.len() == reach(row as int, R as int) * reach(column as int, C as int) - 1,
{
    proof {
        lemma_rows_of_shape(*table);
        lemma_neighbourhood_len(rows_of(*table), R as nat, C as nat, row as int, column as int);
    }
    let ghost g = rows_of(*table);
    let ghost r = row as int;
    let ghost c = column as int;
    let up = row > 0;
    let down = row + 1 < R;
    let left = column > 0;
    let right = column + 1 < C;
    let mut cells: Vec<i32> = Vec::new();
    if up && left {
        cells.push(table[row - 1][column - 1]);
    }
    if up {
        cells.push(table[row - 1][column]);
    }
    if up && right {
        cells.push(table[row - 1][column + 1]);
    }
    assert(cells@ == cell_if_present(g, r - 1, c - 1) + cell_if_present(g, r - 1, c)
        + cell_if_present(g, r - 1, c + 1));
    if left {
        cells.push(table[row][column - 1]);
    }
    if right {
        cells.push(table[row][column + 1]);
    }
    assert(cells@ == cell_if_present(g, r - 1, c - 1) + cell_if_present(g, r - 1, c)
        + cell_if_present(g, r - 1, c + 1) + cell_if_present(g, r, c - 1) + cell_if_present(
        g,
        r,
        c + 1,
    ));
    if down && left {
        cells.push(table[row + 1][column - 1]);
    }
    if down {
        cells.push(table[row + 1][column]);
    }
    if down && right {
        cells.push(table[row + 1][column + 1]);
    }
    assert(cells@ == neighbourhood(g, r, c));
    cells
}

/// The sum of the items of `s`.
pub open spec fn sum(s: Seq<i32>) -> int
    decreases s.len(),
{
    if s.len() == 0 {
        0
    } else {
        sum(s.drop_last()) + s.last()
    }
}

/// The number of live cells among the neighbours of `(r, c)`, for a table
/// whose cells are [`DEAD`] or [`ALIVE`]: the sum of their states.
pub open spec fn live_neighbours(g: Seq<Seq<i32>>, r: int, c: int) -> int {
    sum(neighbourhood(g, r, c))
}

/// The state of the cell at `(r, c)` as a number, and 0 for a position
/// outside `g`.
pub open spec fn state_or_zero(g: Seq<Seq<i32>>, r: int, c: int) -> int {
    if in_bounds(g, r, c) {
        g[r][c] as int
    } else {
        0
    }
}

/// How many of `i - 1`, `i` and `i + 1` are indices below `n`.
pub open spec fn reach(i: int, n: int) -> int {
    (if 0 <= i - 1 < n {
        1int
    } else {
        0int
    }) + (if 0 <= i < n {
        1int
    } else {
        0int
    }) + (if 0 <= i + 1 < n {
        1int
    } else {
        0int
    })
}

/// `(r, c)` is one of the four corners of a table of `rows` by `columns`.
pub open spec fn is_corner(rows: nat, columns: nat, r: int, c: int) -> bool {
    (r == 0 || r == rows - 1) && (c == 0 || c == columns - 1)
}

/// `(r, c)` lies in the first or last row or column of a table of `rows` by
/// `columns`.
pub open spec fn is_border(rows: nat, columns: nat, r: int, c: int) -> bool {
    r == 0 || r == rows - 1 || c == 0 || c == columns - 1
}

/// The sum of a concatenation is the sum of the sums.
pub proof fn lemma_sum_concat(a: Seq<i32>, b: Seq<i32>)
    ensures
        sum(a + b) == sum(a) + sum(b),
    decreases b.len(),
{
    if b.len() == 0 {
        assert(a + b =~= a);
    } else {
        assert((a + b).drop_last() =~= a + b.drop_last());
        lemma_sum_concat(a, b.drop_last());
    }
}

/// The sum of what [`cell_if_present`] gives is the state of the cell, or 0
/// outside the table.
pub proof fn lemma_sum_cell_if_present(g: Seq<Seq<i32>>, r: int, c: int)
    ensures
        sum(cell_if_present(g, r, c)) == state_or_zero(g, r, c),
{
    let s = cell_if_present(g, r, c);
    if in_bounds(g, r, c) {
        assert(s.drop_last() =~= Seq::<i32>::empty());
        assert(sum(s.drop_last()) == 0);
    }
}

/// The live neighbours of a cell are counted position by position: each of
/// the eight positions around `(r, c)` adds the state of its cell where it
/// lies on the table, and nothing where it does not.
pub proof fn lemma_live_neighbours_by_position(g: Seq<Seq<i32>>, r: int, c: int)
    ensures
        live_neighbours(g, r, c) == state_or_zero(g, r - 1, c - 1) + state_or_zero(g, r - 1, c)
            + state_or_zero(g, r - 1, c + 1) + state_or_zero(g, r, c - 1) + state_or_zero(
            g,
            r,
            c + 1,
        ) + state_or_zero(g, r + 1, c - 1) + state_or_zero(g, r + 1, c) + state_or_zero(
            g,
            r + 1,
            c + 1,
        ),
{
    let p0 = cell_if_present(g, r - 1, c - 1);
    let p1 = p0 + cell_if_present(g, r - 1, c);
    let p2 = p1 + cell_if_present(g, r - 1, c + 1);
    let p3 = p2 + cell_if_present(g, r, c - 1);
    let p4 = p3 + cell_if_present(g, r, c + 1);
    let p5 = p4 + cell_if_present(g, r + 1, c - 1);
    let p6 = p5 + cell_if_present(g, r + 1, c);
    lemma_sum_concat(p0, cell_if_present(g, r - 1, c));
    lemma_sum_concat(p1, cell_if_present(g, r - 1, c + 1));
    lemma_sum_concat(p2, cell_if_present(g, r, c - 1));
    lemma_sum_concat(p3, cell_if_present(g, r, c + 1));
    lemma_sum_concat(p4, cell_if_present(g, r + 1, c - 1));
    lemma_sum_concat(p5, cell_if_present(g, r + 1, c));
    lemma_sum_concat(p6, cell_if_present(g, r + 1, c + 1));
    lemma_sum_cell_if_present(g, r - 1, c - 1);
    lemma_sum_cell_if_present(g, r - 1, c);
    lemma_sum_cell_if_present(g, r - 1, c + 1);
    lemma_sum_cell_if_present(g, r, c - 1);
    lemma_sum_cell_if_present(g, r, c + 1);
    lemma_sum_cell_if_present(g, r + 1, c - 1);
    lemma_sum_cell_if_present(g, r + 1, c);
    lemma_sum_cell_if_present(g, r + 1, c + 1);
}

/// A cell of a rectangular table has as many neighbours as the block of
/// three rows by three columns around it has cells on the table, less the
/// cell itself.
pub proof fn lemma_neighbourhood_len(g: Seq<Seq<i32>>, rows: nat, columns: nat, r: int, c: int)
    requires
        is_rectangular(g, rows, columns),
        0 <= r < rows,
        0 <= c < columns,
    ensures
        neighbourhood(g, r, c).len() == reach(r, rows as int) * reach(c, columns as int) - 1,
{
    let h = reach(r, rows as int);
    let w = reach(c, columns as int);
    assert(1 <= h <= 3 && 1 <= w <= 3);
    assert(h * w == if h == 1 {
        w
    } else if h == 2 {
        w + w
    } else {
        w + w + w
    }) by (nonlinear_arith)
        requires
            1 <= h <= 3,
    ;
}

/// On a table of at least two rows and two columns, a corner cell has
/// exactly three neighbours, a border cell that is no corner exactly five,
/// and every other cell exactly eight.
pub proof fn lemma_neighbourhood_len_by_position(
    g: Seq<Seq<i32>>,
    rows: nat,
    columns: nat,
    r: int,
    c: int,
)
    requires
        is_rectangular(g, rows, columns),
        rows >= 2,
        columns >= 2,
        0 <= r < rows,
        0 <= c < columns,
    ensures
        is_corner(rows, columns, r, c) ==> neighbourhood(g, r, c).len() == 3,
        is_border(rows, columns, r, c) && !is_corner(rows, columns, r, c) ==> neighbourhood(
            g,
            r,
            c,
        ).len() == 5,
        !is_border(rows, columns, r, c) ==> neighbourhood(g, r, c).len() == 8,
{
}

/// Every item of `s` is [`DEAD`] or [`ALIVE`].
pub open spec fn all_binary(s: Seq<i32>) -> bool {
    forall|i: int| 0 <= i < s.len() ==> DEAD <= #[trigger] s[i] <= ALIVE
}

/// Joining `b`, of at most one item, to `a` keeps every item [`DEAD`] or
/// [`ALIVE`] and adds at most one to the length.
proof fn lemma_binary_concat(a: Seq<i32>, b: Seq<i32>)
    requires
        all_binary(a),
        all_binary(b),
        b.len() <= 1,
    ensures
        all_binary(a + b),
        (a + b).len() <= a.len() + 1,
{
}

/// Every neighbour of a cell of a table of [`DEAD`] and [`ALIVE`] cells is
/// [`DEAD`] or [`ALIVE`], there are at most eight of them, and so at most
/// eight are alive.
pub proof fn lemma_neighbourhood_is_binary(g: Seq<Seq<i32>>, r: int, c: int)
    requires
        is_binary(g),
    ensures
        neighbourhood(g, r, c).len() <= 8,
        all_binary(neighbourhood(g, r, c)),
        0 <= live_neighbours(g, r, c) <= 8,
{
    assert forall|i: int, j: int| #[trigger] all_binary(cell_if_present(g, i, j)) by {
        if in_bounds(g, i, j) {
            assert(DEAD <= g[i][j] <= ALIVE);
        }
    }
    let p0 = cell_if_present(g, r - 1, c - 1);
    let p1 = p0 + cell_if_present(g, r - 1, c);
    let p2 = p1 + cell_if_present(g, r - 1, c + 1);
    let p3 = p2 + cell_if_present(g, r, c - 1);
    let p4 = p3 + cell_if_present(g, r, c + 1);
    let p5 = p4 + cell_if_present(g, r + 1, c - 1);
    let p6 = p5 + cell_if_present(g, r + 1, c);
    lemma_binary_concat(p0, cell_if_present(g, r - 1, c));
    lemma_binary_concat(p1, cell_if_present(g, r - 1, c + 1));
    lemma_binary_concat(p2, cell_if_present(g, r, c - 1));
    lemma_binary_concat(p3, cell_if_present(g, r, c + 1));
    lemma_binary_concat(p4, cell_if_present(g, r + 1, c - 1));
    lemma_binary_concat(p5, cell_if_present(g, r + 1, c));
    lemma_binary_concat(p6, cell_if_present(g, r + 1, c + 1));
    lemma_live_neighbours_by_position(g, r, c);
    assert forall|i: int, j: int| 0 <= #[trigger] state_or_zero(g, i, j) <= 1 by {
        if in_bounds(g, i, j) {
            assert(DEAD <= g[i][j] <= ALIVE);
        }
    }
}

/// Adds up the states in `cells`, which for the neighbours of a cell is the
/// number of those that are alive.
pub fn neighbourhood_sum(cells: &Vec<i32>) -> (total: i32)
    requires
        cells@.len() <= i32::MAX,
        all_binary(cells@),
    ensures
        total == sum(cells@),
{
    let mut total: i32 = 0;
    let mut i: usize = 0;
    while i < cells.len()
        invariant
            i <= cells@.len() <= i32::MAX,
            all_binary(cells@),
            total == sum(cells@.take(i as int)),
            0 <= total <= i,
        decreases cells@.len() - i,
    {
        assert(cells@.take(i + 1).drop_last() =~= cells@.take(i as int));
        total = total + cells[i];
        i = i + 1;
    }
    assert(cells@.take(i as int) =~= cells@);
    total
}

} // verus!
