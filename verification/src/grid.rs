//! The table of cells and its mathematical model.

use vstd::prelude::*;

verus! {

/// The number of rows of the table that the simulation runs on.
pub const ROWS: usize = 20;

/// The number of columns of the table that the simulation runs on.
pub const COLUMNS: usize = 80;

/// The state of a cell that holds no life.
pub const DEAD: i32 = 0;

/// The state of a cell that holds life.
pub const ALIVE: i32 = 1;

/// The model of a table: its rows from top to bottom, each row the states of
/// its cells from left to right.
pub open spec fn rows_of<const R: usize, const C: usize>(table: [[i32; C]; R]) -> Seq<Seq<i32>> {
    Seq::new(R as nat, |r: int| table@[r]@)
}

/// `g` has `rows` rows of `columns` cells each.
pub open spec fn is_rectangular(g: Seq<Seq<i32>>, rows: nat, columns: nat) -> bool {
    &&& g.len() == rows
    &&& forall|r: int| 0 <= r < g.len() ==> (#[trigger] g[r]).len() == columns
}

/// `(r, c)` names a cell of `g`.
pub open spec fn in_bounds(g: Seq<Seq<i32>>, r: int, c: int) -> bool {
    0 <= r < g.len() && 0 <= c < g[r].len()
}

/// Every cell of `g` is [`DEAD`] or [`ALIVE`]: the invariant of a table.
pub open spec fn is_binary(g: Seq<Seq<i32>>) -> bool {
    forall|r: int, c: int| in_bounds(g, r, c) ==> #[trigger] g[r][c] == DEAD || g[r][c] == ALIVE
}

/// Every cell of `g` is [`DEAD`].
pub open spec fn is_lifeless(g: Seq<Seq<i32>>) -> bool {
    forall|r: int, c: int| in_bounds(g, r, c) ==> #[trigger] g[r][c] == DEAD
}

/// The rows of a table are rectangular, with the dimensions of its type.
pub proof fn lemma_rows_of_shape<const R: usize, const C: usize>(table: [[i32; C]; R])
    ensures
        is_rectangular(rows_of(table), R as nat, C as nat),
        forall|r: int, c: int|
            0 <= r < R && 0 <= c < C ==> #[trigger] rows_of(table)[r][c] == table@[r]@[c],
{
    broadcast use vstd::array::array_len_matches_n;
    assert forall|r: int| 0 <= r < rows_of(table).len() implies (#[trigger] rows_of(
        table,
    )[r]).len() == C by {
        assert(rows_of(table)[r] == table@[r]@);
    }
}

/// Tells whether every cell of the table is [`DEAD`] or [`ALIVE`].
pub fn is_valid_table<const R: usize, const C: usize>(table: &[[i32; C]; R]) -> (valid: bool)
    ensures
        valid == is_binary(rows_of(*table)),
{
    proof {
        lemma_rows_of_shape(*table);
    }
    let ghost g = rows_of(*table);
    let mut row: usize = 0;
    while row < R
        invariant
            row <= R,
            g == rows_of(*table),
            is_rectangular(g, R as nat, C as nat),
            forall|r: int, c: int|
                0 <= r < row && 0 <= c < C ==> #[trigger] g[r][c] == DEAD || g[r][c] == ALIVE,
        decreases R - row,
    {
        let mut column: usize = 0;
        while column < C
            invariant
                row < R,
                column <= C,
                g == rows_of(*table),
                is_rectangular(g, R as nat, C as nat),
                forall|r: int, c: int|
                    0 <= r < row && 0 <= c < C ==> #[trigger] g[r][c] == DEAD || g[r][c] == ALIVE,
                forall|c: int|
                    0 <= c < column ==> #[trigger] g[row as int][c] == DEAD || g[row as int][c]
                        == ALIVE,
            decreases C - column,
        {
            let cell = table[row][column];
            assert(cell == g[row as int][column as int]);
            if cell != DEAD && cell != ALIVE {
                assert(in_bounds(g, row as int, column as int));
                return false;
            }
            column = column + 1;
        }
        row = row + 1;
    }
    true
}

} // verus!
