//! The table as lines of text, one line for each row.

use vstd::prelude::*;
use crate::grid::{lemma_rows_of_shape, rows_of, ALIVE};

verus! {

/// The filled square that stands for a live cell.
pub const LIVE_GLYPH: char = '\u{25A0}';

/// The blank that stands for a dead cell.
pub const DEAD_GLYPH: char = ' ';

/// The blank between two cells of a line.
pub const SEPARATOR: char = ' ';

/// `String::push` appends one character to the end of the string, and
/// that is what is claimed of it.
pub assume_specification[ String::push ](text: &mut String, ch: char)
    ensures
        final(text)@ == old(text)@.push(ch),
;

/// The character that a cell is drawn with.
pub open spec fn glyph(cell: i32) -> char {
    if cell == ALIVE {
        LIVE_GLYPH
    } else {
        DEAD_GLYPH
    }
}

/// The line that a row is drawn as: the glyphs of its cells from left to
/// right, with one [`SEPARATOR`] between each two of them.
pub open spec fn row_text(row: Seq<i32>) -> Seq<char> {
    Seq::new(
        if row.len() == 0 {
            0
        } else {
            (2 * row.len() - 1) as nat
        },
        |i: int|
            if i % 2 == 0 {
                glyph(row[i / 2])
            } else {
                SEPARATOR
            },
    )
}

/// The lines that a table is drawn as, from its first row to its last.
pub open spec fn table_text(g: Seq<Seq<i32>>) -> Seq<Seq<char>> {
    Seq::new(g.len(), |r: int| row_text(g[r]))
}

/// Gives the character that a cell is drawn with.
pub fn cell_glyph(cell: i32) -> (ch: char)
    ensures
        ch == glyph(cell),
{
    if cell == ALIVE {
        LIVE_GLYPH
    } else {
        DEAD_GLYPH
    }
}

/// Draws one row as a line of text, without a line end.
pub fn render_row<const C: usize>(row: &[i32; C]) -> (line: String)
    ensures
        line@ == row_text(row@),
{
    broadcast use vstd::array::array_len_matches_n;

    let mut line = String::new();
    let mut column: usize = 0;
    while column < C
        invariant
            column <= C,
            row@.len() == C,
            line@ == row_text(row@.take(column as int)),
        decreases C - column,
    {
        let ghost before = line@;
        if column > 0 {
            line.push(SEPARATOR);
        }
        line.push(cell_glyph(row[column]));
        proof {
            let done = row@.take(column as int);
            let next = row@.take(column + 1);
            assert(line@.len() == row_text(next).len());
            assert forall|i: int| 0 <= i < line@.len() implies line@[i] == row_text(next)[i] by {
                if i < before.len() {
                    assert(line@[i] == before[i]);
                    assert(done[i / 2] == next[i / 2]);
                }
            }
            assert(line@ =~= row_text(next));
        }
        column = column + 1;
    }
    assert(row@.take(column as int) =~= row@);
    line
}

/// Draws the table as lines of text, one for each row from the first to the
/// last, for a terminal to show below one another.
pub fn render_table<const R: usize, const C: usize>(table: &[[i32; C]; R]) -> (lines: Vec<String>)
    ensures
        lines@.len() == R,
        forall|r: int| 0 <= r < R ==> (#[trigger] lines@[r])@ == table_text(rows_of(*table))[r],
{
    proof {
        lemma_rows_of_shape(*table);
    }
    let mut lines: Vec<String> = Vec::new();
    let mut row: usize = 0;
    while row < R
        invariant
            row <= R,
            lines@.len() == row,
            forall|r: int| 0 <= r < row ==> (#[trigger] lines@[r])@ == row_text(table@[r]@),
        decreases R - row,
    {
        let line = render_row(&table[row]);
        lines.push(line);
        row = row + 1;
    }
    lines
}

} // verus!
