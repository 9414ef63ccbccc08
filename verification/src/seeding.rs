//! The random population that a table starts with.

use vstd::prelude::*;
use rand::rngs::ThreadRng;
use crate::grid::{in_bounds, is_binary, lemma_rows_of_shape, rows_of, ALIVE, DEAD};

verus! {

/// The least number that is drawn for a cell.
pub const DRAW_MIN: i32 = 0;

/// The greatest number that is drawn for a cell.
pub const DRAW_MAX: i32 = 9;

/// The one drawn number that brings a cell to life.
pub const DRAW_ALIVE: i32 = 0;

/// The generator of `rand` that each thread has for itself. Nothing is known
/// of what it holds.
#[verifier::external_type_specification]
#[verifier::external_body]
pub struct ExThreadRng(ThreadRng);

/// Calls `rand::thread_rng`, which hands out the generator of the current
/// thread. Nothing is claimed of the generator. The call fails only if the
/// operating system gives no entropy to seed it with.
#[verifier::external_body]
fn thread_generator() -> ThreadRng {
    rand::thread_rng()
}

/// Calls `rand::Rng::gen_range` on the inclusive range from `low` to `high`.
/// Which number comes back is left open; the claim is only that it lies in
/// the range, as the sampler for integers returns `low` plus an offset below
/// the size of the range. An empty range, on which the call panics, is left
/// out.
#[verifier::external_body]
fn draw_in_range(generator: &mut ThreadRng, low: i32, high: i32) -> (drawn: i32)
    requires
        low <= high,
    ensures
        low <= drawn <= high,
{
    rand::Rng::gen_range(generator, low..=high)
}

/// The state that a drawn number gives a cell.
pub open spec fn seeded_state(drawn: i32) -> i32 {
    if drawn == DRAW_ALIVE {
        ALIVE
    } else {
        DEAD
    }
}

/// Turns a drawn number into the state of a cell: [`DRAW_ALIVE`] gives
/// [`ALIVE`], every other number [`DEAD`].
pub fn seed_state(drawn: i32) -> (state: i32)
    ensures
        state == seeded_state(drawn),
        state == DEAD || state == ALIVE,
{
    if drawn == DRAW_ALIVE {
        ALIVE
    } else {
        DEAD
    }
}

/// Populates the table at random.
///
/// For each cell a number from [`DRAW_MIN`] to [`DRAW_MAX`] is drawn, apart
/// from all the others, and [`seed_state`] turns it into the state of the
/// cell. Whatever is drawn, every cell ends up [`DEAD`] or [`ALIVE`].
pub fn initialize_table<const R: usize, const C: usize>(table: &mut [[i32; C]; R])
    ensures
        is_binary(rows_of(*final(table))),
{
    let mut generator = thread_generator();
    let mut row: usize = 0;
    while row < R
        invariant
            row <= R,
            forall|r: int, c: int|
                0 <= r < row && 0 <= c < C ==> #[trigger] table@[r]@[c] == DEAD || table@[r]@[c]
                    == ALIVE,
        decreases R - row,
    {
        let mut column: usize = 0;
        while column < C
            invariant
                row < R,
                column <= C,
                forall|r: int, c: int|
                    0 <= r < row && 0 <= c < C ==> #[trigger] table@[r]@[c] == DEAD
                        || table@[r]@[c] == ALIVE,
                forall|c: int|
                    0 <= c < column ==> #[trigger] table@[row as int]@[c] == DEAD
                        || table@[row as int]@[c] == ALIVE,
            decreases C - column,
        {
            let drawn = draw_in_range(&mut generator, DRAW_MIN, DRAW_MAX);
            table[row][column] = seed_state(drawn);
            column = column + 1;
        }
        row = row + 1;
    }
    proof {
        lemma_rows_of_shape(*table);
        let g = rows_of(*table);
        assert forall|r: int, c: int| in_bounds(g, r, c) implies #[trigger] g[r][c] == DEAD
            || g[r][c] == ALIVE by {
            assert(g[r][c] == table@[r]@[c]);
        }
    }
}

} // verus!
