//! The rule of the game, and the step from one generation to the next.

use vstd::prelude::*;
use crate::grid::{
    in_bounds, is_binary, is_lifeless, lemma_rows_of_shape, rows_of, ALIVE, DEAD,
};
use crate::neighbourhood::{
    get_cell_neighbourhood, lemma_live_neighbours_by_position, lemma_neighbourhood_is_binary,
    live_neighbours, neighbourhood_sum, state_or_zero,
};

verus! {

/// The state that a cell takes in the next generation, from its state now
/// and the number of its neighbours that are alive now.
pub open spec fn next_state(cell: i32, live: int) -> i32 {
    if cell == DEAD {
        if live == 3 {
            ALIVE
        } else {
            DEAD
        }
    } else {
        if live == 2 || live == 3 {
            ALIVE
        } else {
            DEAD
        }
    }
}

/// The generation that follows `g`: every cell takes its [`next_state`],
/// all of them counted on `g` itself.
pub open spec fn next_generation(g: Seq<Seq<i32>>) -> Seq<Seq<i32>> {
    Seq::new(
        g.len(),
        |r: int| Seq::new(g[r].len(), |c: int| next_state(g[r][c], live_neighbours(g, r, c))),
    )
}

/// The generation that `g` reaches after `n` steps.
pub open spec fn generations(g: Seq<Seq<i32>>, n: nat) -> Seq<Seq<i32>>
    decreases n,
{
    if n == 0 {
        g
    } else {
        next_generation(generations(g, (n - 1) as nat))
    }
}

/// Applies the rule to one cell.
///
/// A dead cell comes to life with exactly three live neighbours and stays
/// dead with any other number. A live cell stays alive with two or three
/// live neighbours and dies with any other number.
pub fn next_cell_state(cell: i32, live: i32) -> (next: i32)
    ensures
        next == next_state(cell, live as int),
        next == DEAD || next == ALIVE,
        cell == DEAD ==> (next == ALIVE <==> live == 3),
        cell == ALIVE ==> (next == ALIVE <==> live == 2 || live == 3),
{
    if cell == DEAD {
        if live == 3 {
            ALIVE
        } else {
            DEAD
        }
    } else {
        if live < 2 || live > 3 {
            DEAD
        } else {
            ALIVE
        }
    }
}

/// Replaces the table by its next generation.
///
/// Every cell is judged by the table as it was before the call, so the
/// result does not depend on the order in which the cells are visited.
pub fn advance_generation<const R: usize, const C: usize>(table: &mut [[i32; C]; R])
    requires
        is_binary(rows_of(*old(table))),
    ensures
        rows_of(*final(table)) == next_generation(rows_of(*old(table))),
        is_binary(rows_of(*final(table))),
{
    let before = *table;
    let ghost g = rows_of(before);
    proof {
        lemma_rows_of_shape(before);
    }
    let mut row: usize = 0;
    while row < R
        invariant
            row <= R,
            g == rows_of(before),
            is_binary(g),
            forall|r: int, c: int|
                0 <= r < row && 0 <= c < C ==> #[trigger] table@[r]@[c] == next_state(
                    g[r][c],
                    live_neighbours(g, r, c),
                ),
        decreases R - row,
    {
        let mut column: usize = 0;
        while column < C
            invariant
                row < R,
                column <= C,
                g == rows_of(before),
                is_binary(g),
                forall|r: int, c: int|
                    0 <= r < row && 0 <= c < C ==> #[trigger] table@[r]@[c] == next_state(
                        g[r][c],
                        live_neighbours(g, r, c),
                    ),
                forall|c: int|
                    0 <= c < column ==> #[trigger] table@[row as int]@[c] == next_state(
                        g[row as int][c],
                        live_neighbours(g, row as int, c),
                    ),
            decreases C - column,
        {
            proof {
                lemma_rows_of_shape(before);
                lemma_neighbourhood_is_binary(g, row as int, column as int);
            }
            let cells = get_cell_neighbourhood(&before, row, column);
            let live = neighbourhood_sum(&cells);
            table[row][column] = next_cell_state(before[row][column], live);
            column = column + 1;
        }
        row = row + 1;
    }
    proof {
        lemma_rows_of_shape(*table);
        let after = rows_of(*table);
        let expected = next_generation(g);
        assert(after.len() == expected.len());
        assert forall|r: int| 0 <= r < after.len() implies after[r] =~= expected[r] by {
            assert forall|c: int| 0 <= c < after[r].len() implies after[r][c] == expected[r][c] by {
                assert(after[r][c] == table@[r]@[c]);
            }
        }
        assert(after =~= expected);
        lemma_next_generation_is_binary(g);
    }
}

/// The next generation has the shape of the one before it, and each of its
/// cells is [`DEAD`] or [`ALIVE`], whatever the table held.
pub proof fn lemma_next_generation_is_binary(g: Seq<Seq<i32>>)
    ensures
        next_generation(g).len() == g.len(),
        forall|r: int| 0 <= r < g.len() ==> (#[trigger] next_generation(g)[r]).len() == g[r].len(),
        is_binary(next_generation(g)),
{
}

/// Replaces the table by the generation that it reaches after `count` steps.
pub fn advance_generations<const R: usize, const C: usize>(
    table: &mut [[i32; C]; R],
    count: usize,
)
    requires
        is_binary(rows_of(*old(table))),
    ensures
        rows_of(*final(table)) == generations(rows_of(*old(table)), count as nat),
        is_binary(rows_of(*final(table))),
{
    let ghost start = rows_of(*table);
    let mut done: usize = 0;
    while done < count
        invariant
            done <= count,
            is_binary(rows_of(*table)),
            rows_of(*table) == generations(start, done as nat),
        decreases count - done,
    {
        advance_generation(table);
        done = done + 1;
    }
}

/// `g1` and `g2` have the same cells, in the same states, at `(r, c)` and at
/// the eight positions around it.
pub open spec fn agree_around(g1: Seq<Seq<i32>>, g2: Seq<Seq<i32>>, r: int, c: int) -> bool {
    forall|i: int, j: int|
        r - 1 <= i <= r + 1 && c - 1 <= j <= c + 1 ==> #[trigger] in_bounds(g1, i, j) == in_bounds(
            g2,
            i,
            j,
        ) && (in_bounds(g1, i, j) ==> g1[i][j] == g2[i][j])
}

/// The next state of a cell depends on nothing but its own state and the
/// states of its neighbours: two tables that agree on the cell and around it
/// give it the same next state, whatever they hold elsewhere.
pub proof fn lemma_next_state_is_local(g1: Seq<Seq<i32>>, g2: Seq<Seq<i32>>, r: int, c: int)
    requires
        in_bounds(g1, r, c),
        agree_around(g1, g2, r, c),
    ensures
        in_bounds(g2, r, c),
        live_neighbours(g1, r, c) == live_neighbours(g2, r, c),
        next_generation(g1)[r][c] == next_generation(g2)[r][c],
{
    assert(in_bounds(g1, r, c) == in_bounds(g2, r, c));
    assert forall|i: int, j: int| r - 1 <= i <= r + 1 && c - 1 <= j <= c + 1 implies state_or_zero(
        g1,
        i,
        j,
    ) == state_or_zero(g2, i, j) by {
        assert(in_bounds(g1, i, j) == in_bounds(g2, i, j));
    }
    lemma_live_neighbours_by_position(g1, r, c);
    lemma_live_neighbours_by_position(g2, r, c);
}

/// A dead cell is alive in the next generation if exactly three of its
/// neighbours are alive, and dead otherwise.
pub proof fn lemma_dead_cell_rule(g: Seq<Seq<i32>>, r: int, c: int)
    requires
        in_bounds(g, r, c),
        g[r][c] == DEAD,
    ensures
        live_neighbours(g, r, c) == 3 ==> next_generation(g)[r][c] == ALIVE,
        live_neighbours(g, r, c) != 3 ==> next_generation(g)[r][c] == DEAD,
{
}

/// A live cell is alive in the next generation if two or three of its
/// neighbours are alive, and dead otherwise.
pub proof fn lemma_live_cell_rule(g: Seq<Seq<i32>>, r: int, c: int)
    requires
        in_bounds(g, r, c),
        g[r][c] == ALIVE,
    ensures
        live_neighbours(g, r, c) == 2 || live_neighbours(g, r, c) == 3 ==> next_generation(
            g,
        )[r][c] == ALIVE,
        live_neighbours(g, r, c) != 2 && live_neighbours(g, r, c) != 3 ==> next_generation(
            g,
        )[r][c] == DEAD,
{
}

/// A table without life is its own next generation.
pub proof fn lemma_lifeless_is_fixed(g: Seq<Seq<i32>>)
    requires
        is_lifeless(g),
    ensures
        next_generation(g) == g,
{
    let next = next_generation(g);
    assert forall|r: int| 0 <= r < g.len() implies next[r] =~= g[r] by {
        assert forall|c: int| 0 <= c < g[r].len() implies next[r][c] == g[r][c] by {
            assert(in_bounds(g, r, c));
            assert forall|i: int, j: int| #[trigger] state_or_zero(g, i, j) == 0 by {
                if in_bounds(g, i, j) {
                    assert(g[i][j] == DEAD);
                }
            }
            lemma_live_neighbours_by_position(g, r, c);
        }
    }
    assert(next =~= g);
}

/// A table without life stays as it is through any number of generations.
pub proof fn lemma_lifeless_stays_lifeless(g: Seq<Seq<i32>>, n: nat)
    requires
        is_lifeless(g),
    ensures
        generations(g, n) == g,
    decreases n,
{
    if n > 0 {
        lemma_lifeless_stays_lifeless(g, (n - 1) as nat);
        lemma_lifeless_is_fixed(g);
    }
}

/// Nothing but the table passes from one step to the next: `m` steps
/// followed by `n` steps reach the generation that `m + n` steps reach.
pub proof fn lemma_generations_compose(g: Seq<Seq<i32>>, m: nat, n: nat)
    ensures
        generations(generations(g, m), n) == generations(g, m + n),
    decreases n,
{
    if n > 0 {
        lemma_generations_compose(g, m, (n - 1) as nat);
        assert((m + n - 1) as nat == m + (n - 1) as nat);
    }
}

/// Two steps at once reach what one step after another reaches.
pub proof fn lemma_two_generations(g: Seq<Seq<i32>>)
    ensures
        generations(g, 2) == next_generation(next_generation(g)),
{
    reveal_with_fuel(generations, 3);
}

} // verus!
