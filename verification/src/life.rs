//! The Game of Life on the board: one generation at a time, with the
//! standard rule and hard edges.

use vstd::prelude::*;
use crate::config::ROW_COUNT;
use crate::state::{alive, cell, cell_value, in_grid, is_binary, LEDState};

verus! {

/// One for a live cell, nothing for a dead one.
pub open spec fn head_count(lit: bool) -> nat {
    if lit {
        1
    } else {
        0
    }
}

/// How many of the up to eight cells around `(row, col)` are alive. The
/// grid does not wrap: a cell on an edge has fewer neighbours.
pub open spec fn live_neighbours(state: LEDState, row: int, col: int) -> nat {
    head_count(alive(state, row - 1, col - 1)) + head_count(alive(state, row - 1, col))
        + head_count(alive(state, row - 1, col + 1)) + head_count(alive(state, row, col - 1))
        + head_count(alive(state, row, col + 1)) + head_count(alive(state, row + 1, col - 1))
        + head_count(alive(state, row + 1, col)) + head_count(alive(state, row + 1, col + 1))
}

/// The cell at `(row, col)` is alive in the generation after `state`: a live
/// cell stays alive with two or three live neighbours, a dead cell comes
/// alive with exactly three.
pub open spec fn lives_on(state: LEDState, row: int, col: int) -> bool {
    let around = live_neighbours(state, row, col);
    if alive(state, row, col) {
        around == 2 || around == 3
    } else {
        around == 3
    }
}

/// `after` is the generation that follows `before`.
pub open spec fn is_next_generation(after: LEDState, before: LEDState) -> bool {
    forall|row: int, col: int|
        in_grid(row, col) ==> #[trigger] cell(after, row, col) == cell_value(
            lives_on(before, row, col),
        )
}

/// No cell of the board is alive.
pub open spec fn is_terminal(state: LEDState) -> bool {
    forall|row: int, col: int| in_grid(row, col) ==> !#[trigger] alive(state, row, col)
}

/// Whether the cell at `(row, col)` is alive, for coordinates on or off the
/// grid.
fn alive_at(state: &LEDState, row: i32, col: i32) -> (lit: bool)
    ensures
        lit == alive(*state, row as int, col as int),
{
    0 <= row && row < ROW_COUNT as i32 && 0 <= col && col < ROW_COUNT as i32
        && state[row as usize][col as usize] != 0
}

/// Counts the live cells around `(row, col)`.
fn count_live_neighbours(state: &LEDState, row: usize, col: usize) -> (around: u8)
    requires
        in_grid(row as int, col as int),
    ensures
        around == live_neighbours(*state, row as int, col as int),
{
    let r: i32 = row as i32;
    let c: i32 = col as i32;
    let mut around: u8 = 0;
    if alive_at(state, r - 1, c - 1) {
        around += 1;
    }
    if alive_at(state, r - 1, c) {
        around += 1;
    }
    if alive_at(state, r - 1, c + 1) {
        around += 1;
    }
    if alive_at(state, r, c - 1) {
        around += 1;
    }
    if alive_at(state, r, c + 1) {
        around += 1;
    }
    if alive_at(state, r + 1, c - 1) {
        around += 1;
    }
    if alive_at(state, r + 1, c) {
        around += 1;
    }
    if alive_at(state, r + 1, c + 1) {
        around += 1;
    }
    around
}

/// Whether the board is dead: no cell is alive.
pub fn done(state: &LEDState) -> (dead: bool)
    ensures
        dead == is_terminal(*state),
{
    let mut row: usize = 0;
    while row < ROW_COUNT
        invariant
            row <= ROW_COUNT,
            forall|r: int, c: int| in_grid(r, c) && r < row ==> !#[trigger] alive(*state, r, c),
        decreases ROW_COUNT - row,
    {
        let mut col: usize = 0;
        while col < ROW_COUNT
            invariant
                row < ROW_COUNT,
                col <= ROW_COUNT,
                forall|r: int, c: int|
                    in_grid(r, c) && (r < row || (r == row && c < col)) ==> !#[trigger] alive(
                        *state,
                        r,
                        c,
                    ),
            decreases ROW_COUNT - col,
        {
            if state[row][col] != 0 {
                assert(alive(*state, row as int, col as int));
                return false;
            }
            col += 1;
        }
        row += 1;
    }
    true
}

/// Replaces the board by its next generation. Every cell of the new
/// generation is decided by the old one alone. Nothing is born on a dead
/// board.
pub fn life(state: &mut LEDState)
    ensures
        is_next_generation(*final(state), *old(state)),
        is_binary(*final(state)),
        is_terminal(*old(state)) ==> is_terminal(*final(state)),
{
    let previous: LEDState = *state;
    let mut row: usize = 0;
    while row < ROW_COUNT
        invariant
            row <= ROW_COUNT,
            previous == *old(state),
            forall|r: int, c: int|
                in_grid(r, c) && r < row ==> #[trigger] cell(*state, r, c) == cell_value(
                    lives_on(previous, r, c),
                ),
        decreases ROW_COUNT - row,
    {
        let mut col: usize = 0;
        while col < ROW_COUNT
            invariant
                row < ROW_COUNT,
                col <= ROW_COUNT,
                previous == *old(state),
                forall|r: int, c: int|
                    in_grid(r, c) && (r < row || (r == row && c < col)) ==> #[trigger] cell(
                        *state,
                        r,
                        c,
                    ) == cell_value(lives_on(previous, r, c)),
            decreases ROW_COUNT - col,
        {
            let around: u8 = count_live_neighbours(&previous, row, col);
            let lit: bool = if previous[row][col] != 0 {
                around == 2 || around == 3
            } else {
                around == 3
            };
            let ghost before = *state;
            state[row][col] = if lit {
                1
            } else {
                0
            };
            assert forall|r: int, c: int|
                in_grid(r, c) && (r < row || (r == row && c < col + 1)) implies #[trigger] cell(
                *state,
                r,
                c,
            ) == cell_value(lives_on(previous, r, c)) by {
                if r == row && c == col {
                } else {
                    assert(cell(*state, r, c) == cell(before, r, c));
                }
            }
            col += 1;
        }
        row += 1;
    }
    proof {
        if is_terminal(previous) {
            lemma_dead_board_stays_dead(*state, previous);
        }
    }
}

/// Nothing is born on a dead board: its next generation is dead too.
pub proof fn lemma_dead_board_stays_dead(after: LEDState, before: LEDState)
    requires
        is_terminal(before),
        is_next_generation(after, before),
    ensures
        is_terminal(after),
{
    assert forall|row: int, col: int| in_grid(row, col) implies !#[trigger] alive(
        after,
        row,
        col,
    ) by {
        assert(live_neighbours(before, row, col) == 0);
        assert(cell(after, row, col) == cell_value(lives_on(before, row, col)));
    }
}

} // verus!
