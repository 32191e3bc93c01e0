//! The board: a 5x5 grid of cells, and the two ways of replacing it wholesale.

use vstd::prelude::*;
use crate::config::{LED_COUNT, ROW_COUNT};

verus! {

/// One value per LED, row by row. Zero is a dead cell; any other value is a
/// live cell, and the board's own operations only ever write one.
pub type LEDState = [[u8; ROW_COUNT]; ROW_COUNT];

/// `(row, col)` names a cell of the grid.
pub open spec fn in_grid(row: int, col: int) -> bool {
    0 <= row < ROW_COUNT && 0 <= col < ROW_COUNT
}

/// The value stored for the cell at `(row, col)`.
pub open spec fn cell(state: LEDState, row: int, col: int) -> u8 {
    state[row][col]
}

/// The cell at `(row, col)` is alive. There are no cells beyond the edges of
/// the grid, so nothing is alive there.
pub open spec fn alive(state: LEDState, row: int, col: int) -> bool {
    in_grid(row, col) && cell(state, row, col) != 0
}

/// Every cell holds zero or one.
pub open spec fn is_binary(state: LEDState) -> bool {
    forall|row: int, col: int| in_grid(row, col) ==> #[trigger] cell(state, row, col) <= 1
}

/// The value that a cell takes for being alive or dead.
pub open spec fn cell_value(lit: bool) -> u8 {
    if lit {
        1
    } else {
        0
    }
}

/// The bits of a draw that decide the board: one for each cell.
pub const LOW_BITS: u32 = 0x01ff_ffff;

/// Bit `index` of `draw` is set.
pub open spec fn bit_set(draw: u32, index: nat) -> bool {
    (draw >> index) & 1 == 1
}

/// The position of the cell at `(row, col)` when the cells are numbered row
/// by row from the top left.
pub open spec fn cell_index(row: int, col: int) -> nat {
    (row * ROW_COUNT + col) as nat
}

/// `state` is the board that `draw` describes: the cell numbered `i` is alive
/// exactly if bit `i` of `draw` is set. Only the low 25 bits matter.
pub open spec fn is_drawn_from(state: LEDState, draw: u32) -> bool {
    forall|row: int, col: int|
        in_grid(row, col) ==> #[trigger] cell(state, row, col) == cell_value(
            bit_set(draw, cell_index(row, col)),
        )
}

/// Each cell of `after` is the cell of `before` with its lowest bit flipped.
pub open spec fn is_complement_of(after: LEDState, before: LEDState) -> bool {
    forall|row: int, col: int|
        in_grid(row, col) ==> #[trigger] cell(after, row, col) == cell(before, row, col) ^ 1
}

/// Exactly the cells that are dead in `before` are alive in `after`.
pub open spec fn is_inverse_of(after: LEDState, before: LEDState) -> bool {
    forall|row: int, col: int|
        in_grid(row, col) ==> (#[trigger] alive(after, row, col) <==> !alive(before, row, col))
}

/// Two boards that agree in every cell are the same board.
pub proof fn lemma_same_cells_same_board(first: LEDState, second: LEDState)
    requires
        forall|row: int, col: int|
            in_grid(row, col) ==> #[trigger] cell(first, row, col) == cell(second, row, col),
    ensures
        first == second,
{
    assert forall|row: int| 0 <= row < ROW_COUNT implies first[row] == second[row] by {
        assert forall|col: int| 0 <= col < ROW_COUNT implies first[row][col]
            == second[row][col] by {
            assert(cell(first, row, col) == cell(second, row, col));
        }
        assert(first[row] =~= second[row]);
    }
    assert(first =~= second);
}

proof fn lemma_low_bit(draw: u32, index: u32)
    by (bit_vector)
    requires
        index < 32,
    ensures
        (draw >> index) & 1 == 0 || (draw >> index) & 1 == 1,
{
}

proof fn lemma_flip_low_bit(value: u8)
    by (bit_vector)
    ensures
        value == 0 ==> value ^ 1 == 1,
        value == 1 ==> value ^ 1 == 0,
        (value ^ 1) ^ 1 == value,
{
}

proof fn lemma_low_bits_agree(first: u32, second: u32, index: u32)
    by (bit_vector)
    requires
        index < 25,
        first & LOW_BITS == second & LOW_BITS,
    ensures
        (first >> index) & 1 == (second >> index) & 1,
{
}

/// Fills the board from one random draw: bit `i` of `random_number` decides
/// the cell numbered `i`, counting row by row from the top left.
pub fn randomize_state(random_number: u32, state: &mut LEDState)
    ensures
        is_drawn_from(*final(state), random_number),
        is_binary(*final(state)),
{
    let mut i: usize = 0;
    while i < LED_COUNT
        invariant
            i <= LED_COUNT,
            forall|row: int, col: int|
                in_grid(row, col) && cell_index(row, col) < i ==> #[trigger] cell(
                    *state,
                    row,
                    col,
                ) == cell_value(bit_set(random_number, cell_index(row, col))),
        decreases LED_COUNT - i,
    {
        let row: usize = i / ROW_COUNT;
        let col: usize = i % ROW_COUNT;
        let bit: u32 = (random_number >> i) & 1;
        proof {
            lemma_low_bit(random_number, i as u32);
        }
        let ghost before = *state;
        state[row][col] = bit as u8;
        assert forall|r: int, c: int|
            in_grid(r, c) && cell_index(r, c) < i + 1 implies #[trigger] cell(*state, r, c)
            == cell_value(bit_set(random_number, cell_index(r, c))) by {
            if r == row && c == col {
            } else {
                assert(cell(*state, r, c) == cell(before, r, c));
            }
        }
        i += 1;
    }
}

/// Turns every live cell dead and every dead cell alive, by flipping the
/// lowest bit of each cell's value.
pub fn complement_state(state: &mut LEDState)
    ensures
        is_complement_of(*final(state), *old(state)),
{
    let mut row: usize = 0;
    while row < ROW_COUNT
        invariant
            row <= ROW_COUNT,
            forall|r: int, c: int|
                in_grid(r, c) ==> #[trigger] cell(*state, r, c) == if r < row {
                    cell(*old(state), r, c) ^ 1
                } else {
                    cell(*old(state), r, c)
                },
        decreases ROW_COUNT - row,
    {
        let mut col: usize = 0;
        while col < ROW_COUNT
            invariant
                row < ROW_COUNT,
                col <= ROW_COUNT,
                forall|r: int, c: int|
                    in_grid(r, c) ==> #[trigger] cell(*state, r, c) == if r < row || (r == row
                        && c < col) {
                        cell(*old(state), r, c) ^ 1
                    } else {
                        cell(*old(state), r, c)
                    },
            decreases ROW_COUNT - col,
        {
            let ghost before = *state;
            state[row][col] ^= 1;
            assert forall|r: int, c: int| in_grid(r, c) implies #[trigger] cell(*state, r, c)
                == if r < row || (r == row && c < col + 1) {
                cell(*old(state), r, c) ^ 1
            } else {
                cell(*old(state), r, c)
            } by {
                if r == row && c == col {
                    assert(cell(*state, r, c) == cell(before, r, c) ^ 1);
                } else {
                    assert(cell(*state, r, c) == cell(before, r, c));
                }
            }
            col += 1;
        }
        row += 1;
    }
}

/// On a board of zeros and ones the complement is again such a board, and
/// exactly the dead cells have come alive.
pub proof fn lemma_complement_inverts(after: LEDState, before: LEDState)
    requires
        is_complement_of(after, before),
        is_binary(before),
    ensures
        is_binary(after),
        is_inverse_of(after, before),
{
    assert forall|row: int, col: int| in_grid(row, col) implies #[trigger] cell(after, row, col)
        <= 1 && (alive(after, row, col) <==> !alive(before, row, col)) by {
        lemma_flip_low_bit(cell(before, row, col));
    }
}

/// Complementing a board twice gives the board back.
pub proof fn lemma_complement_twice_restores(twice: LEDState, once: LEDState, before: LEDState)
    requires
        is_complement_of(once, before),
        is_complement_of(twice, once),
    ensures
        twice == before,
{
    assert forall|row: int, col: int| in_grid(row, col) implies #[trigger] cell(twice, row, col)
        == cell(before, row, col) by {
        assert(cell(once, row, col) == cell(before, row, col) ^ 1);
        lemma_flip_low_bit(cell(before, row, col));
    }
    lemma_same_cells_same_board(twice, before);
}

/// Only the low 25 bits of a draw matter: two draws that agree in them
/// describe the same board.
pub proof fn lemma_low_bits_decide_the_board(
    first: LEDState,
    second: LEDState,
    first_draw: u32,
    second_draw: u32,
)
    requires
        is_drawn_from(first, first_draw),
        is_drawn_from(second, second_draw),
        first_draw & LOW_BITS == second_draw & LOW_BITS,
    ensures
        first == second,
{
    assert forall|row: int, col: int| in_grid(row, col) implies #[trigger] cell(first, row, col)
        == cell(second, row, col) by {
        lemma_low_bits_agree(first_draw, second_draw, cell_index(row, col) as u32);
        assert(cell(second, row, col) == cell_value(bit_set(second_draw, cell_index(row, col))));
    }
    lemma_same_cells_same_board(first, second);
}

} // verus!
