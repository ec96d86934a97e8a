//! Where the board lies in the window, and which cell a click falls on.

use vstd::prelude::*;

verus! {

/// The unit of all sizes in the window, in pixels.
pub const BLOCK: u32 = 64;

/// Width of the window.
pub const WIN_WIDTH: u32 = 19 * BLOCK;

/// Height of the window.
pub const WIN_HEIGHT: u32 = 12 * BLOCK;

/// Distance of the board from the left and the top edge of the window.
pub const BOARD_PAD: u32 = BLOCK;

/// Side of one square of the board.
pub const BOARD_SQUARE: u32 = 2 * BLOCK;

/// Side of the board.
pub const BOARD_SIZE: u32 = 5 * BOARD_SQUARE;

/// Distance between the board and the cards beside it.
pub const CARD_PAD: u32 = BLOCK;

/// Side of one square of a card.
pub const CARD_SQUARE: u32 = BLOCK / 2;

/// Left edge of the square of cell `pos`.
pub open spec fn square_left(pos: int) -> int {
    64 + 128 * (pos % 5)
}

/// Top edge of the square of cell `pos`.
pub open spec fn square_top(pos: int) -> int {
    64 + 128 * (pos / 5)
}

/// Whether the point lies on the board.
pub open spec fn on_board(x: int, y: int) -> bool {
    64 <= x < 704 && 64 <= y < 704
}

/// The top left corner of the square of a cell of the board.
pub fn square_origin(pos: u8) -> (r: (u32, u32))
    requires
        pos < 25,
    ensures
        r.0 == square_left(pos as int),
        r.1 == square_top(pos as int),
{
    let row = (pos / 5) as u32;
    let col = (pos % 5) as u32;
    (BOARD_PAD + BOARD_SQUARE * col, BOARD_PAD + BOARD_SQUARE * row)
}

/// The cell whose square holds the point clicked, or `None` for a click beside
/// the board.
pub fn get_pos_from_click(x: u32, y: u32) -> (r: Option<u32>)
    ensures
        r is Some <==> on_board(x as int, y as int),
        r matches Some(pos) ==> {
            &&& pos == (y - 64) / 128 * 5 + (x - 64) / 128
            &&& pos < 25
            &&& square_left(pos as int) <= x < square_left(pos as int) + 128
            &&& square_top(pos as int) <= y < square_top(pos as int) + 128
        },
{
    if (BOARD_PAD <= x && x < BOARD_PAD + BOARD_SIZE) && (BOARD_PAD <= y && y < BOARD_PAD
        + BOARD_SIZE) {
        let col = (x - BOARD_PAD) / BOARD_SQUARE;
        let row = (y - BOARD_PAD) / BOARD_SQUARE;
        Some(row * 5 + col)
    } else {
        None
    }
}

} // verus!
