//! The size of the terminal and the board that fits into it.

use vstd::prelude::*;

verus! {

/// `term_size::dimensions`: the columns and rows of the terminal that the
/// process is attached to, if it is attached to one. Nothing is claimed of
/// the answer: it is the terminal's.
pub assume_specification[ term_size::dimensions ]() -> (size: Option<(usize, usize)>)
;

/// The width that a frame is drawn for when the terminal does not tell its
/// own.
pub const FALLBACK_WIDTH: u16 = 40;

/// The board for a terminal of `columns` by `rows`: a cell takes two
/// columns, and the bottom row is kept for the status line. There is none
/// unless that leaves at least one cell, and none either on a terminal too
/// large for 16 bits to count its cells either way.
pub open spec fn board_spec(columns: int, rows: int) -> Option<(u16, u16)> {
    if 1 <= columns / 2 <= u16::MAX && 1 <= rows - 1 <= u16::MAX {
        Some(((columns / 2) as u16, (rows - 1) as u16))
    } else {
        None
    }
}

/// The width to draw a frame for on a terminal that reports `size`.
pub open spec fn frame_width_spec(size: Option<(usize, usize)>) -> u16 {
    match size {
        Some((columns, _)) => if columns <= u16::MAX {
            columns as u16
        } else {
            u16::MAX
        },
        None => FALLBACK_WIDTH,
    }
}

/// The board for a terminal of `columns` by `rows`.
pub fn board_size(columns: usize, rows: usize) -> (board: Option<(u16, u16)>)
    ensures
        board == board_spec(columns as int, rows as int),
{
    let width = columns / 2;
    if width < 1 || width > 65535 || rows < 2 || rows - 1 > 65535 {
        None
    } else {
        Some((width as u16, (rows - 1) as u16))
    }
}

/// The width to draw a frame for on a terminal that reports `size`: its
/// columns, as far as 16 bits count them, or the fallback.
pub fn frame_width(size: Option<(usize, usize)>) -> (width: u16)
    ensures
        width == frame_width_spec(size),
{
    match size {
        Some((columns, _)) => {
            if columns <= 65535 {
                columns as u16
            } else {
                65535
            }
        },
        None => FALLBACK_WIDTH,
    }
}

/// The board that fits the terminal, in cells: what `board_of` makes of the
/// terminal's answer. There is none without a terminal or room for a cell.
pub fn get_terminal_size() -> (board: Option<(u16, u16)>)
    ensures
        board matches Some((width, height)) ==> width >= 1 && height >= 1,
{
    let size = term_size::dimensions();
    let board = board_of(size);
    board
}

/// The board for a terminal that reports `size`: none where it reports
/// none, else the board for its columns and rows.
pub open spec fn board_of_spec(size: Option<(usize, usize)>) -> Option<(u16, u16)> {
    match size {
        Some((columns, rows)) => board_spec(columns as int, rows as int),
        None => None,
    }
}

/// The board for a terminal that reports `size`.
pub fn board_of(size: Option<(usize, usize)>) -> (board: Option<(u16, u16)>)
    ensures
        board == board_of_spec(size),
        board matches Some((width, height)) ==> width >= 1 && height >= 1,
{
    match size {
        Some((columns, rows)) => board_size(columns, rows),
        None => None,
    }
}

} // verus!
