//! How the snake lies when a game begins.
//!
//! The cells are numbered from 0. Cell `i` lies in row `i / width`, and each
//! row starts one column further to the left than the row above ends, so
//! that the snake runs on through the glued edge and every cell is next to
//! the one before it:
//!
//! ```text
//!  0  1  2  3
//!  5  6  7  4
//! 10 11  8  9
//! 15 12 13 14
//! ```

use crate::geometry::Position;
use vstd::arithmetic::div_mod::lemma_fundamental_div_mod;
use vstd::prelude::*;

verus! {

/// Where cell `i` of the first snake lies on a board `width` wide.
pub open spec fn initial_cell(i: int, width: int) -> Position {
    Position { x: ((i - i / width) % width) as u16, y: (i / width) as u16 }
}

/// The first snake of a game at `start_level`, from the tail to the head:
/// three cells, and one more for each level.
pub open spec fn initial_cells(start_level: int, width: int) -> Seq<Position> {
    Seq::new((start_level + 3) as nat, |i: int| initial_cell(i, width))
}

/// Cell `i` lies on the board while `i` is less than the number of cells of
/// the board.
pub proof fn lemma_initial_cell_on_board(i: int, width: int, height: int)
    requires
        1 <= width <= u16::MAX,
        1 <= height <= u16::MAX,
        0 <= i < width * height,
    ensures
        0 <= i / width < height,
        0 <= i / width <= i,
        0 <= (i - i / width) % width < width,
        initial_cell(i, width).within(width, height),
        initial_cell(i, width).x == (i - i / width) % width,
        initial_cell(i, width).y == i / width,
{
    lemma_fundamental_div_mod(i, width);
    assert(0 <= i / width < height && i / width <= i) by (nonlinear_arith)
        requires
            0 <= i < width * height,
            width >= 1,
            i == width * (i / width) + (i % width),
            0 <= i % width < width,
    ;
}

/// Two numbers that leave the same remainder and lie less than the divisor
/// apart are equal.
proof fn lemma_same_remainder(a: int, b: int, d: int)
    requires
        d >= 1,
        a % d == b % d,
        -d < a - b < d,
    ensures
        a == b,
{
    lemma_fundamental_div_mod(a, d);
    lemma_fundamental_div_mod(b, d);
    assert(a / d == b / d) by (nonlinear_arith)
        requires
            d >= 1,
            -d < a - b < d,
            a - b == d * (a / d) - d * (b / d),
    ;
}

/// No two cells of the first snake coincide.
pub proof fn lemma_initial_cells_apart(i: int, j: int, width: int, height: int)
    requires
        1 <= width <= u16::MAX,
        1 <= height <= u16::MAX,
        0 <= i < width * height,
        0 <= j < width * height,
        initial_cell(i, width) == initial_cell(j, width),
    ensures
        i == j,
{
    lemma_initial_cell_on_board(i, width, height);
    lemma_initial_cell_on_board(j, width, height);
    let row = i / width;
    lemma_fundamental_div_mod(i, width);
    lemma_fundamental_div_mod(j, width);
    assert(i - j == i % width - j % width);
    lemma_same_remainder(i - row, j - row, width);
}

/// The first snake lies on the board and on no cell twice.
pub proof fn lemma_initial_cells_in_order(start_level: int, width: int, height: int)
    requires
        1 <= width <= u16::MAX,
        1 <= height <= u16::MAX,
        0 <= start_level,
        start_level + 3 <= width * height,
    ensures
        initial_cells(start_level, width).len() == start_level + 3,
        initial_cells(start_level, width).no_duplicates(),
        forall|i: int|
            0 <= i < start_level + 3 ==> (#[trigger] initial_cells(start_level, width)[i]).within(
                width,
                height,
            ),
{
    let cells = initial_cells(start_level, width);
    assert forall|i: int, j: int| 0 <= i < cells.len() && 0 <= j < cells.len() && i != j implies cells[i]
        != cells[j] by {
        if cells[i] == cells[j] {
            lemma_initial_cells_apart(i, j, width, height);
        }
    }
    assert forall|i: int| 0 <= i < start_level + 3 implies (#[trigger] cells[i]).within(
        width,
        height,
    ) by {
        lemma_initial_cell_on_board(i, width, height);
    }
}

/// Lays out the first snake of a game. The board must hold it.
pub fn initial_snake_cells(start_level: u16, width: u16, height: u16) -> (cells: Vec<Position>)
    requires
        width >= 1,
        height >= 1,
        start_level + 3 <= width * height,
    ensures
        cells@ == initial_cells(start_level as int, width as int),
        cells@.no_duplicates(),
        forall|i: int|
            0 <= i < cells@.len() ==> (#[trigger] cells@[i]).within(width as int, height as int),
{
    let count: u32 = start_level as u32 + 3;
    let mut cells: Vec<Position> = Vec::new();
    let mut i: u32 = 0;
    while i < count
        invariant
            i <= count,
            count == start_level + 3,
            count <= width * height,
            width >= 1,
            height >= 1,
            cells@.len() == i,
            forall|j: int| 0 <= j < i ==> cells@[j] == initial_cell(j, width as int),
        decreases count - i,
    {
        proof {
            lemma_initial_cell_on_board(i as int, width as int, height as int);
        }
        let row: u32 = i / (width as u32);
        let cell = Position { x: ((i - row) % (width as u32)) as u16, y: row as u16 };
        cells.push(cell);
        i += 1;
    }
    proof {
        assert(cells@ =~= initial_cells(start_level as int, width as int));
        lemma_initial_cells_in_order(start_level as int, width as int, height as int);
    }
    cells
}

} // verus!
