//! Where new food goes: a free cell, drawn at random.
//!
//! A cell of the board is drawn, and drawn again while the snake lies on
//! it. On a board that the snake all but fills this could go on for long,
//! so the draws are counted. When they run out, the free cells are counted
//! off in reading order, row by row from the top, one number is drawn below
//! their count, and the food goes to the free cell with that number.
//! Either way every free cell is as likely as any other.

use crate::geometry::Position;
use crate::snake::Snake;
use rand::rngs::ThreadRng;
use rand::Rng;
use vstd::arithmetic::div_mod::lemma_fundamental_div_mod_converse;
use vstd::prelude::*;

verus! {

/// The cell with number `i` in reading order on a board `width` wide.
pub open spec fn cell_at(i: int, width: int) -> Position {
    Position { x: (i % width) as u16, y: (i / width) as u16 }
}

/// The number of a cell in reading order.
pub open spec fn index_of(p: Position, width: int) -> int {
    p.y * width + p.x
}

/// How many cells with number `i` or more are free of the body.
pub open spec fn free_from(cells: Seq<Position>, width: int, height: int, i: int) -> nat
    decreases width * height - i,
{
    if i < 0 || i >= width * height {
        0
    } else if cells.contains(cell_at(i, width)) {
        free_from(cells, width, height, i + 1)
    } else {
        1 + free_from(cells, width, height, i + 1)
    }
}

/// How many cells of the board are free of the body.
pub open spec fn free_cells(cells: Seq<Position>, width: int, height: int) -> nat {
    free_from(cells, width, height, 0)
}

/// The free cell that has `k` free cells between the cell with number `i`
/// and itself, that one counted. Where there is none, the first cell.
pub open spec fn nth_free_from(
    cells: Seq<Position>,
    width: int,
    height: int,
    i: int,
    k: nat,
) -> Position
    decreases width * height - i,
{
    if i < 0 || i >= width * height {
        cell_at(0, width)
    } else if cells.contains(cell_at(i, width)) {
        nth_free_from(cells, width, height, i + 1, k)
    } else if k == 0 {
        cell_at(i, width)
    } else {
        nth_free_from(cells, width, height, i + 1, (k - 1) as nat)
    }
}

/// The free cell with `k` free cells before it in reading order.
pub open spec fn nth_free(cells: Seq<Position>, width: int, height: int, k: nat) -> Position {
    nth_free_from(cells, width, height, 0, k)
}

/// A cell of the board is the cell at its own number, and no other number
/// of the board leads to it.
pub proof fn lemma_index_of_cell(p: Position, width: int, height: int)
    requires
        1 <= width <= 65536,
        1 <= height <= 65536,
        p.within(width, height),
    ensures
        0 <= index_of(p, width) < width * height,
        cell_at(index_of(p, width), width) == p,
        forall|j: int| 0 <= j < width * height && cell_at(j, width) == p ==> j == index_of(p, width),
{
    let i = index_of(p, width);
    assert(0 <= p.y * width && p.y * width + width <= width * height) by (nonlinear_arith)
        requires
            0 <= p.y < height,
            width >= 1,
    ;
    lemma_fundamental_div_mod_converse(i, width, p.y as int, p.x as int);
    assert forall|j: int| 0 <= j < width * height && cell_at(j, width) == p implies j == i by {
        lemma_cell_on_board(j, width, height);
        vstd::arithmetic::div_mod::lemma_fundamental_div_mod(j, width);
        assert(width * (j / width) == (j / width) * width) by (nonlinear_arith);
    }
}

/// Every number of the board leads to a cell of the board.
pub proof fn lemma_cell_on_board(j: int, width: int, height: int)
    requires
        width >= 1,
        height >= 1,
        0 <= j < width * height,
    ensures
        0 <= j % width < width,
        0 <= j / width < height,
        height <= 65536 && width <= 65536 ==> cell_at(j, width).within(width, height)
            && cell_at(j, width).x == j % width && cell_at(j, width).y == j / width,
{
    vstd::arithmetic::div_mod::lemma_fundamental_div_mod(j, width);
    assert(0 <= j / width < height) by (nonlinear_arith)
        requires
            0 <= j < width * height,
            width >= 1,
            j == width * (j / width) + (j % width),
            0 <= j % width < width,
    ;
}

/// Taking one more cell of the board into the body costs one free cell
/// from its number down, and none above.
proof fn lemma_free_from_push(
    cells: Seq<Position>,
    p: Position,
    width: int,
    height: int,
    i: int,
)
    requires
        1 <= width <= 65536,
        1 <= height <= 65536,
        p.within(width, height),
        !cells.contains(p),
        0 <= i <= width * height,
    ensures
        free_from(cells, width, height, i) == free_from(cells.push(p), width, height, i) + (if i
            <= index_of(p, width) {
            1nat
        } else {
            0nat
        }),
    decreases width * height - i,
{
    lemma_index_of_cell(p, width, height);
    if i < width * height {
        lemma_free_from_push(cells, p, width, height, i + 1);
        crate::snake::lemma_push_contains(cells, p, cell_at(i, width));
        if cell_at(i, width) == p {
            assert(i == index_of(p, width));
        }
    }
}

/// With no body, every cell is free.
proof fn lemma_free_from_empty(width: int, height: int, i: int)
    requires
        0 <= i <= width * height,
    ensures
        free_from(Seq::<Position>::empty(), width, height, i) == width * height - i,
    decreases width * height - i,
{
    if i < width * height {
        lemma_free_from_empty(width, height, i + 1);
    }
}

/// The free cells and the body make up the board.
pub proof fn lemma_free_count(cells: Seq<Position>, width: int, height: int)
    requires
        1 <= width <= 65536,
        1 <= height <= 65536,
        cells.no_duplicates(),
        forall|i: int| 0 <= i < cells.len() ==> (#[trigger] cells[i]).within(width, height),
    ensures
        free_cells(cells, width, height) + cells.len() == width * height,
    decreases cells.len(),
{
    if cells.len() == 0 {
        assert(cells =~= Seq::<Position>::empty());
        lemma_free_from_empty(width, height, 0);
    } else {
        let rest = cells.drop_last();
        let p = cells.last();
        assert(cells =~= rest.push(p));
        if rest.contains(p) {
            let j = choose|j: int| 0 <= j < rest.len() && rest[j] == p;
            assert(cells[j] == cells[cells.len() - 1]);
        }
        assert forall|i: int| 0 <= i < rest.len() implies (#[trigger] rest[i]).within(
            width,
            height,
        ) by {
            assert(rest[i] == cells[i]);
        }
        lemma_free_count(rest, width, height);
        lemma_index_of_cell(p, width, height);
        lemma_free_from_push(rest, p, width, height, 0);
    }
}

/// While fewer than the free cells from `i` on are skipped, the cell that
/// is reached is free and lies on the board.
pub proof fn lemma_nth_free_is_free(
    cells: Seq<Position>,
    width: int,
    height: int,
    i: int,
    k: nat,
)
    requires
        1 <= width <= 65536,
        1 <= height <= 65536,
        0 <= i,
        k < free_from(cells, width, height, i),
    ensures
        !cells.contains(nth_free_from(cells, width, height, i, k)),
        nth_free_from(cells, width, height, i, k).within(width, height),
        i <= index_of(nth_free_from(cells, width, height, i, k), width) < width * height,
    decreases width * height - i,
{
    if i < width * height {
        lemma_cell_on_board(i, width, height);
        lemma_index_of_cell(cell_at(i, width), width, height);
        if cells.contains(cell_at(i, width)) {
            lemma_nth_free_is_free(cells, width, height, i + 1, k);
        } else if k > 0 {
            lemma_nth_free_is_free(cells, width, height, i + 1, (k - 1) as nat);
        }
    }
}

/// The cell at a number of the board has that number.
proof fn lemma_cell_at_index(i: int, width: int, height: int)
    requires
        1 <= width <= 65536,
        1 <= height <= 65536,
        0 <= i < width * height,
    ensures
        index_of(cell_at(i, width), width) == i,
{
    lemma_cell_on_board(i, width, height);
    lemma_index_of_cell(cell_at(i, width), width, height);
}

/// Free cells with different numbers are different cells: the one with
/// the smaller number comes first in reading order.
pub proof fn lemma_nth_free_ordered(
    cells: Seq<Position>,
    width: int,
    height: int,
    i: int,
    k1: nat,
    k2: nat,
)
    requires
        1 <= width <= 65536,
        1 <= height <= 65536,
        0 <= i,
        k1 < k2 < free_from(cells, width, height, i),
    ensures
        index_of(nth_free_from(cells, width, height, i, k1), width) < index_of(
            nth_free_from(cells, width, height, i, k2),
            width,
        ),
        nth_free_from(cells, width, height, i, k1) != nth_free_from(cells, width, height, i, k2),
    decreases width * height - i,
{
    if i < width * height {
        if cells.contains(cell_at(i, width)) {
            lemma_nth_free_ordered(cells, width, height, i + 1, k1, k2);
        } else if k1 == 0 {
            lemma_cell_at_index(i, width, height);
            lemma_nth_free_is_free(cells, width, height, i + 1, (k2 - 1) as nat);
        } else {
            lemma_nth_free_ordered(
                cells,
                width,
                height,
                i + 1,
                (k1 - 1) as nat,
                (k2 - 1) as nat,
            );
        }
    }
}

/// The number under which a free cell is counted from the cell with
/// number `i` on.
proof fn lemma_free_cell_number(
    cells: Seq<Position>,
    width: int,
    height: int,
    i: int,
    p: Position,
) -> (k: nat)
    requires
        1 <= width <= 65536,
        1 <= height <= 65536,
        p.within(width, height),
        !cells.contains(p),
        0 <= i <= index_of(p, width),
    ensures
        k < free_from(cells, width, height, i),
        nth_free_from(cells, width, height, i, k) == p,
    decreases index_of(p, width) - i,
{
    lemma_index_of_cell(p, width, height);
    if i == index_of(p, width) {
        0
    } else {
        let later = lemma_free_cell_number(cells, width, height, i + 1, p);
        if cells.contains(cell_at(i, width)) {
            later
        } else {
            later + 1
        }
    }
}

/// Every free cell of the board has a number below the count of the free
/// cells. With the lemma before, the numbers and the free cells match one
/// to one, so a number drawn evenly draws the free cells evenly.
pub proof fn lemma_free_cell_is_numbered(
    cells: Seq<Position>,
    width: int,
    height: int,
    p: Position,
)
    requires
        1 <= width <= 65536,
        1 <= height <= 65536,
        p.within(width, height),
        !cells.contains(p),
    ensures
        exists|k: nat|
            k < free_cells(cells, width, height) && nth_free(cells, width, height, k) == p,
{
    lemma_index_of_cell(p, width, height);
    let k = lemma_free_cell_number(cells, width, height, 0, p);
    assert(k < free_cells(cells, width, height) && nth_free(cells, width, height, k) == p);
}

/// The number of free cells.
pub fn free_cell_count(snake: &Snake, width: u16, height: u16) -> (n: u32)
    requires
        snake.wf(),
        width >= 1,
        height >= 1,
        snake@.fits(width as int, height as int),
    ensures
        n == free_cells(snake@.cells, width as int, height as int),
        n + snake@.cells.len() == width * height,
{
    proof {
        lemma_free_count(snake@.cells, width as int, height as int);
        assert(width * height <= 65535 * 65535) by (nonlinear_arith)
            requires
                0 <= width <= 65535,
                0 <= height <= 65535,
        ;
    }
    let area: u32 = width as u32 * height as u32;
    area - snake.len() as u32
}

/// The free cell with `k` free cells before it in reading order.
pub fn nth_free_cell(snake: &Snake, width: u16, height: u16, k: u32) -> (p: Position)
    requires
        snake.wf(),
        width >= 1,
        height >= 1,
        k < free_cells(snake@.cells, width as int, height as int),
    ensures
        p == nth_free(snake@.cells, width as int, height as int, k as nat),
        p.within(width as int, height as int),
        !snake@.cells.contains(p),
{
    let ghost cells = snake@.cells;
    let ghost w = width as int;
    let ghost h = height as int;
    let mut x: u16 = 0;
    let mut y: u16 = 0;
    let mut left: u32 = k;
    proof {
        lemma_nth_free_is_free(cells, w, h, 0, k as nat);
    }
    loop
        invariant
            snake.wf(),
            cells == snake@.cells,
            w == width,
            h == height,
            w >= 1,
            h >= 1,
            x < width,
            y < height,
            left < free_from(cells, w, h, y * w + x),
            nth_free_from(cells, w, h, y * w + x, left as nat) == nth_free(cells, w, h, k as nat),
            nth_free(cells, w, h, k as nat).within(w, h),
            !cells.contains(nth_free(cells, w, h, k as nat)),
        decreases w * h - (y * w + x),
    {
        let here = Position { x, y };
        let ghost i = y * w + x;
        proof {
            lemma_index_of_cell(here, w, h);
        }
        if !snake.contains(here) {
            if left == 0 {
                return here;
            }
            left = left - 1;
        }
        proof {
            assert(left < free_from(cells, w, h, i + 1));
            assert(i + 1 < w * h);
            assert((y + 1) * w == y * w + w) by (nonlinear_arith);
            if x + 1 == w {
                assert(i + 1 == (y + 1) * w);
                if y + 1 == h {
                    assert((y + 1) * w == w * h) by (nonlinear_arith)
                        requires
                            y + 1 == h,
                    ;
                }
            }
        }
        if x + 1 < width {
            x = x + 1;
        } else {
            x = 0;
            y = y + 1;
        }
    }
}

/// `rand::rngs::ThreadRng`: a handle to the random generator of the
/// current thread. Nothing of its state is seen here.
#[verifier::external_type_specification]
#[verifier::external_body]
pub struct ExThreadRng(ThreadRng);

/// `rand::thread_rng`: hands out the generator of the current thread.
/// Nothing is claimed of it.
pub assume_specification[ rand::thread_rng ]() -> (rng: ThreadRng)
;

/// `rand::Rng::gen_range` on `ThreadRng`: a number from `low` up to, not
/// including, `high`. The call panics on an empty range, which the
/// precondition leaves out. Which number comes is not said.
#[verifier::external_body]
fn random_between(rng: &mut ThreadRng, low: u32, high: u32) -> (r: u32)
    requires
        low < high,
    ensures
        low <= r < high,
{
    rng.gen_range(low, high)
}

/// How often a cell is drawn before the free cells are counted off.
pub const MAX_DRAWS: u32 = 32;

/// Picks a free cell for new food, each with the same chance. The board
/// must have a free cell.
pub fn generate_food_position(
    snake: &Snake,
    width: u16,
    height: u16,
    rng: &mut ThreadRng,
) -> (food: Position)
    requires
        snake.wf(),
        width >= 1,
        height >= 1,
        snake@.fits(width as int, height as int),
        snake@.cells.len() < width * height,
    ensures
        food.within(width as int, height as int),
        !snake@.cells.contains(food),
        exists|k: nat|
            k < free_cells(snake@.cells, width as int, height as int) && food == nth_free(
                snake@.cells,
                width as int,
                height as int,
                k,
            ),
{
    let mut draws: u32 = 0;
    while draws < MAX_DRAWS
        invariant
            snake.wf(),
            width >= 1,
            height >= 1,
        decreases MAX_DRAWS - draws,
    {
        let x = random_between(rng, 0, width as u32);
        let y = random_between(rng, 0, height as u32);
        let sample = Position { x: x as u16, y: y as u16 };
        if !snake.contains(sample) {
            proof {
                lemma_free_cell_is_numbered(snake@.cells, width as int, height as int, sample);
            }
            return sample;
        }
        draws += 1;
    }
    let free = free_cell_count(snake, width, height);
    let k = random_between(rng, 0, free);
    nth_free_cell(snake, width, height, k)
}

} // verus!
