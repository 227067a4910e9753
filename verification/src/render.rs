//! A frame of the game as the bytes to send to an ANSI terminal.
//!
//! A cell of the board takes two columns. The rows of the board come first,
//! each filled up with spaces to the width of the terminal, then a status
//! line with the score in its middle.

use crate::game::{Game, GameView};
use crate::geometry::Position;
use crate::text::{decimal, push_decimal, push_spaces, push_text, spaces};
use vstd::prelude::*;
use vstd::string::StringSliceAdditionalSpecFns;

verus! {

/// Moves the cursor to the top left corner.
pub open spec fn home() -> Seq<u8> {
    "\x1b[H".spec_bytes()
}

/// A cell of the snake: a white square.
pub open spec fn snake_cell() -> Seq<u8> {
    "\x1b[97m\x1b[107m  \x1b[0m".spec_bytes()
}

/// The cell of the food: a light green square.
pub open spec fn food_cell() -> Seq<u8> {
    "\x1b[92m\x1b[102m  \x1b[0m".spec_bytes()
}

/// A free cell.
pub open spec fn free_cell() -> Seq<u8> {
    "  ".spec_bytes()
}

/// Black on blue, for the status line.
pub open spec fn status_colours() -> Seq<u8> {
    "\x1b[104m\x1b[30m".spec_bytes()
}

/// Back to the colours of the terminal.
pub open spec fn reset() -> Seq<u8> {
    "\x1b[0m".spec_bytes()
}

/// How a cell shows: the snake covers the food, the food a free cell.
pub open spec fn cell_bytes(game: GameView, p: Position) -> Seq<u8> {
    if game.snake.cells.contains(p) {
        snake_cell()
    } else if p == game.food {
        food_cell()
    } else {
        free_cell()
    }
}

/// The first `columns` cells of row `y`.
pub open spec fn row_cells(game: GameView, y: int, columns: int) -> Seq<u8>
    decreases columns,
{
    if columns <= 0 {
        Seq::empty()
    } else {
        row_cells(game, y, columns - 1) + cell_bytes(
            game,
            Position { x: (columns - 1) as u16, y: y as u16 },
        )
    }
}

/// How many columns of the terminal the board leaves over on the right.
pub open spec fn margin(game: GameView, terminal_width: int) -> nat {
    if terminal_width >= 2 * game.width {
        (terminal_width - 2 * game.width) as nat
    } else {
        0
    }
}

/// Row `y` of the board, filled up to the width of the terminal.
pub open spec fn row(game: GameView, y: int, terminal_width: int) -> Seq<u8> {
    row_cells(game, y, game.width) + spaces(margin(game, terminal_width))
}

/// The first `count` rows of the board.
pub open spec fn rows(game: GameView, count: int, terminal_width: int) -> Seq<u8>
    decreases count,
{
    if count <= 0 {
        Seq::empty()
    } else {
        rows(game, count - 1, terminal_width) + row(game, count - 1, terminal_width)
    }
}

/// The text of the status line.
pub open spec fn status_text(score: int) -> Seq<u8> {
    "Score: ".spec_bytes() + decimal(score as nat)
}

/// How many columns the text of the status line leaves over.
pub open spec fn slack(score: int, terminal_width: int) -> nat {
    if terminal_width >= status_text(score).len() {
        (terminal_width - status_text(score).len()) as nat
    } else {
        0
    }
}

/// The status line: the text in the middle of the line, the odd column, if
/// there is one, to its right.
pub open spec fn status_line(score: int, terminal_width: int) -> Seq<u8> {
    status_colours() + spaces(slack(score, terminal_width) / 2) + status_text(score) + spaces(
        (slack(score, terminal_width) - slack(score, terminal_width) / 2) as nat,
    ) + reset()
}

/// The whole frame.
pub open spec fn frame_spec(game: GameView, terminal_width: int) -> Seq<u8> {
    home() + rows(game, game.height, terminal_width) + status_line(game.score, terminal_width)
}

/// Appends the status line.
fn push_status_line(out: &mut Vec<u8>, score: u32, terminal_width: u16)
    ensures
        final(out)@ == old(out)@ + status_line(score as int, terminal_width as int),
{
    let mut text: Vec<u8> = Vec::new();
    push_text(&mut text, "Score: ");
    push_decimal(&mut text, score);
    proof {
        assert(text@ =~= status_text(score as int));
    }
    let spare: usize = if terminal_width as usize >= text.len() {
        terminal_width as usize - text.len()
    } else {
        0
    };
    let ghost before = out@;
    push_text(out, "\x1b[104m\x1b[30m");
    push_spaces(out, spare / 2);
    out.extend_from_slice(text.as_slice());
    proof {
        assert(out@ =~= before + status_colours() + spaces((spare / 2) as nat) + text@);
    }
    push_spaces(out, spare - spare / 2);
    push_text(out, "\x1b[0m");
    proof {
        assert(out@ =~= before + status_line(score as int, terminal_width as int));
    }
}

/// Renders the game for a terminal `terminal_width` columns wide.
pub fn render(game: &Game, terminal_width: u16) -> (frame: Vec<u8>)
    requires
        game.wf(),
    ensures
        frame@ == frame_spec(game@, terminal_width as int),
{
    let width = game.width();
    let height = game.height();
    let snake = game.snake();
    let food = game.food();
    let fill: usize = if terminal_width as usize >= 2 * (width as usize) {
        terminal_width as usize - 2 * (width as usize)
    } else {
        0
    };
    let mut frame: Vec<u8> = Vec::new();
    push_text(&mut frame, "\x1b[H");
    let mut y: u16 = 0;
    while y < height
        invariant
            y <= height,
            game.wf(),
            snake.wf(),
            snake@ == game@.snake,
            food == game@.food,
            width == game@.width,
            height == game@.height,
            fill == margin(game@, terminal_width as int),
            frame@ == home() + rows(game@, y as int, terminal_width as int),
        decreases height - y,
    {
        let ghost above = frame@;
        let mut x: u16 = 0;
        while x < width
            invariant
                x <= width,
                snake.wf(),
                snake@ == game@.snake,
                food == game@.food,
                frame@ == above + row_cells(game@, y as int, x as int),
            decreases width - x,
        {
            let here = Position { x, y };
            if snake.contains(here) {
                push_text(&mut frame, "\x1b[97m\x1b[107m  \x1b[0m");
            } else if here == food {
                push_text(&mut frame, "\x1b[92m\x1b[102m  \x1b[0m");
            } else {
                push_text(&mut frame, "  ");
            }
            x += 1;
            proof {
                assert(frame@ =~= above + row_cells(game@, y as int, x as int));
            }
        }
        push_spaces(&mut frame, fill);
        y += 1;
        proof {
            assert(frame@ =~= home() + rows(game@, y as int, terminal_width as int));
        }
    }
    push_status_line(&mut frame, game.score(), terminal_width);
    frame
}

} // verus!
