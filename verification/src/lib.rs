//! The engine of a snake game on a wrap-around grid.
//!
//! A segmented body moves one cell per tick on a board whose edges are glued
//! together, eats food to grow and score, and the run ends when the head
//! runs into the body.
//!
//! The engine works on plain values: it takes the keys that were pressed,
//! and hands out the frame to show and the time to wait. Reading the keys,
//! printing the frame, sleeping and keeping the high score on disk are left
//! to the program that drives it.
//!
//! - [`geometry`]: cells, headings, one step on the torus.
//! - [`snake`]: the body, ordered and indexed.
//! - [`food`]: the free cells and the draw of new food.
//! - [`layout`]: the snake at the start of a game.
//! - [`game`]: the game and its tick.
//! - [`input`]: keys and what they ask for.
//! - [`render`]: frames for an ANSI terminal.
//! - [`record`]: the high score at the end of a game.
//! - [`terminal`]: the board that fits the terminal.
//! - [`text`]: numbers and spaces as bytes.
//! - [`laws`]: what holds of every game.

pub mod food;
pub mod game;
pub mod geometry;
pub mod input;
pub mod laws;
pub mod layout;
pub mod record;
pub mod render;
pub mod snake;
pub mod terminal;
pub mod text;

pub use game::{Game, Next, Outcome, Round, Turn};
pub use geometry::{advance, Direction, Position};
pub use input::{Command, Intent, Key};
pub use record::{Finish, Verdict};
pub use snake::{Move, Snake};
pub use terminal::get_terminal_size;
