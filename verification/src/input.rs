//! Keys, what they ask for, and what a run of them comes to.

use crate::geometry::Direction;
use vstd::prelude::*;

verus! {

/// A key as the terminal reports it.
#[derive(Clone, Copy, Debug, PartialEq, Eq, Structural)]
pub enum Key {
    /// A plain character.
    Char(char),
    /// A character with the control key held.
    Ctrl(char),
    Left,
    Up,
    Right,
    Down,
    Esc,
    /// Any other key or event.
    Other,
}

/// What a key asks for.
#[derive(Clone, Copy, Debug, PartialEq, Eq, Structural)]
pub enum Command {
    /// End the game.
    Quit,
    /// Head this way.
    Steer(Direction),
    /// Pause, or go on after a pause.
    TogglePause,
    /// Nothing: the key has no meaning.
    Nothing,
}

/// What the keys of one tick come to.
#[derive(Clone, Copy, Debug, PartialEq, Eq, Structural)]
pub struct Intent {
    /// The player asked to end the game.
    pub quit: bool,
    /// The game is paused once the keys are taken in.
    pub paused: bool,
    /// The heading asked for last, or the one the snake has.
    pub requested: Direction,
}

/// The meaning of each key: `q` and control-c end the game; the arrows,
/// `w a s d` and `k h j l` steer; escape pauses; every other key is ignored.
pub open spec fn command_spec(key: Key) -> Command {
    match key {
        Key::Ctrl(c) => if c == 'c' {
            Command::Quit
        } else {
            Command::Nothing
        },
        Key::Char(c) => if c == 'q' {
            Command::Quit
        } else if c == 'a' || c == 'h' {
            Command::Steer(Direction::Left)
        } else if c == 's' || c == 'j' {
            Command::Steer(Direction::Down)
        } else if c == 'd' || c == 'l' {
            Command::Steer(Direction::Right)
        } else if c == 'w' || c == 'k' {
            Command::Steer(Direction::Up)
        } else {
            Command::Nothing
        },
        Key::Left => Command::Steer(Direction::Left),
        Key::Down => Command::Steer(Direction::Down),
        Key::Right => Command::Steer(Direction::Right),
        Key::Up => Command::Steer(Direction::Up),
        Key::Esc => Command::TogglePause,
        Key::Other => Command::Nothing,
    }
}

/// An intent with one more command taken in: the last heading wins, and
/// each pause key turns the pause over.
pub open spec fn apply_spec(intent: Intent, command: Command) -> Intent {
    match command {
        Command::Quit => Intent { quit: true, ..intent },
        Command::Steer(direction) => Intent { requested: direction, ..intent },
        Command::TogglePause => Intent { paused: !intent.paused, ..intent },
        Command::Nothing => intent,
    }
}

/// An intent with a run of keys taken in, first key first. Nothing after a
/// key that ends the game is looked at.
pub open spec fn fold_spec(keys: Seq<Key>, intent: Intent) -> Intent
    decreases keys.len(),
{
    if keys.len() == 0 || intent.quit {
        intent
    } else {
        fold_spec(keys.drop_first(), apply_spec(intent, command_spec(keys[0])))
    }
}

/// What a key asks for.
pub fn interpret(key: Key) -> (command: Command)
    ensures
        command == command_spec(key),
{
    match key {
        Key::Ctrl(c) => {
            if c == 'c' {
                Command::Quit
            } else {
                Command::Nothing
            }
        },
        Key::Char(c) => {
            if c == 'q' {
                Command::Quit
            } else if c == 'a' || c == 'h' {
                Command::Steer(Direction::Left)
            } else if c == 's' || c == 'j' {
                Command::Steer(Direction::Down)
            } else if c == 'd' || c == 'l' {
                Command::Steer(Direction::Right)
            } else if c == 'w' || c == 'k' {
                Command::Steer(Direction::Up)
            } else {
                Command::Nothing
            }
        },
        Key::Left => Command::Steer(Direction::Left),
        Key::Down => Command::Steer(Direction::Down),
        Key::Right => Command::Steer(Direction::Right),
        Key::Up => Command::Steer(Direction::Up),
        Key::Esc => Command::TogglePause,
        Key::Other => Command::Nothing,
    }
}

/// Takes in the keys that came since the last tick. `current` is the
/// heading of the snake and `paused` whether the game is paused now.
pub fn read_keys(keys: &Vec<Key>, current: Direction, paused: bool) -> (intent: Intent)
    ensures
        intent == fold_spec(keys@, Intent { quit: false, paused, requested: current }),
{
    let ghost start = Intent { quit: false, paused, requested: current };
    let mut intent = Intent { quit: false, paused, requested: current };
    let mut i: usize = 0;
    proof {
        assert(keys@.subrange(0, keys@.len() as int) =~= keys@);
    }
    while i < keys.len() && !intent.quit
        invariant
            i <= keys.len(),
            fold_spec(keys@, start) == fold_spec(keys@.subrange(i as int, keys@.len() as int), intent),
        decreases keys.len() - i,
    {
        let ghost rest = keys@.subrange(i as int, keys@.len() as int);
        proof {
            assert(rest.drop_first() =~= keys@.subrange(i + 1, keys@.len() as int));
        }
        match interpret(keys[i]) {
            Command::Quit => {
                intent.quit = true;
            },
            Command::Steer(direction) => {
                intent.requested = direction;
            },
            Command::TogglePause => {
                intent.paused = !intent.paused;
            },
            Command::Nothing => {},
        }
        i += 1;
    }
    intent
}

} // verus!
