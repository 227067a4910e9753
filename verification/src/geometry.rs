//! Cells, headings and one step on the torus.

use vstd::prelude::*;

verus! {

/// A cell of the board, column first.
#[derive(Clone, Copy, Debug, PartialEq, Eq, Structural)]
pub struct Position {
    pub x: u16,
    pub y: u16,
}

/// The four headings.
#[derive(Clone, Copy, Debug, PartialEq, Eq, Structural)]
pub enum Direction {
    Left,
    Up,
    Right,
    Down,
}

impl Position {
    /// Whether the cell lies on a board of the given size.
    pub open spec fn within(self, width: int, height: int) -> bool {
        self.x < width && self.y < height
    }
}

impl Direction {
    /// The heading a half turn away.
    pub open spec fn reverse(self) -> Direction {
        match self {
            Direction::Left => Direction::Right,
            Direction::Right => Direction::Left,
            Direction::Up => Direction::Down,
            Direction::Down => Direction::Up,
        }
    }

    /// Change of the column for one step.
    pub open spec fn dx(self) -> int {
        match self {
            Direction::Left => -1,
            Direction::Right => 1,
            Direction::Up => 0,
            Direction::Down => 0,
        }
    }

    /// Change of the row for one step; rows count downwards.
    pub open spec fn dy(self) -> int {
        match self {
            Direction::Left => 0,
            Direction::Right => 0,
            Direction::Up => -1,
            Direction::Down => 1,
        }
    }

    /// The heading that a request leads to: a request for a half turn is
    /// ignored, any other is followed.
    pub open spec fn resolve_spec(self, requested: Direction) -> Direction {
        if requested == self.reverse() {
            self
        } else {
            requested
        }
    }

    /// Whether `other` points the opposite way.
    pub fn is_opposite(self, other: Direction) -> (opposite: bool)
        ensures
            opposite == (other == self.reverse()),
    {
        match (self, other) {
            (Direction::Left, Direction::Right) => true,
            (Direction::Right, Direction::Left) => true,
            (Direction::Up, Direction::Down) => true,
            (Direction::Down, Direction::Up) => true,
            _ => false,
        }
    }

    /// Settles a requested heading against the current one.
    pub fn resolve(self, requested: Direction) -> (effective: Direction)
        ensures
            effective == self.resolve_spec(requested),
    {
        if self.is_opposite(requested) {
            self
        } else {
            requested
        }
    }
}

/// A coordinate moved by `d` and folded back into `0 .. bound`.
pub open spec fn wrap(v: int, d: int, bound: int) -> int {
    (v + d + bound) % bound
}

/// The cell one step from `position` on a board whose edges are glued.
pub open spec fn advance_spec(
    position: Position,
    direction: Direction,
    width: int,
    height: int,
) -> Position {
    Position {
        x: wrap(position.x as int, direction.dx(), width) as u16,
        y: wrap(position.y as int, direction.dy(), height) as u16,
    }
}

/// One coordinate of a step: `delta` is `-1`, `0` or `1`.
fn wrap_step(v: u16, delta: i8, bound: u16) -> (r: u16)
    requires
        bound >= 1,
        -1 <= delta <= 1,
    ensures
        r == wrap(v as int, delta as int, bound as int),
        r < bound,
{
    let shifted: u32 = if delta < 0 {
        v as u32 + bound as u32 - 1
    } else if delta > 0 {
        v as u32 + bound as u32 + 1
    } else {
        v as u32 + bound as u32
    };
    (shifted % (bound as u32)) as u16
}

/// Moves one cell in `direction`, leaving by one edge and entering by the
/// opposite one.
pub fn advance(position: Position, direction: Direction, width: u16, height: u16) -> (next:
    Position)
    requires
        width >= 1,
        height >= 1,
    ensures
        next == advance_spec(position, direction, width as int, height as int),
        next.within(width as int, height as int),
{
    let (dx, dy): (i8, i8) = match direction {
        Direction::Left => (-1, 0),
        Direction::Right => (1, 0),
        Direction::Up => (0, -1),
        Direction::Down => (0, 1),
    };
    Position { x: wrap_step(position.x, dx, width), y: wrap_step(position.y, dy, height) }
}

} // verus!
