//! The body of the snake: its cells in order, and a hash index over them.

use crate::geometry::{advance, advance_spec, Direction, Position};
use std::collections::{HashSet, VecDeque};
use vstd::prelude::*;

verus! {

broadcast use vstd::std_specs::hash::group_hash_axioms;

/// How a move of the snake ended.
#[derive(Clone, Copy, Debug, PartialEq, Eq, Structural)]
pub enum Move {
    /// The way was clear: the head has entered the next cell.
    Clear,
    /// The body was in the way: nothing has changed.
    Crash,
}

/// The player: where it is and where it is heading.
///
/// The cells are kept twice: in a queue, tail first, which gives the order
/// in which they are left again, and in a hash set of their keys, which
/// answers in constant time whether a cell is taken.
pub struct Snake {
    direction: Direction,
    parts: HashSet<u32>,
    ordered_parts: VecDeque<Position>,
}

/// What a snake is, as a mathematical value.
pub struct SnakeView {
    /// The current heading.
    pub direction: Direction,
    /// The cells of the body, from the tail to the head.
    pub cells: Seq<Position>,
}

/// The key under which a cell is indexed.
spec fn key_spec(p: Position) -> u32 {
    (p.x as u32 * 65536 + p.y as u32) as u32
}

/// The cell that a key stands for.
spec fn cell_spec(k: u32) -> Position {
    Position { x: (k / 65536) as u16, y: (k % 65536) as u16 }
}

/// A key leads back to the cell it was made of.
proof fn lemma_key_roundtrip(p: Position)
    ensures
        cell_spec(key_spec(p)) == p,
{
}

/// A cell leads back to the key it was made of.
proof fn lemma_cell_roundtrip(k: u32)
    ensures
        key_spec(cell_spec(k)) == k,
{
}

/// The key under which a cell is indexed.
fn key_of(p: Position) -> (k: u32)
    ensures
        k == key_spec(p),
{
    p.x as u32 * 65536 + p.y as u32
}

impl SnakeView {
    /// The most recently added cell.
    pub open spec fn head(self) -> Position {
        self.cells[self.cells.len() - 1]
    }

    /// The cell that has been part of the body longest.
    pub open spec fn tail(self) -> Position {
        self.cells[0]
    }

    /// Whether every cell lies on a board of the given size.
    pub open spec fn fits(self, width: int, height: int) -> bool {
        forall|i: int| 0 <= i < self.cells.len() ==> (#[trigger] self.cells[i]).within(width, height)
    }

    /// The heading taken when `requested` is asked for.
    pub open spec fn effective(self, requested: Direction) -> Direction {
        self.direction.resolve_spec(requested)
    }

    /// The cell that the head enters when `requested` is asked for.
    pub open spec fn next_head(self, requested: Direction, width: int, height: int) -> Position {
        advance_spec(self.head(), self.effective(requested), width, height)
    }

    /// The body without its tail.
    pub open spec fn vacated(self) -> Seq<Position> {
        self.cells.drop_first()
    }

    /// Whether a move without growth runs into the body. The tail cell does
    /// not count: it is left in the same move.
    pub open spec fn crawl_crashes(self, requested: Direction, width: int, height: int) -> bool {
        self.vacated().contains(self.next_head(requested, width, height))
    }

    /// The snake after a move without growth.
    pub open spec fn crawled(self, requested: Direction, width: int, height: int) -> SnakeView {
        if self.crawl_crashes(requested, width, height) {
            self
        } else {
            SnakeView {
                direction: self.effective(requested),
                cells: self.vacated().push(self.next_head(requested, width, height)),
            }
        }
    }

    /// Whether a move with growth runs into the body.
    pub open spec fn grow_crashes(self, requested: Direction, width: int, height: int) -> bool {
        self.cells.contains(self.next_head(requested, width, height))
    }

    /// The snake after a move with growth.
    pub open spec fn grown(self, requested: Direction, width: int, height: int) -> SnakeView {
        if self.grow_crashes(requested, width, height) {
            self
        } else {
            SnakeView {
                direction: self.effective(requested),
                cells: self.cells.push(self.next_head(requested, width, height)),
            }
        }
    }
}

impl View for Snake {
    type V = SnakeView;

    closed spec fn view(&self) -> SnakeView {
        SnakeView { direction: self.direction, cells: self.ordered_parts@ }
    }
}

impl Snake {
    /// The hash index holds the keys of the cells in the queue, and no others.
    pub closed spec fn indexed(&self) -> bool {
        forall|k: u32| #[trigger] self.parts@.contains(k) <==> self.ordered_parts@.contains(cell_spec(k))
    }

    /// A snake has at least one cell, no cell twice, and an index that
    /// agrees with its cells.
    pub open spec fn wf(&self) -> bool {
        &&& self.indexed()
        &&& self@.cells.len() > 0
        &&& self@.cells.no_duplicates()
    }

    /// Builds a snake from its cells, tail first. There is none without
    /// cells, and none that lies on a cell twice.
    pub fn new(cells: &Vec<Position>, direction: Direction) -> (made: Option<Snake>)
        ensures
            made is Some <==> cells@.len() > 0 && cells@.no_duplicates(),
            made matches Some(snake) ==> snake.wf() && snake@.cells == cells@ && snake@.direction
                == direction,
    {
        let mut parts: HashSet<u32> = HashSet::new();
        let mut ordered_parts: VecDeque<Position> = VecDeque::new();
        let mut i: usize = 0;
        while i < cells.len()
            invariant
                i <= cells.len(),
                ordered_parts@ == cells@.subrange(0, i as int),
                ordered_parts@.no_duplicates(),
                forall|k: u32| #[trigger] parts@.contains(k) <==> ordered_parts@.contains(cell_spec(k)),
            decreases cells.len() - i,
        {
            let cell = cells[i];
            let fresh = parts.insert(key_of(cell));
            proof {
                lemma_key_roundtrip(cell);
            }
            if !fresh {
                proof {
                    let j = choose|j: int| 0 <= j < ordered_parts@.len() && ordered_parts@[j] == cell;
                    assert(cells@[j] == cells@[i as int]);
                }
                return None;
            }
            let ghost before = ordered_parts@;
            ordered_parts.push_back(cell);
            proof {
                assert forall|k: u32| #[trigger]
                    parts@.contains(k) <==> ordered_parts@.contains(cell_spec(k)) by {
                    lemma_cell_roundtrip(k);
                    lemma_push_contains(before, cell, cell_spec(k));
                }
                assert(ordered_parts@ =~= cells@.subrange(0, i + 1));
                lemma_push_fresh(before, cell);
            }
            i += 1;
        }
        proof {
            assert(cells@.subrange(0, cells@.len() as int) =~= cells@);
        }
        if i == 0 {
            return None;
        }
        Some(Snake { direction, parts, ordered_parts })
    }

    /// The number of cells.
    pub fn len(&self) -> (n: usize)
        ensures
            n == self@.cells.len(),
    {
        self.ordered_parts.len()
    }

    /// The current heading.
    pub fn direction(&self) -> (d: Direction)
        ensures
            d == self@.direction,
    {
        self.direction
    }

    /// The cell at `i`, counted from the tail.
    pub fn cell(&self, i: usize) -> (p: Position)
        requires
            i < self@.cells.len(),
        ensures
            p == self@.cells[i as int],
    {
        self.ordered_parts[i]
    }

    /// The most recently added cell.
    pub fn head(&self) -> (p: Position)
        requires
            self.wf(),
        ensures
            p == self@.head(),
    {
        self.ordered_parts[self.ordered_parts.len() - 1]
    }

    /// The cell that has been part of the body longest.
    pub fn tail(&self) -> (p: Position)
        requires
            self.wf(),
        ensures
            p == self@.tail(),
    {
        self.ordered_parts[0]
    }

    /// Whether the body lies on `p`. Answered from the hash index.
    pub fn contains(&self, p: Position) -> (taken: bool)
        requires
            self.wf(),
        ensures
            taken == self@.cells.contains(p),
    {
        proof {
            lemma_key_roundtrip(p);
        }
        let k = key_of(p);
        self.parts.contains(&k)
    }

    /// The cell that the head enters when `requested` is asked for.
    pub fn next_head(&self, requested: Direction, width: u16, height: u16) -> (p: Position)
        requires
            self.wf(),
            width >= 1,
            height >= 1,
        ensures
            p == self@.next_head(requested, width as int, height as int),
            p.within(width as int, height as int),
    {
        advance(self.head(), self.direction.resolve(requested), width, height)
    }

    /// Moves without growing: the tail cell is given up and the head enters
    /// the next cell, unless the rest of the body lies there. After a crash
    /// nothing has changed.
    pub fn crawl(&mut self, requested: Direction, width: u16, height: u16) -> (result: Move)
        requires
            old(self).wf(),
            width >= 1,
            height >= 1,
        ensures
            final(self)@ == old(self)@.crawled(requested, width as int, height as int),
            result == if old(self)@.crawl_crashes(requested, width as int, height as int) {
                Move::Crash
            } else {
                Move::Clear
            },
            final(self).wf(),
            old(self)@.fits(width as int, height as int) ==> final(self)@.fits(
                width as int,
                height as int,
            ),
    {
        let effective = self.direction.resolve(requested);
        let new_head = advance(self.head(), effective, width, height);
        let tail = self.tail();
        let ghost before = self.ordered_parts@;
        proof {
            lemma_drop_first_contains(before, new_head);
        }
        if new_head != tail && self.contains(new_head) {
            return Move::Crash;
        }
        let _ = self.ordered_parts.pop_front();
        let k = key_of(tail);
        self.parts.remove(&k);
        proof {
            lemma_key_roundtrip(tail);
            assert(self.ordered_parts@ =~= before.drop_first());
            lemma_drop_first_distinct(before);
            assert forall|k: u32| #[trigger]
                self.parts@.contains(k) <==> self.ordered_parts@.contains(cell_spec(k)) by {
                lemma_cell_roundtrip(k);
                lemma_drop_first_contains(before, cell_spec(k));
            }
        }
        self.enter(new_head, effective)
    }

    /// Moves and grows: the head enters the next cell and the tail stays,
    /// unless the body lies on that cell. After a crash nothing has changed.
    pub fn grow(&mut self, requested: Direction, width: u16, height: u16) -> (result: Move)
        requires
            old(self).wf(),
            width >= 1,
            height >= 1,
        ensures
            final(self)@ == old(self)@.grown(requested, width as int, height as int),
            result == if old(self)@.grow_crashes(requested, width as int, height as int) {
                Move::Crash
            } else {
                Move::Clear
            },
            final(self).wf(),
            old(self)@.fits(width as int, height as int) ==> final(self)@.fits(
                width as int,
                height as int,
            ),
    {
        let effective = self.direction.resolve(requested);
        let new_head = advance(self.head(), effective, width, height);
        self.enter(new_head, effective)
    }

    /// Puts the head on `cell` and takes the heading, unless the body lies
    /// there.
    fn enter(&mut self, cell: Position, heading: Direction) -> (result: Move)
        requires
            old(self).indexed(),
            old(self)@.cells.no_duplicates(),
        ensures
            final(self).indexed(),
            final(self)@.cells.no_duplicates(),
            old(self)@.cells.contains(cell) ==> result == Move::Crash && final(self)@ == old(self)@,
            !old(self)@.cells.contains(cell) ==> result == Move::Clear && final(self)@ == (SnakeView {
                direction: heading,
                cells: old(self)@.cells.push(cell),
            }),
    {
        proof {
            lemma_key_roundtrip(cell);
        }
        let k = key_of(cell);
        if self.parts.contains(&k) {
            return Move::Crash;
        }
        let ghost before = self.ordered_parts@;
        self.ordered_parts.push_back(cell);
        self.parts.insert(k);
        self.direction = heading;
        proof {
            lemma_push_fresh(before, cell);
            assert forall|k: u32| #[trigger]
                self.parts@.contains(k) <==> self.ordered_parts@.contains(cell_spec(k)) by {
                lemma_cell_roundtrip(k);
                lemma_push_contains(before, cell, cell_spec(k));
            }
        }
        Move::Clear
    }
}

/// What a sequence holds after a push.
pub proof fn lemma_push_contains(s: Seq<Position>, p: Position, q: Position)
    ensures
        s.push(p).contains(q) <==> s.contains(q) || q == p,
{
    if s.contains(q) {
        let i = choose|i: int| 0 <= i < s.len() && s[i] == q;
        assert(s.push(p)[i] == q);
    }
    if q == p {
        assert(s.push(p)[s.len() as int] == q);
    }
}

/// A push of a new item keeps the items distinct.
pub proof fn lemma_push_fresh(s: Seq<Position>, p: Position)
    requires
        s.no_duplicates(),
        !s.contains(p),
    ensures
        s.push(p).no_duplicates(),
{
    assert forall|i: int, j: int|
        0 <= i < s.push(p).len() && 0 <= j < s.push(p).len() && i != j implies s.push(p)[i]
        != s.push(p)[j] by {
        if i < s.len() {
            assert(s.contains(s[i]));
        }
        if j < s.len() {
            assert(s.contains(s[j]));
        }
    }
}

/// What a sequence of distinct items holds once its first one is dropped.
pub proof fn lemma_drop_first_contains(s: Seq<Position>, q: Position)
    requires
        s.no_duplicates(),
    ensures
        s.len() > 0 ==> (s.drop_first().contains(q) <==> s.contains(q) && q != s[0]),
        s.len() == 0 ==> !s.contains(q),
{
    if s.len() > 0 {
        let t = s.drop_first();
        if t.contains(q) {
            let i = choose|i: int| 0 <= i < t.len() && t[i] == q;
            assert(s[i + 1] == q);
        }
        if s.contains(q) && q != s[0] {
            let i = choose|i: int| 0 <= i < s.len() && s[i] == q;
            assert(t[i - 1] == q);
        }
    }
}

/// Dropping the first of distinct items leaves distinct items.
pub proof fn lemma_drop_first_distinct(s: Seq<Position>)
    requires
        s.no_duplicates(),
    ensures
        s.len() > 0 ==> s.drop_first().no_duplicates(),
{
    if s.len() > 0 {
        let t = s.drop_first();
        assert forall|i: int, j: int| 0 <= i < t.len() && 0 <= j < t.len() && i != j implies t[i]
            != t[j] by {
            assert(t[i] == s[i + 1]);
            assert(t[j] == s[j + 1]);
        }
    }
}

} // verus!
