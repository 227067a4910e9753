//! The game: a snake, its food, the score, and the tick that moves them on.

use crate::food::{
    free_cell_count, free_cells, generate_food_position, lemma_free_count, nth_free,
    nth_free_cell,
};
use crate::geometry::{Direction, Position};
use crate::input::{fold_spec, read_keys, Intent, Key};
use crate::layout::{initial_cells, initial_snake_cells};
use crate::record::{finish_spec, judge, read_record, recorded_spec, Finish};
use crate::render::{frame_spec, render};
use crate::snake::{lemma_drop_first_contains, lemma_push_contains, Move, Snake, SnakeView};
use crate::terminal::frame_width;
use rand::rngs::ThreadRng;
use vstd::prelude::*;

verus! {

/// Speed at level 0, in tenths of a move per second.
pub const BASE_SPEED: u32 = 50;

/// How a tick ended.
#[derive(Clone, Copy, Debug, PartialEq, Eq, Structural)]
pub enum Outcome {
    /// The snake moved on by one cell.
    Continue,
    /// The snake moved onto the food and grew by one cell.
    AteFood,
    /// The head would have run into the body. Nothing has changed.
    Crashed,
}

/// What the keys of one tick led to.
#[derive(Clone, Copy, Debug, PartialEq, Eq, Structural)]
pub enum Turn {
    /// The player ended the game; the snake did not move.
    Quit,
    /// The game is paused; the snake did not move.
    Paused,
    /// The snake made its move, which ended thus.
    Moved(Outcome),
}

/// What the driver of the game does after a round.
#[derive(Clone, Copy, Debug, PartialEq, Eq, Structural)]
pub enum Next {
    /// Wait this many milliseconds, then play the next round.
    Wait(u64),
    /// The game is over: settle the score and leave.
    Stop,
}

/// One round of the game: what the keys led to, the frame to show, and
/// what to do next.
pub struct Round {
    pub turn: Turn,
    pub frame: Vec<u8>,
    pub next: Next,
}

/// A collection of all the game's components.
pub struct Game {
    snake: Snake,
    food_pos: Position,
    width: u16,
    height: u16,
    /// How often per second the snake moves, in tenths.
    speed: u32,
    ended: bool,
    pub score: u32,
    rng: ThreadRng,
    paused: bool,
}

/// What a game is, as a mathematical value. The random generator is no
/// part of it.
pub struct GameView {
    pub snake: SnakeView,
    pub food: Position,
    pub width: int,
    pub height: int,
    pub score: int,
    pub speed: int,
    pub ended: bool,
    pub paused: bool,
}

impl GameView {
    /// What holds of every game: the board has a cell, the snake lies on
    /// the board and on no cell twice, the food lies on the board and not
    /// under the snake, and the speed follows the score. The score is the
    /// starting level and one for each food eaten, so it is never more than
    /// the highest level and the length of the snake together, and 32 bits
    /// hold it.
    pub open spec fn valid(self) -> bool {
        &&& 1 <= self.width <= u16::MAX
        &&& 1 <= self.height <= u16::MAX
        &&& self.snake.cells.len() > 0
        &&& self.snake.cells.no_duplicates()
        &&& self.snake.fits(self.width, self.height)
        &&& self.food.within(self.width, self.height)
        &&& !self.snake.cells.contains(self.food)
        &&& 0 <= self.score <= u16::MAX + self.snake.cells.len()
        &&& self.speed == BASE_SPEED + self.score
    }

    /// The cell that the head enters when `requested` is asked for.
    pub open spec fn next_head(self, requested: Direction) -> Position {
        self.snake.next_head(requested, self.width, self.height)
    }

    /// Whether the move leads onto the food.
    pub open spec fn eats(self, requested: Direction) -> bool {
        self.next_head(requested) == self.food
    }

    /// How a tick with this request ends. On the food the snake grows and
    /// its whole body is in the way; elsewhere the tail moves out of the way.
    pub open spec fn outcome(self, requested: Direction) -> Outcome {
        if self.eats(requested) {
            if self.snake.grow_crashes(requested, self.width, self.height) {
                Outcome::Crashed
            } else {
                Outcome::AteFood
            }
        } else if self.snake.crawl_crashes(requested, self.width, self.height) {
            Outcome::Crashed
        } else {
            Outcome::Continue
        }
    }

    /// The game after a tick with this request, where `food` is the cell of
    /// the new food if the old one is eaten.
    pub open spec fn after(self, requested: Direction, food: Position) -> GameView {
        match self.outcome(requested) {
            Outcome::Crashed => self,
            Outcome::Continue => GameView {
                snake: self.snake.crawled(requested, self.width, self.height),
                ..self
            },
            Outcome::AteFood => GameView {
                snake: self.snake.grown(requested, self.width, self.height),
                food,
                score: self.score + 1,
                speed: self.speed + 1,
                ..self
            },
        }
    }

    /// What the keys of one tick come to in this game.
    pub open spec fn intent(self, keys: Seq<Key>) -> Intent {
        fold_spec(keys, Intent { quit: false, paused: self.paused, requested: self.snake.direction })
    }

    /// Whether the keys lead to a move of the snake: they do unless they
    /// end the game or leave it paused.
    pub open spec fn moves_on(self, keys: Seq<Key>) -> bool {
        !self.intent(keys).quit && !self.intent(keys).paused
    }

    /// What the keys of one tick lead to.
    pub open spec fn turn(self, keys: Seq<Key>) -> Turn {
        if self.intent(keys).quit {
            Turn::Quit
        } else if self.intent(keys).paused {
            Turn::Paused
        } else {
            Turn::Moved(self.outcome(self.intent(keys).requested))
        }
    }

    /// The game after the keys of one tick, where `food` is the cell of the
    /// new food if the old one is eaten. Keys that end the game end it and
    /// move nothing; while the game is paused nothing moves either; else
    /// the snake makes its move, and a crash ends the game.
    pub open spec fn after_keys(self, keys: Seq<Key>, food: Position) -> GameView {
        let intent = self.intent(keys);
        if intent.quit {
            GameView { ended: true, paused: intent.paused, ..self }
        } else if intent.paused {
            GameView { paused: true, ..self }
        } else {
            GameView {
                ended: self.ended || self.outcome(intent.requested) == Outcome::Crashed,
                paused: false,
                ..self.after(intent.requested, food)
            }
        }
    }

    /// Whether the board still has a cell for new food once this move is
    /// made. It has unless the move eats and the grown snake fills the board.
    pub open spec fn has_room(self, requested: Direction) -> bool {
        self.eats(requested) ==> self.snake.cells.len() + 1 < self.width * self.height
    }

    /// The cell for new food that the number `pick` stands for: of the
    /// cells that the grown snake leaves free, counted in reading order, the
    /// one at `pick` modulo their count.
    pub open spec fn picked_food(self, requested: Direction, pick: nat) -> Position {
        let cells = self.snake.grown(requested, self.width, self.height).cells;
        nth_free(
            cells,
            self.width,
            self.height,
            pick % free_cells(cells, self.width, self.height),
        )
    }
}

impl View for Game {
    type V = GameView;

    closed spec fn view(&self) -> GameView {
        GameView {
            snake: self.snake@,
            food: self.food_pos,
            width: self.width as int,
            height: self.height as int,
            score: self.score as int,
            speed: self.speed as int,
            ended: self.ended,
            paused: self.paused,
        }
    }
}

impl Game {
    /// The snake's hash index agrees with its cells.
    pub closed spec fn indexed(&self) -> bool {
        self.snake.indexed()
    }

    /// The game is in order, inside and out.
    pub open spec fn wf(&self) -> bool {
        self.indexed() && self@.valid()
    }

    /// A new game at `start_level`: a snake of three cells and one more for
    /// each level, laid out from the top left corner and heading down, food
    /// on a free cell drawn at random, and score and speed as the level
    /// gives them. The board must hold the snake and leave a cell for food.
    pub fn new(start_level: u16, width: u16, height: u16) -> (game: Game)
        requires
            width >= 1,
            height >= 1,
            start_level + 3 < width * height,
        ensures
            game.wf(),
            game@.snake.cells == initial_cells(start_level as int, width as int),
            game@.snake.direction == Direction::Down,
            game@.width == width,
            game@.height == height,
            game@.score == start_level,
            game@.speed == BASE_SPEED + start_level,
            !game@.ended,
            !game@.paused,
    {
        let cells = initial_snake_cells(start_level, width, height);
        let snake = match Snake::new(&cells, Direction::Down) {
            Some(snake) => snake,
            None => vstd::pervasive::unreached(),
        };
        let mut rng = rand::thread_rng();
        let food_pos = generate_food_position(&snake, width, height, &mut rng);
        Game {
            snake,
            food_pos,
            width,
            height,
            speed: BASE_SPEED + start_level as u32,
            ended: false,
            score: start_level as u32,
            rng,
            paused: false,
        }
    }

    /// A game that starts from a given position. There is one if and only
    /// if the board has a cell, the snake has a cell, lies on the board and
    /// on no cell twice, and the food lies on the board and not under the
    /// snake. `cells` runs from the tail to the head.
    pub fn with_layout(
        width: u16,
        height: u16,
        cells: &Vec<Position>,
        direction: Direction,
        food: Position,
        start_level: u16,
    ) -> (made: Option<Game>)
        ensures
            made is Some <==> {
                &&& width >= 1
                &&& height >= 1
                &&& cells@.len() > 0
                &&& cells@.no_duplicates()
                &&& forall|i: int|
                    0 <= i < cells@.len() ==> (#[trigger] cells@[i]).within(
                        width as int,
                        height as int,
                    )
                &&& food.within(width as int, height as int)
                &&& !cells@.contains(food)
            },
            made matches Some(game) ==> {
                &&& game.wf()
                &&& game@.snake.cells == cells@
                &&& game@.snake.direction == direction
                &&& game@.food == food
                &&& game@.width == width
                &&& game@.height == height
                &&& game@.score == start_level
                &&& game@.speed == BASE_SPEED + start_level
                &&& !game@.ended
                &&& !game@.paused
            },
    {
        if width == 0 || height == 0 || food.x >= width || food.y >= height {
            return None;
        }
        let mut i: usize = 0;
        while i < cells.len()
            invariant
                i <= cells.len(),
                forall|j: int|
                    0 <= j < i ==> (#[trigger] cells@[j]).within(width as int, height as int),
            decreases cells.len() - i,
        {
            if cells[i].x >= width || cells[i].y >= height {
                return None;
            }
            i += 1;
        }
        let snake = match Snake::new(cells, direction) {
            Some(snake) => snake,
            None => {
                return None;
            },
        };
        if snake.contains(food) {
            return None;
        }
        Some(
            Game {
                snake,
                food_pos: food,
                width,
                height,
                speed: BASE_SPEED + start_level as u32,
                ended: false,
                score: start_level as u32,
                rng: rand::thread_rng(),
                paused: false,
            },
        )
    }

    /// One tick.
    ///
    /// The heading follows the request unless that asks for a half turn.
    /// On the food the snake grows by the cell it enters, the score and the
    /// speed go up by one, and new food appears on a free cell drawn at
    /// random. Elsewhere the tail cell is given up; if the head would then
    /// lie on the body, the snake has crashed and the game is left as it
    /// was.
    ///
    /// Which free cell the new food takes is left to chance. All else is
    /// settled: the game is the one that `after` gives for the cell drawn.
    ///
    /// A move that eats needs a cell for the new food: the board must not
    /// be full once the snake has grown.
    pub fn tick(&mut self, requested: Direction) -> (outcome: Outcome)
        requires
            old(self).wf(),
            old(self)@.has_room(requested),
        ensures
            final(self).wf(),
            outcome == old(self)@.outcome(requested),
            final(self)@ == old(self)@.after(requested, final(self)@.food),
    {
        let outcome = self.shift(requested);
        if outcome == Outcome::AteFood {
            self.food_pos = generate_food_position(
                &self.snake,
                self.width,
                self.height,
                &mut self.rng,
            );
        }
        outcome
    }

    /// One tick as in `tick`, with the new food settled by `pick` instead
    /// of by chance: the free cells are counted in reading order, and the
    /// food goes to the one at `pick` modulo their count.
    pub fn tick_with(&mut self, requested: Direction, pick: u32) -> (outcome: Outcome)
        requires
            old(self).wf(),
            old(self)@.has_room(requested),
        ensures
            final(self).wf(),
            outcome == old(self)@.outcome(requested),
            final(self)@ == old(self)@.after(requested, old(self)@.picked_food(requested, pick as nat)),
    {
        let outcome = self.shift(requested);
        if outcome == Outcome::AteFood {
            proof {
                lemma_free_count(self.snake@.cells, self.width as int, self.height as int);
            }
            let free = free_cell_count(&self.snake, self.width, self.height);
            self.food_pos = nth_free_cell(&self.snake, self.width, self.height, pick % free);
        }
        outcome
    }

    /// Moves the body and counts the food; the food itself stays where it
    /// was, which is under the head once it is eaten.
    fn shift(&mut self, requested: Direction) -> (outcome: Outcome)
        requires
            old(self).wf(),
        ensures
            outcome == old(self)@.outcome(requested),
            final(self)@ == old(self)@.after(requested, old(self)@.food),
            final(self).snake.wf(),
            final(self)@.snake.fits(final(self)@.width, final(self)@.height),
            outcome != Outcome::AteFood ==> final(self).wf(),
            outcome == Outcome::AteFood ==> final(self)@.snake.cells == old(self)@.snake.cells.push(
                old(self)@.food,
            ),
            0 <= final(self)@.score <= u16::MAX + final(self)@.snake.cells.len(),
            final(self)@.speed == BASE_SPEED + final(self)@.score,
    {
        let new_head = self.snake.next_head(requested, self.width, self.height);
        proof {
            let cells = self.snake@.cells;
            lemma_free_count(cells, self.width as int, self.height as int);
            assert(self.width * self.height <= 65535 * 65535) by (nonlinear_arith)
                requires
                    0 <= self.width <= 65535,
                    0 <= self.height <= 65535,
            ;
            lemma_drop_first_contains(cells, self.food_pos);
            lemma_push_contains(cells.drop_first(), new_head, self.food_pos);
        }
        if new_head == self.food_pos {
            match self.snake.grow(requested, self.width, self.height) {
                Move::Crash => Outcome::Crashed,
                Move::Clear => {
                    self.score = self.score + 1;
                    self.speed = self.speed + 1;
                    Outcome::AteFood
                },
            }
        } else {
            match self.snake.crawl(requested, self.width, self.height) {
                Move::Crash => Outcome::Crashed,
                Move::Clear => Outcome::Continue,
            }
        }
    }

    /// The number of columns of the board.
    pub fn width(&self) -> (w: u16)
        ensures
            w == self@.width,
    {
        self.width
    }

    /// The number of rows of the board.
    pub fn height(&self) -> (h: u16)
        ensures
            h == self@.height,
    {
        self.height
    }

    /// The snake.
    pub fn snake(&self) -> (snake: &Snake)
        ensures
            snake@ == self@.snake,
            self.wf() ==> snake.wf(),
    {
        &self.snake
    }

    /// The cell of the food.
    pub fn food(&self) -> (p: Position)
        ensures
            p == self@.food,
    {
        self.food_pos
    }

    /// The score: the starting level and one for each food eaten.
    pub fn score(&self) -> (n: u32)
        ensures
            n == self@.score,
    {
        self.score
    }

    /// The speed in tenths of a move per second.
    pub fn speed(&self) -> (tenths: u32)
        ensures
            tenths == self@.speed,
    {
        self.speed
    }

    /// Whether the game is over.
    pub fn is_over(&self) -> (over: bool)
        ensures
            over == self@.ended,
    {
        self.ended
    }

    /// Whether the game is paused.
    pub fn is_paused(&self) -> (paused: bool)
        ensures
            paused == self@.paused,
    {
        self.paused
    }

    /// The time from one tick to the next in milliseconds, rounded down: a
    /// second divided by the speed.
    pub fn delay_ms(&self) -> (ms: u64)
        requires
            self.wf(),
        ensures
            ms == 10000int / self@.speed,
    {
        (10000 / self.speed) as u64
    }

    /// Whether the board still has a cell for new food once the move that
    /// `requested` asks for is made.
    pub fn has_room(&self, requested: Direction) -> (room: bool)
        requires
            self.wf(),
        ensures
            room == self@.has_room(requested),
    {
        let new_head = self.snake.next_head(requested, self.width, self.height);
        if new_head == self.food_pos {
            free_cell_count(&self.snake, self.width, self.height) > 1
        } else {
            true
        }
    }

    /// Handles the keys that came since the last tick, first key first,
    /// and moves the snake accordingly.
    ///
    /// A key that ends the game ends it at once: no later key counts and the
    /// snake stays. Otherwise the last heading asked for is requested and
    /// each pause key turns the pause over; if the game is then paused the
    /// snake stays, else it makes its move as in `tick`, and a crash ends
    /// the game.
    pub fn handle_input(&mut self, keys: &Vec<Key>) -> (turn: Turn)
        requires
            old(self).wf(),
            old(self)@.moves_on(keys@) ==> old(self)@.has_room(old(self)@.intent(keys@).requested),
        ensures
            final(self).wf(),
            turn == old(self)@.turn(keys@),
            final(self)@ == old(self)@.after_keys(keys@, final(self)@.food),
    {
        let intent = read_keys(keys, self.snake.direction(), self.paused);
        self.paused = intent.paused;
        if intent.quit {
            self.ended = true;
            return Turn::Quit;
        }
        if intent.paused {
            return Turn::Paused;
        }
        let outcome = self.tick(intent.requested);
        if outcome == Outcome::Crashed {
            self.ended = true;
        }
        Turn::Moved(outcome)
    }

    /// Draws the frame for the terminal that the process is attached to, or
    /// for the fallback width where there is none. Which width that is, is
    /// the terminal's to say; for each width `render` says what the frame is.
    pub fn draw(&self) -> (frame: Vec<u8>)
        requires
            self.wf(),
        ensures
            exists|terminal_width: u16| frame@ == frame_spec(self@, terminal_width as int),
    {
        let terminal_width = frame_width(term_size::dimensions());
        render(self, terminal_width)
    }

    /// One round: the keys are handled and the snake moves as in
    /// `handle_input`, the frame is drawn as in `draw`, and the game goes on
    /// after a wait of one tick unless it is over.
    pub fn round(&mut self, keys: &Vec<Key>) -> (round: Round)
        requires
            old(self).wf(),
            old(self)@.moves_on(keys@) ==> old(self)@.has_room(old(self)@.intent(keys@).requested),
        ensures
            final(self).wf(),
            round.turn == old(self)@.turn(keys@),
            final(self)@ == old(self)@.after_keys(keys@, final(self)@.food),
            exists|terminal_width: u16|
                round.frame@ == frame_spec(final(self)@, terminal_width as int),
            round.next == if final(self)@.ended {
                Next::Stop
            } else {
                Next::Wait((10000int / final(self)@.speed) as u64)
            },
    {
        let turn = self.handle_input(keys);
        let frame = self.draw();
        let next = if self.ended {
            Next::Stop
        } else {
            Next::Wait(self.delay_ms())
        };
        Round { turn, frame, next }
    }

    /// Settles the end of the game against the content of the record file,
    /// where `None` stands for a file that is missing or cannot be read.
    pub fn game_finish(&self, content: Option<&Vec<u8>>) -> (finish: Finish)
        ensures
            finish == finish_spec(
                self@.score as u32,
                recorded_spec(
                    match content {
                        Some(bytes) => Some(bytes@),
                        None => None,
                    },
                ),
            ),
    {
        judge(self.score, read_record(content))
    }
}

} // verus!
