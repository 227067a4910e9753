//! What holds of every game, stated over the values that the contracts of
//! the engine speak of.

use crate::game::{GameView, Outcome};
use crate::geometry::{advance_spec, Direction, Position};
use crate::input::Key;
use crate::snake::{lemma_drop_first_contains, lemma_drop_first_distinct, lemma_push_contains,
    lemma_push_fresh};
use vstd::prelude::*;

verus! {

/// Whether `food` may be the new food of a tick: if the old food is eaten,
/// it lies on the board and not under the grown snake.
pub open spec fn lawful_food(pre: GameView, requested: Direction, food: Position) -> bool {
    pre.outcome(requested) == Outcome::AteFood ==> food.within(pre.width, pre.height)
        && !pre.snake.grown(requested, pre.width, pre.height).cells.contains(food)
}

/// A step keeps a cell of the board on the board.
pub proof fn lemma_advance_stays_on_board(
    position: Position,
    direction: Direction,
    width: int,
    height: int,
)
    requires
        1 <= width <= u16::MAX,
        1 <= height <= u16::MAX,
    ensures
        advance_spec(position, direction, width, height).within(width, height),
{
}

/// A tick leads from a game in order to a game in order.
pub proof fn lemma_tick_keeps_order(pre: GameView, requested: Direction, food: Position)
    requires
        pre.valid(),
        lawful_food(pre, requested, food),
    ensures
        pre.after(requested, food).valid(),
{
    let cells = pre.snake.cells;
    let head = pre.next_head(requested);
    lemma_advance_stays_on_board(
        pre.snake.head(),
        pre.snake.effective(requested),
        pre.width,
        pre.height,
    );
    match pre.outcome(requested) {
        Outcome::Crashed => {},
        Outcome::Continue => {
            let rest = cells.drop_first();
            lemma_drop_first_distinct(cells);
            lemma_push_fresh(rest, head);
            lemma_drop_first_contains(cells, pre.food);
            lemma_push_contains(rest, head, pre.food);
            assert forall|i: int| 0 <= i < rest.push(head).len() implies (#[trigger] rest.push(
                head,
            )[i]).within(pre.width, pre.height) by {
                if i < rest.len() {
                    assert(rest[i] == cells[i + 1]);
                }
            }
        },
        Outcome::AteFood => {
            lemma_push_fresh(cells, head);
            assert forall|i: int| 0 <= i < cells.push(head).len() implies (#[trigger] cells.push(
                head,
            )[i]).within(pre.width, pre.height) by {
                if i < cells.len() {
                    assert(cells.push(head)[i] == cells[i]);
                }
            }
        },
    }
}

/// The keys of one tick lead from a game in order to a game in order,
/// whether they end it, pause it or move the snake.
pub proof fn lemma_keys_keep_order(pre: GameView, keys: Seq<Key>, food: Position)
    requires
        pre.valid(),
        pre.moves_on(keys) ==> lawful_food(pre, pre.intent(keys).requested, food),
    ensures
        pre.after_keys(keys, food).valid(),
{
    if pre.moves_on(keys) {
        lemma_tick_keeps_order(pre, pre.intent(keys).requested, food);
    }
}

/// The game after a run of ticks: `requests[i]` is what tick `i` asks for,
/// and `foods[i]` the cell of the new food if tick `i` eats.
pub open spec fn after_run(start: GameView, requests: Seq<Direction>, foods: Seq<Position>) -> GameView
    decreases requests.len(),
{
    if requests.len() == 0 {
        start
    } else {
        after_run(start, requests.drop_last(), foods.drop_last()).after(
            requests.last(),
            foods[requests.len() - 1],
        )
    }
}

/// Whether each new food of a run is one that a tick may choose.
pub open spec fn lawful_run(start: GameView, requests: Seq<Direction>, foods: Seq<Position>) -> bool
    decreases requests.len(),
{
    if requests.len() == 0 {
        true
    } else {
        &&& lawful_run(start, requests.drop_last(), foods.drop_last())
        &&& lawful_food(
            after_run(start, requests.drop_last(), foods.drop_last()),
            requests.last(),
            foods[requests.len() - 1],
        )
    }
}

/// Every game that ticks lead to from a game in order is in order: the
/// food is never under the snake, and the snake never on a cell twice.
pub proof fn lemma_run_keeps_order(start: GameView, requests: Seq<Direction>, foods: Seq<Position>)
    requires
        start.valid(),
        foods.len() == requests.len(),
        lawful_run(start, requests, foods),
    ensures
        after_run(start, requests, foods).valid(),
        !after_run(start, requests, foods).snake.cells.contains(
            after_run(start, requests, foods).food,
        ),
        after_run(start, requests, foods).snake.cells.no_duplicates(),
    decreases requests.len(),
{
    if requests.len() > 0 {
        lemma_run_keeps_order(start, requests.drop_last(), foods.drop_last());
        lemma_tick_keeps_order(
            after_run(start, requests.drop_last(), foods.drop_last()),
            requests.last(),
            foods[requests.len() - 1],
        );
    }
}

/// The food never lies under the snake: where it does not before a tick,
/// it does not after it.
pub proof fn lemma_food_off_body(pre: GameView, requested: Direction, food: Position)
    requires
        pre.valid(),
        lawful_food(pre, requested, food),
    ensures
        !pre.after(requested, food).snake.cells.contains(pre.after(requested, food).food),
{
    lemma_tick_keeps_order(pre, requested, food);
}

/// The snake never lies on a cell twice: where it does not before a tick,
/// it does not after it.
pub proof fn lemma_body_distinct(pre: GameView, requested: Direction, food: Position)
    requires
        pre.valid(),
        lawful_food(pre, requested, food),
    ensures
        pre.after(requested, food).snake.cells.no_duplicates(),
{
    lemma_tick_keeps_order(pre, requested, food);
}

/// A request for a half turn is ignored: the snake keeps its heading, and
/// still has it after the tick.
pub proof fn lemma_half_turn_ignored(pre: GameView, food: Position)
    ensures
        pre.snake.effective(pre.snake.direction.reverse()) == pre.snake.direction,
        pre.after(pre.snake.direction.reverse(), food).snake.direction == pre.snake.direction,
{
}

/// A tick that eats makes the snake one cell longer and leaves every cell
/// it had, the tail too, in place. A tick that goes on without eating
/// gives up the tail and takes the next cell, so the length stays.
pub proof fn lemma_growth(pre: GameView, requested: Direction, food: Position)
    requires
        pre.valid(),
    ensures
        pre.outcome(requested) == Outcome::AteFood ==> {
            &&& pre.after(requested, food).snake.cells.len() == pre.snake.cells.len() + 1
            &&& pre.after(requested, food).snake.cells == pre.snake.cells.push(pre.food)
            &&& pre.after(requested, food).snake.tail() == pre.snake.tail()
            &&& pre.after(requested, food).score == pre.score + 1
            &&& pre.after(requested, food).speed == pre.speed + 1
        },
        pre.outcome(requested) == Outcome::Continue ==> {
            &&& pre.after(requested, food).snake.cells.len() == pre.snake.cells.len()
            &&& pre.after(requested, food).snake.cells == pre.snake.cells.drop_first().push(
                pre.next_head(requested),
            )
            &&& pre.after(requested, food).score == pre.score
            &&& pre.after(requested, food).speed == pre.speed
        },
        pre.outcome(requested) == Outcome::Crashed ==> pre.after(requested, food) == pre,
{
}

/// At an edge a step leads to the opposite edge; elsewhere it leads to the
/// neighbour. The other coordinate stays.
pub proof fn lemma_wrap(position: Position, width: int, height: int)
    requires
        1 <= width <= u16::MAX,
        1 <= height <= u16::MAX,
        position.within(width, height),
    ensures
        advance_spec(position, Direction::Right, width, height) == (Position {
            x: if position.x == width - 1 {
                0
            } else {
                (position.x + 1) as u16
            },
            y: position.y,
        }),
        advance_spec(position, Direction::Left, width, height) == (Position {
            x: if position.x == 0 {
                (width - 1) as u16
            } else {
                (position.x - 1) as u16
            },
            y: position.y,
        }),
        advance_spec(position, Direction::Down, width, height) == (Position {
            x: position.x,
            y: if position.y == height - 1 {
                0
            } else {
                (position.y + 1) as u16
            },
        }),
        advance_spec(position, Direction::Up, width, height) == (Position {
            x: position.x,
            y: if position.y == 0 {
                (height - 1) as u16
            } else {
                (position.y - 1) as u16
            },
        }),
{
    lemma_wrap_coordinate(position.x as int, width);
    lemma_wrap_coordinate(position.y as int, height);
}

/// One coordinate of a step, case by case.
pub proof fn lemma_wrap_coordinate(v: int, bound: int)
    requires
        0 <= v < bound,
    ensures
        crate::geometry::wrap(v, 0, bound) == v,
        crate::geometry::wrap(v, 1, bound) == if v == bound - 1 {
            0
        } else {
            v + 1
        },
        crate::geometry::wrap(v, -1, bound) == if v == 0 {
            bound - 1
        } else {
            v - 1
        },
{
    vstd::arithmetic::div_mod::lemma_fundamental_div_mod_converse(v + bound, bound, 1, v);
    if v == bound - 1 {
        vstd::arithmetic::div_mod::lemma_fundamental_div_mod_converse(v + 1 + bound, bound, 2, 0);
    } else {
        vstd::arithmetic::div_mod::lemma_fundamental_div_mod_converse(
            v + 1 + bound,
            bound,
            1,
            v + 1,
        );
    }
    if v == 0 {
        vstd::arithmetic::div_mod::lemma_fundamental_div_mod_converse(
            v - 1 + bound,
            bound,
            0,
            bound - 1,
        );
    } else {
        vstd::arithmetic::div_mod::lemma_fundamental_div_mod_converse(
            v - 1 + bound,
            bound,
            1,
            v - 1,
        );
    }
}

/// A snake that moves onto the cell of its own tail, and not onto food,
/// does not crash: the tail leaves that cell in the same tick.
pub proof fn lemma_tail_vacates(pre: GameView, requested: Direction)
    requires
        pre.valid(),
        pre.next_head(requested) == pre.snake.tail(),
        pre.next_head(requested) != pre.food,
    ensures
        pre.outcome(requested) == Outcome::Continue,
{
    lemma_drop_first_contains(pre.snake.cells, pre.snake.cells[0]);
}

} // verus!
