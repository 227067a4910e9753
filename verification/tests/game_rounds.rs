use snake::game::{Game, Next, Outcome, Turn};
use snake::geometry::{Direction, Position};
use snake::input::Key;
use snake::render::render;

fn at(x: u16, y: u16) -> Position {
    Position { x, y }
}

fn cells_of(game: &Game) -> Vec<Position> {
    let snake = game.snake();
    let mut cells = Vec::new();
    for i in 0..snake.len() {
        cells.push(snake.cell(i));
    }
    cells
}

fn row_of_three() -> Game {
    let cells = vec![at(0, 0), at(1, 0), at(2, 0)];
    Game::with_layout(10, 10, &cells, Direction::Right, at(5, 5), 0).unwrap()
}

#[test]
fn without_keys_the_snake_keeps_its_heading() {
    let mut game = row_of_three();
    assert_eq!(game.handle_input(&Vec::new()), Turn::Moved(Outcome::Continue));
    assert_eq!(game.snake().head(), at(3, 0));
    assert!(!game.is_over());
    assert!(!game.is_paused());
}

#[test]
fn the_last_key_steers_the_snake() {
    let mut game = row_of_three();
    let keys = vec![Key::Up, Key::Char('j')];
    assert_eq!(game.handle_input(&keys), Turn::Moved(Outcome::Continue));
    assert_eq!(game.snake().head(), at(2, 1));
    assert_eq!(game.snake().direction(), Direction::Down);
}

#[test]
fn a_half_turn_by_key_is_ignored() {
    let mut game = row_of_three();
    assert_eq!(game.handle_input(&vec![Key::Char('a')]), Turn::Moved(Outcome::Continue));
    assert_eq!(game.snake().head(), at(3, 0));
    assert_eq!(game.snake().direction(), Direction::Right);
}

#[test]
fn quit_ends_the_game_and_moves_nothing() {
    let mut game = row_of_three();
    let keys = vec![Key::Down, Key::Char('q'), Key::Up];
    assert_eq!(game.handle_input(&keys), Turn::Quit);
    assert!(game.is_over());
    assert_eq!(cells_of(&game), vec![at(0, 0), at(1, 0), at(2, 0)]);
    assert_eq!(game.snake().direction(), Direction::Right);
}

#[test]
fn a_paused_game_stands_still() {
    let mut game = row_of_three();
    assert_eq!(game.handle_input(&vec![Key::Down, Key::Esc]), Turn::Paused);
    assert!(game.is_paused());
    assert!(!game.is_over());
    assert_eq!(cells_of(&game), vec![at(0, 0), at(1, 0), at(2, 0)]);
    assert_eq!(game.snake().direction(), Direction::Right);
    assert_eq!(game.handle_input(&vec![Key::Up]), Turn::Paused);
    assert_eq!(cells_of(&game), vec![at(0, 0), at(1, 0), at(2, 0)]);
    assert_eq!(game.handle_input(&vec![Key::Esc]), Turn::Moved(Outcome::Continue));
    assert!(!game.is_paused());
    assert_eq!(game.snake().head(), at(3, 0));
}

#[test]
fn a_crash_ends_the_game() {
    let cells = vec![at(0, 0), at(1, 0), at(2, 0), at(2, 1), at(1, 1)];
    let mut game = Game::with_layout(10, 10, &cells, Direction::Left, at(5, 5), 0).unwrap();
    assert_eq!(game.handle_input(&vec![Key::Up]), Turn::Moved(Outcome::Crashed));
    assert!(game.is_over());
    assert_eq!(cells_of(&game), cells);
}

#[test]
fn a_round_goes_on_after_one_tick() {
    let mut game = row_of_three();
    let round = game.round(&vec![Key::Down]);
    assert_eq!(round.turn, Turn::Moved(Outcome::Continue));
    assert_eq!(round.next, Next::Wait(200));
    // No terminal is attached to a test.
    assert_eq!(round.frame, render(&game, 40));
    assert_eq!(round.frame, game.draw());
}

#[test]
fn a_round_stops_when_the_game_is_over() {
    let mut game = row_of_three();
    let round = game.round(&vec![Key::Ctrl('c')]);
    assert_eq!(round.turn, Turn::Quit);
    assert_eq!(round.next, Next::Stop);
    assert_eq!(round.frame, render(&game, 40));
}

#[test]
fn a_round_waits_less_at_a_higher_level() {
    let cells = vec![at(0, 0), at(1, 0), at(2, 0)];
    let mut game = Game::with_layout(10, 10, &cells, Direction::Right, at(5, 5), 50).unwrap();
    let round = game.round(&Vec::new());
    assert_eq!(round.next, Next::Wait(100));
}

#[test]
fn a_key_can_steer_the_snake_onto_the_food() {
    let cells = vec![at(0, 0), at(1, 0), at(2, 0)];
    let mut game = Game::with_layout(10, 10, &cells, Direction::Right, at(2, 1), 0).unwrap();
    assert_eq!(game.handle_input(&vec![Key::Char('s')]), Turn::Moved(Outcome::AteFood));
    assert_eq!(cells_of(&game), vec![at(0, 0), at(1, 0), at(2, 0), at(2, 1)]);
    assert_eq!(game.score(), 1);
    assert!(!game.is_over());
    assert!(!game.snake().contains(game.food()));
}
