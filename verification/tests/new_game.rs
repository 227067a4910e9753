use snake::game::Game;
use snake::geometry::{Direction, Position};
use snake::layout::initial_snake_cells;

fn at(x: u16, y: u16) -> Position {
    Position { x, y }
}

fn cells_of(game: &Game) -> Vec<Position> {
    let snake = game.snake();
    let mut cells = Vec::new();
    for i in 0..snake.len() {
        cells.push(snake.cell(i));
    }
    cells
}

#[test]
fn a_game_at_level_zero_starts_with_three_cells() {
    let game = Game::new(0, 10, 10);
    assert_eq!(cells_of(&game), vec![at(0, 0), at(1, 0), at(2, 0)]);
    assert_eq!(game.snake().direction(), Direction::Down);
    assert_eq!(game.score(), 0);
    assert_eq!(game.score, 0);
    assert_eq!(game.speed(), 50);
    assert_eq!(game.width(), 10);
    assert_eq!(game.height(), 10);
    assert!(!game.is_over());
    assert!(!game.is_paused());
    let food = game.food();
    assert!(food.x < 10 && food.y < 10);
    assert!(!game.snake().contains(food));
}

#[test]
fn the_level_adds_cells_score_and_speed() {
    let game = Game::new(4, 10, 10);
    assert_eq!(game.snake().len(), 7);
    assert_eq!(game.score(), 4);
    assert_eq!(game.speed(), 54);
    assert_eq!(game.delay_ms(), 185);
}

#[test]
fn a_long_snake_runs_on_through_the_rows() {
    let cells = initial_snake_cells(12, 4, 4);
    let expected = vec![
        at(0, 0),
        at(1, 0),
        at(2, 0),
        at(3, 0),
        at(3, 1),
        at(0, 1),
        at(1, 1),
        at(2, 1),
        at(2, 2),
        at(3, 2),
        at(0, 2),
        at(1, 2),
        at(1, 3),
        at(2, 3),
        at(3, 3),
    ];
    assert_eq!(cells, expected);
}

#[test]
fn a_board_with_one_cell_to_spare_gets_its_food_there() {
    let game = Game::new(12, 4, 4);
    assert_eq!(game.snake().len(), 15);
    assert_eq!(game.food(), at(0, 3));
}

#[test]
fn a_board_one_cell_wide_stacks_the_snake() {
    assert_eq!(initial_snake_cells(0, 1, 5), vec![at(0, 0), at(0, 1), at(0, 2)]);
}

#[test]
fn the_highest_level_fits_a_large_board() {
    let cells = initial_snake_cells(65535, 300, 300);
    assert_eq!(cells.len(), 65538);
    assert_eq!(cells[65537], at(219, 218));
    let game = Game::new(65535, 300, 300);
    assert_eq!(game.score(), 65535);
    assert_eq!(game.speed(), 65585);
    assert_eq!(game.delay_ms(), 0);
}

#[test]
fn a_layout_is_taken_as_given() {
    let cells = vec![at(3, 3), at(3, 2)];
    let game = Game::with_layout(6, 5, &cells, Direction::Up, at(0, 4), 2).unwrap();
    assert_eq!(cells_of(&game), cells);
    assert_eq!(game.snake().direction(), Direction::Up);
    assert_eq!(game.food(), at(0, 4));
    assert_eq!(game.width(), 6);
    assert_eq!(game.height(), 5);
    assert_eq!(game.score(), 2);
    assert_eq!(game.speed(), 52);
}

#[test]
fn a_layout_out_of_order_is_refused() {
    let line = vec![at(0, 0), at(1, 0)];
    // No board.
    assert!(Game::with_layout(0, 5, &line, Direction::Up, at(0, 4), 0).is_none());
    assert!(Game::with_layout(5, 0, &line, Direction::Up, at(0, 4), 0).is_none());
    // No snake.
    assert!(Game::with_layout(5, 5, &Vec::new(), Direction::Up, at(0, 4), 0).is_none());
    // A snake on one cell twice.
    let twice = vec![at(0, 0), at(1, 0), at(0, 0)];
    assert!(Game::with_layout(5, 5, &twice, Direction::Up, at(0, 4), 0).is_none());
    // A snake off the board.
    assert!(Game::with_layout(1, 5, &line, Direction::Up, at(0, 4), 0).is_none());
    let low = vec![at(0, 5)];
    assert!(Game::with_layout(5, 5, &low, Direction::Up, at(0, 4), 0).is_none());
    // Food off the board.
    assert!(Game::with_layout(5, 5, &line, Direction::Up, at(5, 0), 0).is_none());
    assert!(Game::with_layout(5, 5, &line, Direction::Up, at(0, 5), 0).is_none());
    // Food under the snake.
    assert!(Game::with_layout(5, 5, &line, Direction::Up, at(1, 0), 0).is_none());
    // In order.
    assert!(Game::with_layout(5, 5, &line, Direction::Up, at(2, 0), 0).is_some());
}
