use snake::geometry::{Direction, Position};
use snake::snake::{Move, Snake};

fn at(x: u16, y: u16) -> Position {
    Position { x, y }
}

fn cells_of(snake: &Snake) -> Vec<Position> {
    let mut cells = Vec::new();
    for i in 0..snake.len() {
        cells.push(snake.cell(i));
    }
    cells
}

#[test]
fn a_snake_keeps_its_cells_in_order() {
    let cells = vec![at(0, 0), at(1, 0), at(2, 0)];
    let snake = Snake::new(&cells, Direction::Right).unwrap();
    assert_eq!(snake.len(), 3);
    assert_eq!(snake.tail(), at(0, 0));
    assert_eq!(snake.head(), at(2, 0));
    assert_eq!(snake.direction(), Direction::Right);
    assert_eq!(cells_of(&snake), cells);
}

#[test]
fn there_is_no_snake_without_cells() {
    assert!(Snake::new(&Vec::new(), Direction::Up).is_none());
}

#[test]
fn there_is_no_snake_that_lies_on_a_cell_twice() {
    let cells = vec![at(0, 0), at(1, 0), at(0, 0)];
    assert!(Snake::new(&cells, Direction::Up).is_none());
}

#[test]
fn contains_tells_body_cells_from_others() {
    let snake = Snake::new(&vec![at(0, 0), at(1, 0), at(2, 0)], Direction::Right).unwrap();
    assert!(snake.contains(at(0, 0)));
    assert!(snake.contains(at(2, 0)));
    assert!(!snake.contains(at(3, 0)));
    assert!(!snake.contains(at(0, 1)));
    assert!(!snake.contains(at(0, 2)));
}

#[test]
fn cells_that_differ_in_one_coordinate_only_are_told_apart() {
    let snake = Snake::new(&vec![at(1, 0), at(0, 256)], Direction::Right).unwrap();
    assert!(snake.contains(at(1, 0)));
    assert!(snake.contains(at(0, 256)));
    assert!(!snake.contains(at(0, 1)));
    assert!(!snake.contains(at(256, 0)));
    assert!(!snake.contains(at(0, 0)));
}

#[test]
fn crawl_gives_up_the_tail_and_takes_the_next_cell() {
    let mut snake = Snake::new(&vec![at(0, 0), at(1, 0), at(2, 0)], Direction::Right).unwrap();
    assert_eq!(snake.next_head(Direction::Right, 10, 10), at(3, 0));
    assert_eq!(snake.crawl(Direction::Right, 10, 10), Move::Clear);
    assert_eq!(cells_of(&snake), vec![at(1, 0), at(2, 0), at(3, 0)]);
    assert!(!snake.contains(at(0, 0)));
    assert!(snake.contains(at(3, 0)));
}

#[test]
fn grow_keeps_the_tail_and_takes_the_next_cell() {
    let mut snake = Snake::new(&vec![at(0, 0), at(1, 0), at(2, 0)], Direction::Right).unwrap();
    assert_eq!(snake.grow(Direction::Down, 10, 10), Move::Clear);
    assert_eq!(cells_of(&snake), vec![at(0, 0), at(1, 0), at(2, 0), at(2, 1)]);
    assert_eq!(snake.direction(), Direction::Down);
}

#[test]
fn crawl_follows_a_quarter_turn() {
    let mut snake = Snake::new(&vec![at(0, 0), at(1, 0), at(2, 0)], Direction::Right).unwrap();
    assert_eq!(snake.crawl(Direction::Up, 10, 10), Move::Clear);
    assert_eq!(snake.head(), at(2, 9));
    assert_eq!(snake.direction(), Direction::Up);
}

#[test]
fn crawl_ignores_a_half_turn() {
    let mut snake = Snake::new(&vec![at(1, 0), at(2, 0), at(3, 0)], Direction::Right).unwrap();
    assert_eq!(snake.next_head(Direction::Left, 10, 10), at(4, 0));
    assert_eq!(snake.crawl(Direction::Left, 10, 10), Move::Clear);
    assert_eq!(snake.direction(), Direction::Right);
    assert_eq!(snake.head(), at(4, 0));
}

#[test]
fn crawl_into_the_body_crashes_and_changes_nothing() {
    // A hook: the head at (1, 1) looks up at (1, 0), which is the second cell.
    let cells = vec![at(0, 0), at(1, 0), at(2, 0), at(2, 1), at(1, 1)];
    let mut snake = Snake::new(&cells, Direction::Left).unwrap();
    assert_eq!(snake.crawl(Direction::Up, 10, 10), Move::Crash);
    assert_eq!(cells_of(&snake), cells);
    assert_eq!(snake.direction(), Direction::Left);
    assert!(snake.contains(at(0, 0)));
}

#[test]
fn grow_into_the_body_crashes_and_changes_nothing() {
    let cells = vec![at(0, 0), at(1, 0), at(2, 0), at(2, 1), at(1, 1)];
    let mut snake = Snake::new(&cells, Direction::Left).unwrap();
    assert_eq!(snake.grow(Direction::Up, 10, 10), Move::Crash);
    assert_eq!(cells_of(&snake), cells);
    assert_eq!(snake.direction(), Direction::Left);
}

#[test]
fn crawl_onto_the_cell_of_the_tail_does_not_crash() {
    // A ring of four cells: the head at (0, 1) looks up at the tail at (0, 0).
    let cells = vec![at(0, 0), at(1, 0), at(1, 1), at(0, 1)];
    let mut snake = Snake::new(&cells, Direction::Left).unwrap();
    assert_eq!(snake.next_head(Direction::Up, 10, 10), at(0, 0));
    assert_eq!(snake.crawl(Direction::Up, 10, 10), Move::Clear);
    assert_eq!(cells_of(&snake), vec![at(1, 0), at(1, 1), at(0, 1), at(0, 0)]);
    assert!(snake.contains(at(0, 0)));
}

#[test]
fn grow_onto_the_cell_of_the_tail_crashes() {
    let cells = vec![at(0, 0), at(1, 0), at(1, 1), at(0, 1)];
    let mut snake = Snake::new(&cells, Direction::Left).unwrap();
    assert_eq!(snake.grow(Direction::Up, 10, 10), Move::Crash);
    assert_eq!(cells_of(&snake), cells);
}

#[test]
fn a_corridor_of_one_row_never_crashes_the_snake() {
    let mut snake = Snake::new(&vec![at(0, 0), at(1, 0), at(2, 0)], Direction::Right).unwrap();
    let heads = [at(3, 0), at(4, 0), at(0, 0), at(1, 0), at(2, 0)];
    for expected in heads.iter() {
        assert_eq!(snake.crawl(Direction::Right, 5, 1), Move::Clear);
        assert_eq!(snake.head(), *expected);
        assert_eq!(snake.len(), 3);
    }
    assert_eq!(cells_of(&snake), vec![at(0, 0), at(1, 0), at(2, 0)]);
}

#[test]
fn a_snake_that_fills_its_corridor_still_crawls() {
    let cells = vec![at(0, 0), at(1, 0), at(2, 0), at(3, 0), at(4, 0)];
    let mut snake = Snake::new(&cells, Direction::Right).unwrap();
    assert_eq!(snake.crawl(Direction::Right, 5, 1), Move::Clear);
    assert_eq!(cells_of(&snake), vec![at(1, 0), at(2, 0), at(3, 0), at(4, 0), at(0, 0)]);
}

#[test]
fn growth_in_a_corridor_ends_in_a_crash() {
    let mut snake = Snake::new(&vec![at(0, 0), at(1, 0), at(2, 0)], Direction::Right).unwrap();
    assert_eq!(snake.grow(Direction::Right, 5, 1), Move::Clear);
    assert_eq!(snake.grow(Direction::Right, 5, 1), Move::Clear);
    assert_eq!(snake.len(), 5);
    assert_eq!(snake.grow(Direction::Right, 5, 1), Move::Crash);
    assert_eq!(snake.len(), 5);
}

#[test]
fn a_snake_of_one_cell_on_a_board_of_one_cell_crawls_in_place() {
    let mut snake = Snake::new(&vec![at(0, 0)], Direction::Right).unwrap();
    assert_eq!(snake.crawl(Direction::Right, 1, 1), Move::Clear);
    assert_eq!(cells_of(&snake), vec![at(0, 0)]);
}
