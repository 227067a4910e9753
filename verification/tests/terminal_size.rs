use snake::terminal::{board_of, board_size, frame_width, get_terminal_size, FALLBACK_WIDTH};

#[test]
fn a_cell_takes_two_columns_and_the_last_row_is_kept() {
    assert_eq!(board_size(80, 24), Some((40, 23)));
    assert_eq!(board_size(81, 24), Some((40, 23)));
    assert_eq!(board_size(2, 2), Some((1, 1)));
    assert_eq!(board_size(3, 2), Some((1, 1)));
}

#[test]
fn a_terminal_without_room_for_a_cell_has_no_board() {
    assert_eq!(board_size(0, 0), None);
    assert_eq!(board_size(1, 24), None);
    assert_eq!(board_size(80, 1), None);
    assert_eq!(board_size(80, 0), None);
    assert_eq!(board_size(0, 24), None);
}

#[test]
fn the_largest_board_has_sixteen_bits_each_way() {
    assert_eq!(board_size(131071, 65536), Some((65535, 65535)));
    assert_eq!(board_size(131072, 65536), None);
    assert_eq!(board_size(131071, 65537), None);
    assert_eq!(board_size(usize::MAX, usize::MAX), None);
}

#[test]
fn a_frame_is_as_wide_as_the_terminal() {
    assert_eq!(frame_width(Some((80, 24))), 80);
    assert_eq!(frame_width(Some((65535, 1))), 65535);
    assert_eq!(frame_width(Some((65536, 1))), 65535);
    assert_eq!(frame_width(None), 40);
    assert_eq!(FALLBACK_WIDTH, 40);
}

#[test]
fn the_board_of_the_terminal_has_a_cell_if_there_is_one() {
    match get_terminal_size() {
        Some((width, height)) => {
            assert!(width >= 1);
            assert!(height >= 1);
            assert_eq!(board_of(term_size::dimensions()), Some((width, height)));
        }
        None => {}
    }
}

#[test]
fn without_a_terminal_there_is_no_board() {
    assert_eq!(board_of(None), None);
}

#[test]
fn the_board_follows_what_the_terminal_reports() {
    assert_eq!(board_of(Some((80, 24))), Some((40, 23)));
    assert_eq!(board_of(Some((2, 2))), Some((1, 1)));
    assert_eq!(board_of(Some((1, 24))), None);
    assert_eq!(board_of(Some((80, 1))), None);
    assert_eq!(board_of(Some((131072, 24))), None);
}
