use snake::game::Game;
use snake::geometry::{Direction, Position};
use snake::record::{end_message, judge, read_record, write_record, Finish, Verdict};
use snake::text::parse_high_score;

fn text(bytes: Vec<u8>) -> String {
    String::from_utf8(bytes).unwrap()
}

#[test]
fn a_score_above_the_record_is_a_high_score_and_saved() {
    assert_eq!(judge(12, Some(11)), Finish { verdict: Verdict::NewHighScore, save: true });
}

#[test]
fn a_score_equal_to_the_record_is_a_high_score_and_not_saved() {
    assert_eq!(judge(12, Some(12)), Finish { verdict: Verdict::NewHighScore, save: false });
    assert_eq!(judge(0, Some(0)), Finish { verdict: Verdict::NewHighScore, save: false });
}

#[test]
fn a_score_below_the_record_is_beaten() {
    assert_eq!(judge(12, Some(13)), Finish { verdict: Verdict::Beaten(13), save: false });
}

#[test]
fn without_a_record_the_first_score_is_saved() {
    assert_eq!(judge(12, None), Finish { verdict: Verdict::NoRecord, save: true });
    assert_eq!(judge(0, None), Finish { verdict: Verdict::NoRecord, save: false });
}

#[test]
fn a_record_is_digits() {
    assert_eq!(parse_high_score(&b"42".to_vec()), Some(42));
    assert_eq!(parse_high_score(&b"0".to_vec()), Some(0));
    assert_eq!(parse_high_score(&b"007".to_vec()), Some(7));
    assert_eq!(parse_high_score(&b"+7".to_vec()), Some(7));
    assert_eq!(parse_high_score(&b"4294967295".to_vec()), Some(4294967295));
    assert_eq!(parse_high_score(&b"0000000004294967295".to_vec()), Some(4294967295));
}

#[test]
fn anything_else_is_no_record() {
    for content in [
        &b""[..],
        b"+",
        b"-1",
        b"12a",
        b"a12",
        b"1 2",
        b" 12",
        b"12\n",
        b"1.5",
        b"++1",
        b"1+",
        b"4294967296",
        b"4294967300",
        b"42949672950",
        b"99999999999999999999999999",
        b"\xff",
    ] {
        assert_eq!(parse_high_score(&content.to_vec()), None);
    }
}

#[test]
fn a_missing_file_is_no_record() {
    assert_eq!(read_record(None), None);
    assert_eq!(read_record(Some(&b"15".to_vec())), Some(15));
    assert_eq!(read_record(Some(&b"fifteen".to_vec())), None);
}

#[test]
fn a_record_is_read_back_as_written() {
    for score in [0u32, 1, 9, 10, 11, 99, 100, 101, 65535, 1000000, 4294967295] {
        let content = write_record(score);
        assert_eq!(text(content.clone()), score.to_string());
        assert_eq!(parse_high_score(&content), Some(score));
    }
}

#[test]
fn the_player_is_told_how_the_game_ended() {
    assert_eq!(text(end_message(12, Verdict::NewHighScore)), "New high score! You got 12");
    assert_eq!(
        text(end_message(12, Verdict::Beaten(340))),
        "You got 12, the high score is 340. Try again!"
    );
    assert_eq!(text(end_message(0, Verdict::NoRecord)), "You got 0!");
}

#[test]
fn a_game_settles_its_own_score() {
    let cells = vec![Position { x: 0, y: 0 }];
    let food = Position { x: 1, y: 0 };
    let mut game = Game::with_layout(10, 10, &cells, Direction::Right, food, 5).unwrap();
    game.tick(Direction::Right);
    assert_eq!(game.score(), 6);
    let beaten = game.game_finish(Some(&b"7".to_vec()));
    assert_eq!(beaten, Finish { verdict: Verdict::Beaten(7), save: false });
    let high = game.game_finish(Some(&b"5".to_vec()));
    assert_eq!(high, Finish { verdict: Verdict::NewHighScore, save: true });
    let garbled = game.game_finish(Some(&b"seven".to_vec()));
    assert_eq!(garbled, Finish { verdict: Verdict::NoRecord, save: true });
    let missing = game.game_finish(None);
    assert_eq!(missing, Finish { verdict: Verdict::NoRecord, save: true });
}
