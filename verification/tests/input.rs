use tictactoe::game::NO_MOVE;
use tictactoe::input::parse_coordinate;

#[test]
fn should_parse_a_digit() {
    assert_eq!(parse_coordinate(b"4"), 4);
    assert_eq!(parse_coordinate(b"0"), 0);
    assert_eq!(parse_coordinate(b"8"), 8);
}

#[test]
fn should_parse_a_plus_signed_number() {
    assert_eq!(parse_coordinate(b"+7"), 7);
}

#[test]
fn should_parse_numbers_beyond_the_board() {
    // Validation of the range is the game's job, not the reader's.
    assert_eq!(parse_coordinate(b"12"), 12);
    assert_eq!(parse_coordinate(b"007"), 7);
}

#[test]
fn should_map_unparseable_text_to_the_sentinel() {
    assert_eq!(parse_coordinate(b""), NO_MOVE);
    assert_eq!(parse_coordinate(b"+"), NO_MOVE);
    assert_eq!(parse_coordinate(b"abc"), NO_MOVE);
    assert_eq!(parse_coordinate(b"1x"), NO_MOVE);
    assert_eq!(parse_coordinate(b"-1"), NO_MOVE);
    assert_eq!(parse_coordinate(b"4 "), NO_MOVE);
}

#[test]
fn should_map_an_overflowing_number_to_the_sentinel() {
    assert_eq!(parse_coordinate(b"99999999999999999999999999"), NO_MOVE);
}
