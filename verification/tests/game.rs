use tictactoe::game::{PlayerID, State, NO_PLAYER};

#[test]
fn should_allow_player_to_make_a_move() {
    let s0 = State::new(1, 2);
    let id: PlayerID = 1;
    let s1 = s0.make_move(id, 0).unwrap();

    assert_eq!(
        s0.board(),
        [
            NO_PLAYER, NO_PLAYER, NO_PLAYER, //
            NO_PLAYER, NO_PLAYER, NO_PLAYER, //
            NO_PLAYER, NO_PLAYER, NO_PLAYER, //
        ],
        "invalid initial state"
    );
    assert_eq!(
        s0.is_finished(),
        (NO_PLAYER, false),
        "game shouldn't be finished"
    );

    assert_eq!(
        s1.board(),
        [
            id, NO_PLAYER, NO_PLAYER, //
            NO_PLAYER, NO_PLAYER, NO_PLAYER, //
            NO_PLAYER, NO_PLAYER, NO_PLAYER, //
        ],
        "invalid state after move"
    );
    assert_eq!(
        s1.is_finished(),
        (NO_PLAYER, false),
        "game shouldn't be finished"
    );
}

#[test]
fn should_not_make_a_move_when_game_finished() {
    let id: PlayerID = 5;
    let s0 = State::new(id, 2)
        .make_move(id, 0)
        .and_then(|s| s.make_move(id, 1))
        .and_then(|s| s.make_move(id, 2))
        .unwrap();
    assert_eq!(
        s0.board(),
        [
            id, id, id, //
            NO_PLAYER, NO_PLAYER, NO_PLAYER, //
            NO_PLAYER, NO_PLAYER, NO_PLAYER, //
        ]
    );

    let s1 = s0.make_move(id, 4);
    assert_eq!(s1.is_err(), true, "move should fail");
    assert_eq!(s1.unwrap_err(), "player 5 has already won the game");
}

#[test]
fn should_not_make_a_move_when_field_taken() {
    let id: PlayerID = 5;
    let id2: PlayerID = 7;
    let s0 = State::new(id, id2)
        .make_move(id2, 0)
        .and_then(|s| s.make_move(id, 1))
        .and_then(|s| s.make_move(id, 2))
        .unwrap();
    assert_eq!(
        s0.board(),
        [
            id2, id, id, //
            NO_PLAYER, NO_PLAYER, NO_PLAYER, //
            NO_PLAYER, NO_PLAYER, NO_PLAYER, //
        ]
    );

    let s1 = s0.make_move(id, 0);
    assert_eq!(s1.is_err(), true, "move should fail");
    assert_eq!(
        s1.unwrap_err(),
        "player 5 cannot mark field 0 since it's already taken by player 7"
    );
}

#[test]
fn should_not_allow_to_make_a_move_by_unknown_player() {
    let s0 = State::new(1, 2);
    let s1 = s0.make_move(7, 0);

    assert_eq!(s1.is_err(), true, "move should fail");
    assert_eq!(s1.unwrap_err(), "player 7 doesn't play this game");
}

#[test]
fn should_finish_game() {
    let id: PlayerID = 5;
    let s0 = State::new(id, 2);
    let s1 = s0
        .make_move(id, 0)
        .and_then(|s| s.make_move(id, 1))
        .and_then(|s| s.make_move(id, 2))
        .unwrap();

    assert_eq!(
        s1.board(),
        [
            id, id, id, //
            NO_PLAYER, NO_PLAYER, NO_PLAYER, //
            NO_PLAYER, NO_PLAYER, NO_PLAYER, //
        ],
        "invalid state after move"
    );
    assert_eq!(s1.is_finished(), (id, true), "game must be finished");
}

#[test]
fn should_win_the_game_using_winning_coordinates() {
    let id: PlayerID = 5;
    let s0 = State::new(id, 2);
    for k in 0..8 {
        let coordinates = tictactoe::game::winning_line(k);
        let s1 = s0
            .make_move(id, coordinates[0])
            .and_then(|s| s.make_move(id, coordinates[1]))
            .and_then(|s| s.make_move(id, coordinates[2]))
            .unwrap();
        assert_eq!(s1.is_finished(), (id, true), "game must be finished");
    }
}

#[test]
fn should_reject_move_out_of_board() {
    let s0 = State::new(1, 2);
    let s1 = s0.make_move(1, 9);
    assert_eq!(s1.is_err(), true, "move should fail");
    assert_eq!(s1.unwrap_err(), "player 1 made a move outside of board: 9");
}

#[test]
fn should_reject_move_after_draw() {
    // 1 2 1 / 1 2 2 / 2 1 1: a full board with no winning line.
    let s0 = State::new(1, 2);
    let s1 = s0
        .make_move(1, 0)
        .and_then(|s| s.make_move(2, 1))
        .and_then(|s| s.make_move(1, 2))
        .and_then(|s| s.make_move(1, 3))
        .and_then(|s| s.make_move(2, 4))
        .and_then(|s| s.make_move(2, 5))
        .and_then(|s| s.make_move(2, 6))
        .and_then(|s| s.make_move(1, 7))
        .and_then(|s| s.make_move(1, 8))
        .unwrap();
    assert_eq!(s1.is_finished(), (0, true), "game must be a finished draw");

    let s2 = s1.make_move(1, 0);
    assert_eq!(s2.is_err(), true, "move should fail");
    assert_eq!(s2.unwrap_err(), "game has finished with a draw");
}

#[test]
fn should_report_move_and_retake_exactly() {
    let s1 = State::new(1, 2).make_move(1, 0).unwrap();
    assert_eq!(
        s1.board(),
        [1, NO_PLAYER, NO_PLAYER, NO_PLAYER, NO_PLAYER, NO_PLAYER, NO_PLAYER, NO_PLAYER, NO_PLAYER]
    );
    let s2 = s1.make_move(1, 0);
    assert_eq!(s2.is_err(), true, "move should fail");
    assert_eq!(
        s2.unwrap_err(),
        "player 1 cannot mark field 0 since it's already taken by player 1"
    );
}

#[test]
fn should_report_each_winning_line_for_its_owner() {
    // A lone winning line owned by one player finishes the game with that
    // player as the winner, whatever else is on the board.
    let id: PlayerID = 3;
    let other: PlayerID = 9;
    let s1 = State::new(id, other)
        .make_move(other, 1)
        .and_then(|s| s.make_move(id, 2))
        .and_then(|s| s.make_move(id, 4))
        .and_then(|s| s.make_move(id, 6))
        .unwrap();
    assert_eq!(s1.is_finished(), (id, true));
}

#[test]
fn should_not_finish_open_board() {
    // One move on an otherwise empty board: lines remain open, none is won.
    let s1 = State::new(4, 6).make_move(6, 4).unwrap();
    assert_eq!(s1.is_finished(), (NO_PLAYER, false));
}
