//! Game state of a 3x3 tic-tac-toe board: two registered players, win and
//! draw detection over the eight fixed winning lines, and validated moves.

use vstd::prelude::*;

use crate::messages::{
    msg_already_won, msg_draw, msg_field_taken, msg_outside_board, msg_unknown_player,
};
use crate::messages::{
    already_won_message, draw_message, field_taken_message, outside_board_message,
    unknown_player_message,
};

verus! {

pub type Error = String;

pub type PlayerID = usize;

pub type Board = [PlayerID; BOARD_SIZE];

pub type Coordinate = usize;

pub type WinningCoordinates = [Coordinate; 3];

pub const BOARD_SIZE: usize = 9;

/// Sentinel cell value: the cell is unoccupied / no such player.
pub const NO_PLAYER: PlayerID = 0;

/// Sentinel coordinate: no move could be determined.
pub const NO_MOVE: Coordinate = BOARD_SIZE + 1;

/// The three coordinates of the k-th winning line, in the fixed enumeration
/// order: three rows, three columns, two diagonals.
pub open spec fn line_seq(k: int) -> Seq<Coordinate> {
    if k == 0 {
        seq![0, 1, 2]
    } else if k == 1 {
        seq![3, 4, 5]
    } else if k == 2 {
        seq![6, 7, 8]
    } else if k == 3 {
        seq![0, 3, 6]
    } else if k == 4 {
        seq![1, 4, 7]
    } else if k == 5 {
        seq![2, 5, 8]
    } else if k == 6 {
        seq![0, 4, 8]
    } else {
        seq![2, 4, 6]
    }
}

/// All three cells of line k hold the same player, and it is not `NO_PLAYER`.
pub open spec fn line_won(b: Seq<PlayerID>, k: int) -> bool {
    let c = line_seq(k);
    &&& b[c[0] as int] != NO_PLAYER
    &&& b[c[0] as int] == b[c[1] as int]
    &&& b[c[1] as int] == b[c[2] as int]
}

/// Some cell of line k is still unoccupied.
pub open spec fn line_has_empty(b: Seq<PlayerID>, k: int) -> bool {
    let c = line_seq(k);
    ||| b[c[0] as int] == NO_PLAYER
    ||| b[c[1] as int] == NO_PLAYER
    ||| b[c[2] as int] == NO_PLAYER
}

/// The owner of the first won line at index k or later, scanning in
/// enumeration order; `NO_PLAYER` if none of them is won.
pub open spec fn winner_from(b: Seq<PlayerID>, k: int) -> PlayerID
    decreases 8 - k,
{
    if k < 0 || k >= 8 {
        NO_PLAYER
    } else if line_won(b, k) {
        b[line_seq(k)[0] as int]
    } else {
        winner_from(b, k + 1)
    }
}

pub open spec fn board_full(b: Seq<PlayerID>) -> bool {
    forall|i: int| 0 <= i < BOARD_SIZE ==> b[i] != NO_PLAYER
}

/// What `is_finished` reports of a board: the winner of the first won line
/// (or `NO_PLAYER`), and whether the game is over (someone won, or no line
/// has an empty cell left, which on this board means it is full).
pub open spec fn finished_result(b: Seq<PlayerID>) -> (PlayerID, bool) {
    let w = winner_from(b, 0);
    (w, w != NO_PLAYER || board_full(b))
}

#[derive(Debug, Clone)]
pub struct State {
    players: [PlayerID; 2],
    board: Board,
}

impl State {
    /// The cells of the board, as a sequence of nine player ids.
    pub closed spec fn spec_board(self) -> Seq<PlayerID> {
        self.board@
    }

    /// The two registered participants, in registration order.
    pub closed spec fn spec_players(self) -> (PlayerID, PlayerID) {
        (self.players@[0], self.players@[1])
    }

    /// A cell may only hold `NO_PLAYER` or one of the registered players.
    pub open spec fn wf(self) -> bool {
        forall|i: int| 0 <= i < BOARD_SIZE ==> {
            ||| #[trigger] self.spec_board()[i] == NO_PLAYER
            ||| self.spec_board()[i] == self.spec_players().0
            ||| self.spec_board()[i] == self.spec_players().1
        }
    }

    pub fn new(p1: PlayerID, p2: PlayerID) -> (s: Self)
        ensures
            s.spec_players() == (p1, p2),
            s.spec_board() =~= Seq::new(BOARD_SIZE as nat, |i: int| NO_PLAYER),
            s.wf(),
    {
        Self {
            players: [p1, p2],
            board: [
                NO_PLAYER, NO_PLAYER, NO_PLAYER,
                NO_PLAYER, NO_PLAYER, NO_PLAYER,
                NO_PLAYER, NO_PLAYER, NO_PLAYER,
            ],
        }
    }

    /// A read-only snapshot (a copy) of the current cells.
    pub fn board(&self) -> (b: Board)
        ensures
            b@ == self.spec_board(),
    {
        self.board
    }

    /// Scans the eight winning lines in enumeration order. Returns the owner
    /// of the first fully-owned line together with `true`; with no such line,
    /// returns `NO_PLAYER` and whether every line (hence the board) is full.
    pub fn is_finished(&self) -> (r: (PlayerID, bool))
        ensures
            r == finished_result(self.spec_board()),
    {
        let ghost b = self.spec_board();
        let mut finished = true;
        let mut k: usize = 0;
        while k < 8
            invariant
                k <= 8,
                b == self.spec_board(),
                winner_from(b, 0) == winner_from(b, k as int),
                finished == (forall|j: int| 0 <= j < k ==> !line_has_empty(b, j)),
            decreases 8 - k,
        {
            let c = winning_line(k);
            let x = self.board[c[0]];
            let y = self.board[c[1]];
            let z = self.board[c[2]];
            if x == NO_PLAYER || y == NO_PLAYER || z == NO_PLAYER {
                proof {
                    assert(line_has_empty(b, k as int));
                    assert(!line_won(b, k as int));
                }
                finished = false;
            } else if x == y && x == z && y == z {
                proof {
                    assert(line_won(b, k as int));
                }
                return (x, true);
            } else {
                proof {
                    assert(!line_has_empty(b, k as int));
                    assert(!line_won(b, k as int));
                }
            }
            k = k + 1;
        }
        proof {
            lemma_board_full_iff_lines_full(b);
        }
        (NO_PLAYER, finished)
    }

    /// Validates and applies a move. In order: the player must be registered,
    /// the game must not be over, the coordinate must be on the board, and
    /// the cell must be free; each violation is reported with its own
    /// message. On success a new state is returned, identical to the
    /// receiver but for the target cell; the receiver itself never changes.
    pub fn make_move(&self, player_id: PlayerID, x: Coordinate) -> (r: Result<State, Error>)
        ensures
            ({
                let b = self.spec_board();
                let fr = finished_result(b);
                let registered = player_id == self.spec_players().0
                    || player_id == self.spec_players().1;
                match r {
                    Ok(s2) => {
                        &&& registered
                        &&& !fr.1
                        &&& x < BOARD_SIZE
                        &&& b[x as int] == NO_PLAYER
                        &&& s2.spec_board() == b.update(x as int, player_id)
                        &&& s2.spec_players() == self.spec_players()
                        &&& self.wf() ==> s2.wf()
                    },
                    Err(e) => {
                        &&& !(registered && !fr.1 && x < BOARD_SIZE && b[x as int] == NO_PLAYER)
                        &&& e@ == if !registered {
                            msg_unknown_player(player_id as int)
                        } else if fr.1 && fr.0 == NO_PLAYER {
                            msg_draw()
                        } else if fr.1 {
                            msg_already_won(fr.0 as int)
                        } else if x >= BOARD_SIZE {
                            msg_outside_board(player_id as int, x as int)
                        } else {
                            msg_field_taken(player_id as int, x as int, b[x as int] as int)
                        }
                    },
                }
            }),
    {
        if player_id != self.players[0] && player_id != self.players[1] {
            return Err(unknown_player_message(player_id));
        }

        let (winner, finished) = self.is_finished();
        if finished {
            return if winner == NO_PLAYER {
                Err(draw_message())
            } else {
                Err(already_won_message(winner))
            };
        }

        if x >= BOARD_SIZE {
            return Err(outside_board_message(player_id, x));
        } else if self.board[x] != NO_PLAYER {
            return Err(field_taken_message(player_id, x, self.board[x]));
        }
        let mut board = self.board;
        board[x] = player_id;
        Ok(State { players: self.players, board })
    }
}

/// Every cell lies on some winning line (cells 0..=8 are covered by the three
/// rows alone), so no line having an empty cell is the same as a full board.
pub proof fn lemma_board_full_iff_lines_full(b: Seq<PlayerID>)
    ensures
        board_full(b) <==> (forall|k: int| 0 <= k < 8 ==> !line_has_empty(b, k)),
{
    if forall|k: int| 0 <= k < 8 ==> !line_has_empty(b, k) {
        assert(!line_has_empty(b, 0));
        assert(!line_has_empty(b, 1));
        assert(!line_has_empty(b, 2));
        assert forall|i: int| 0 <= i < BOARD_SIZE implies b[i] != NO_PLAYER by {
            assert(line_seq(0) == seq![0usize, 1, 2]);
            assert(line_seq(1) == seq![3usize, 4, 5]);
            assert(line_seq(2) == seq![6usize, 7, 8]);
        }
    }
    if board_full(b) {
        assert forall|k: int| 0 <= k < 8 implies !line_has_empty(b, k) by {
            lemma_line_coords_in_range(k);
        }
    }
}

/// The coordinates of every winning line lie on the board.
pub proof fn lemma_line_coords_in_range(k: int)
    requires
        0 <= k < 8,
    ensures
        line_seq(k).len() == 3,
        forall|j: int| 0 <= j < 3 ==> 0 <= #[trigger] line_seq(k)[j] < BOARD_SIZE,
{
}

/// With no line won at index k or later, the scan from k finds no winner.
proof fn lemma_no_won_line_no_winner(b: Seq<PlayerID>, k: int)
    requires
        forall|j: int| k <= j < 8 ==> !line_won(b, j),
    ensures
        winner_from(b, k) == NO_PLAYER,
    decreases 8 - k,
{
    if 0 <= k < 8 {
        lemma_no_won_line_no_winner(b, k + 1);
    }
}

/// When every won line at index k or later is owned by player p and there is
/// at least one, the scan from k reports p.
proof fn lemma_winner_from_owned(b: Seq<PlayerID>, p: PlayerID, k: int)
    requires
        0 <= k < 8,
        exists|j: int| k <= j < 8 && #[trigger] line_won(b, j),
        forall|j: int| 0 <= j < 8 && #[trigger] line_won(b, j) ==> b[line_seq(j)[0] as int] == p,
    ensures
        winner_from(b, k) == p,
    decreases 8 - k,
{
    if !line_won(b, k) {
        let j = choose|j: int| k <= j < 8 && #[trigger] line_won(b, j);
        assert(k + 1 <= j < 8 && line_won(b, j));
        lemma_winner_from_owned(b, p, k + 1);
    }
}

/// While some line still has an empty cell and no line is fully owned by one
/// player, the game reports no winner and is not finished.
pub proof fn lemma_game_open(b: Seq<PlayerID>)
    requires
        exists|k: int| 0 <= k < 8 && #[trigger] line_has_empty(b, k),
        forall|k: int| 0 <= k < 8 ==> !line_won(b, k),
    ensures
        finished_result(b) == (NO_PLAYER, false),
{
    lemma_no_won_line_no_winner(b, 0);
    let k = choose|k: int| 0 <= k < 8 && #[trigger] line_has_empty(b, k);
    lemma_line_coords_in_range(k);
    assert(!board_full(b));
    assert(finished_result(b) == (NO_PLAYER, false));
}

/// A board where one player fully owns some winning line is reported
/// finished with that player as the winner. The one proviso: no line is
/// fully owned by anyone else (two players both holding complete lines does
/// not arise in play, since the game stops at the first win).
pub proof fn lemma_won_line_finishes(b: Seq<PlayerID>, k: int, p: PlayerID)
    requires
        0 <= k < 8,
        line_won(b, k),
        b[line_seq(k)[0] as int] == p,
        forall|j: int| 0 <= j < 8 && #[trigger] line_won(b, j) ==> b[line_seq(j)[0] as int] == p,
    ensures
        p != NO_PLAYER,
        finished_result(b) == (p, true),
{
    lemma_winner_from_owned(b, p, 0);
    assert(finished_result(b) == (p, true));
}

/// The three coordinates of the k-th winning line.
pub fn winning_line(k: usize) -> (r: WinningCoordinates)
    requires
        k < 8,
    ensures
        r@ == line_seq(k as int),
{
    if k == 0 {
        [0, 1, 2]
    } else if k == 1 {
        [3, 4, 5]
    } else if k == 2 {
        [6, 7, 8]
    } else if k == 3 {
        [0, 3, 6]
    } else if k == 4 {
        [1, 4, 7]
    } else if k == 5 {
        [2, 5, 8]
    } else if k == 6 {
        [0, 4, 8]
    } else {
        [2, 4, 6]
    }
}

} // verus!
