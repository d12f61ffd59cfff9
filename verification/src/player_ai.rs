//! The heuristic computer player: every winning line is scored from the
//! player's own perspective, and a move is picked from the best-scored
//! candidate cells by a swappable tie-break strategy.

use vstd::prelude::*;

use crate::game::{
    line_seq, winning_line, Board, Coordinate, Error, PlayerID, WinningCoordinates, BOARD_SIZE,
    NO_MOVE, NO_PLAYER,
};
use crate::player::Player;

verus! {

pub type Score = i8;

pub const AI_SCORE_LOST: Score = -10;

pub const AI_SCORE_DRAW: Score = 0;

pub const AI_SCORE_WIN: Score = 10;

pub const AI_SCORE_DISTURB: Score = 10;

/// How one coordinate is picked from several equally-scored candidates: the
/// first in scan order, or a uniformly random element of the list. The
/// strategy is independent of the scoring logic.
#[derive(Clone, Copy, Debug, PartialEq, Eq, Structural)]
pub enum NextMoveStrategy {
    First,
    Random,
}

/// The three coordinates of a line are all on the board.
pub open spec fn line_coords_ok(cs: Seq<Coordinate>) -> bool {
    &&& cs.len() == 3
    &&& forall|j: int| 0 <= j < 3 ==> #[trigger] cs[j] < BOARD_SIZE
}

/// How many of the line's three cells are unoccupied.
pub open spec fn empty_count(b: Seq<PlayerID>, cs: Seq<Coordinate>) -> int {
    (if b[cs[0] as int] == NO_PLAYER {
        1int
    } else {
        0int
    }) + (if b[cs[1] as int] == NO_PLAYER {
        1int
    } else {
        0int
    }) + (if b[cs[2] as int] == NO_PLAYER {
        1int
    } else {
        0int
    })
}

/// How many of the line's three cells an opposing player occupies.
pub open spec fn opponent_count(b: Seq<PlayerID>, cs: Seq<Coordinate>, me: PlayerID) -> int {
    (if b[cs[0] as int] != NO_PLAYER && b[cs[0] as int] != me {
        1int
    } else {
        0int
    }) + (if b[cs[1] as int] != NO_PLAYER && b[cs[1] as int] != me {
        1int
    } else {
        0int
    }) + (if b[cs[2] as int] != NO_PLAYER && b[cs[2] as int] != me {
        1int
    } else {
        0int
    })
}

/// The first unoccupied cell of the line in scan order, or `NO_MOVE`.
pub open spec fn first_empty(b: Seq<PlayerID>, cs: Seq<Coordinate>) -> Coordinate {
    if b[cs[0] as int] == NO_PLAYER {
        cs[0]
    } else if b[cs[1] as int] == NO_PLAYER {
        cs[1]
    } else if b[cs[2] as int] == NO_PLAYER {
        cs[2]
    } else {
        NO_MOVE
    }
}

/// The heuristic score of one line, in the fixed precedence order: an
/// immediate win; a line an opponent holds (a block when the opponent is one
/// move from winning, otherwise lost); a still-winnable line, better the
/// fewer cells remain; a full line without gain.
pub open spec fn line_score(b: Seq<PlayerID>, cs: Seq<Coordinate>, me: PlayerID) -> int {
    let e = empty_count(b, cs);
    let o = opponent_count(b, cs, me);
    if o == 0 && e == 1 {
        AI_SCORE_WIN as int
    } else if o > 0 && e > 0 {
        if o == 2 {
            AI_SCORE_DISTURB as int
        } else {
            AI_SCORE_LOST as int
        }
    } else if o == 0 && e > 0 {
        AI_SCORE_WIN as int / e
    } else if o > 0 {
        AI_SCORE_LOST as int
    } else {
        AI_SCORE_DRAW as int
    }
}

/// The score of the k-th winning line.
pub open spec fn score_of_line(b: Seq<PlayerID>, me: PlayerID, k: int) -> int {
    line_score(b, line_seq(k), me)
}

/// The candidate cell of the k-th winning line.
pub open spec fn cand_of_line(b: Seq<PlayerID>, k: int) -> Coordinate {
    first_empty(b, line_seq(k))
}

/// The best score among the first k lines, never below LOST.
pub open spec fn best_score_upto(b: Seq<PlayerID>, me: PlayerID, k: int) -> int
    decreases k,
{
    if k <= 0 {
        AI_SCORE_LOST as int
    } else {
        let s = score_of_line(b, me, k - 1);
        let prev = best_score_upto(b, me, k - 1);
        if s > prev {
            s
        } else {
            prev
        }
    }
}

/// The candidates of those of the first k lines that score `best`, in scan
/// order, duplicates kept.
pub open spec fn best_moves_upto(b: Seq<PlayerID>, me: PlayerID, k: int, best: int) -> Seq<
    Coordinate,
>
    decreases k,
{
    if k <= 0 {
        Seq::empty()
    } else if score_of_line(b, me, k - 1) == best {
        best_moves_upto(b, me, k - 1, best).push(cand_of_line(b, k - 1))
    } else {
        best_moves_upto(b, me, k - 1, best)
    }
}

/// The best score over all eight winning lines.
pub open spec fn best_score(b: Seq<PlayerID>, me: PlayerID) -> int {
    best_score_upto(b, me, 8)
}

/// The candidate cells of all lines that achieve the best score, in scan
/// order, duplicates kept.
pub open spec fn best_moves(b: Seq<PlayerID>, me: PlayerID) -> Seq<Coordinate> {
    best_moves_upto(b, me, 8, best_score(b, me))
}

/// No line ever scores below LOST.
pub proof fn lemma_score_lower_bound(b: Seq<PlayerID>, cs: Seq<Coordinate>, me: PlayerID)
    ensures
        AI_SCORE_LOST as int <= line_score(b, cs, me),
{
}

/// The best score among the first k lines bounds each of their scores.
proof fn lemma_best_score_bounds(b: Seq<PlayerID>, me: PlayerID, k: int)
    requires
        0 <= k <= 8,
    ensures
        AI_SCORE_LOST as int <= best_score_upto(b, me, k),
        forall|j: int| 0 <= j < k ==> #[trigger] score_of_line(b, me, j) <= best_score_upto(
            b,
            me,
            k,
        ),
    decreases k,
{
    if k > 0 {
        lemma_best_score_bounds(b, me, k - 1);
    }
}

/// A threshold above the best score of the first k lines selects none.
proof fn lemma_best_moves_empty_above(b: Seq<PlayerID>, me: PlayerID, k: int, best: int)
    requires
        0 <= k <= 8,
        best > best_score_upto(b, me, k),
    ensures
        best_moves_upto(b, me, k, best) == Seq::<Coordinate>::empty(),
    decreases k,
{
    if k > 0 {
        lemma_best_score_bounds(b, me, k);
        lemma_best_moves_empty_above(b, me, k - 1, best);
    }
}

/// Among any non-zero number of scanned lines, at least one achieves the
/// best score, so the candidate list is never empty.
proof fn lemma_best_moves_nonempty(b: Seq<PlayerID>, me: PlayerID, k: int)
    requires
        1 <= k <= 8,
    ensures
        best_moves_upto(b, me, k, best_score_upto(b, me, k)).len() >= 1,
    decreases k,
{
    let best = best_score_upto(b, me, k);
    if score_of_line(b, me, k - 1) != best {
        lemma_score_lower_bound(b, line_seq(k - 1), me);
        assert(best == best_score_upto(b, me, k - 1));
        lemma_best_moves_nonempty(b, me, k - 1);
    }
}

/// Monotonicity of the heuristic on lines free of opposing pieces: the fewer
/// empty cells remain, the higher the score, up to an immediate win.
pub proof fn lemma_evaluator_monotonic(b: Seq<PlayerID>, cs: Seq<Coordinate>, me: PlayerID)
    requires
        opponent_count(b, cs, me) == 0,
    ensures
        empty_count(b, cs) == 1 ==> line_score(b, cs, me) == AI_SCORE_WIN as int,
        empty_count(b, cs) == 2 ==> line_score(b, cs, me) == AI_SCORE_WIN as int / 2,
        empty_count(b, cs) == 2 ==> line_score(b, cs, me) == 5,
        empty_count(b, cs) == 3 ==> line_score(b, cs, me) == AI_SCORE_WIN as int / 3,
        empty_count(b, cs) == 3 ==> line_score(b, cs, me) == 3,
{
}

/// Blocking: a line holding exactly two opposing pieces and one empty cell
/// scores DISTURB, with that empty cell as the candidate.
pub proof fn lemma_evaluator_blocks(b: Seq<PlayerID>, cs: Seq<Coordinate>, me: PlayerID)
    requires
        opponent_count(b, cs, me) == 2,
        empty_count(b, cs) == 1,
    ensures
        line_score(b, cs, me) == AI_SCORE_DISTURB as int,
        forall|j: int| 0 <= j < 3 && b[#[trigger] cs[j] as int] == NO_PLAYER ==> first_empty(
            b,
            cs,
        ) == cs[j],
{
}

/// Relies on rand::random: a sample drawn from the thread-local random
/// generator. Nothing is promised of the value.
#[verifier::external_body]
fn random_u64() -> u64 {
    rand::random()
}

impl NextMoveStrategy {
    /// Picks one coordinate from a non-empty list of equally-scored
    /// candidates: the first one, or a random element (a coordinate that
    /// appears more often is proportionally more likely).
    pub fn pick(&self, possible_moves: &Vec<Coordinate>) -> (r: Coordinate)
        requires
            possible_moves@.len() > 0,
        ensures
            self is First ==> r == possible_moves@[0],
            possible_moves@.contains(r),
    {
        match self {
            NextMoveStrategy::First => {
                let r = possible_moves[0];
                proof {
                    assert(possible_moves@.contains(r)) by {
                        assert(possible_moves@[0] == r);
                    }
                }
                r
            },
            NextMoveStrategy::Random => {
                let raw = random_u64();
                let idx = (raw as usize) % possible_moves.len();
                let r = possible_moves[idx];
                proof {
                    assert(possible_moves@.contains(r)) by {
                        assert(possible_moves@[idx as int] == r);
                    }
                }
                r
            },
        }
    }
}

#[derive(Debug)]
pub struct AIPlayer {
    player_id: PlayerID,
    move_strategy: NextMoveStrategy,
}

impl AIPlayer {
    /// The identity this player plays under.
    pub closed spec fn spec_id(self) -> PlayerID {
        self.player_id
    }

    /// The configured tie-break strategy.
    pub closed spec fn spec_strategy(self) -> NextMoveStrategy {
        self.move_strategy
    }

    pub fn first_move_strategy() -> (r: NextMoveStrategy)
        ensures
            r is First,
    {
        NextMoveStrategy::First
    }

    pub fn random_move_strategy() -> (r: NextMoveStrategy)
        ensures
            r is Random,
    {
        NextMoveStrategy::Random
    }

    pub fn new(id: PlayerID) -> (r: Self)
        ensures
            r.spec_id() == id,
            r.spec_strategy() is First,
    {
        Self::new_with_strategy(id, Self::first_move_strategy())
    }

    pub fn new_with_strategy(player_id: PlayerID, move_strategy: NextMoveStrategy) -> (r: Self)
        ensures
            r.spec_id() == player_id,
            r.spec_strategy() == move_strategy,
    {
        Self { player_id, move_strategy }
    }

    /// Scores one line for this player: the candidate cell (the line's first
    /// empty cell, or `NO_MOVE`) and the heuristic score of playing there.
    pub fn evaluate_next_move(&self, b: Board, coordinates: WinningCoordinates) -> (r: (
        Coordinate,
        Score,
    ))
        requires
            line_coords_ok(coordinates@),
        ensures
            r.0 == first_empty(b@, coordinates@),
            r.1 as int == line_score(b@, coordinates@, self.spec_id()),
    {
        let mut free: i8 = 0;
        let mut other_player: i8 = 0;
        let mut score: Score = AI_SCORE_DRAW;
        let mut next_coordinate: Coordinate = NO_MOVE;

        let c0 = coordinates[0];
        if b[c0] == NO_PLAYER {
            if next_coordinate == NO_MOVE {
                next_coordinate = c0;
            }
            free = free + 1;
        } else if b[c0] != self.player_id {
            score = AI_SCORE_LOST;
            other_player = other_player + 1;
        }

        let c1 = coordinates[1];
        if b[c1] == NO_PLAYER {
            if next_coordinate == NO_MOVE {
                next_coordinate = c1;
            }
            free = free + 1;
        } else if b[c1] != self.player_id {
            score = AI_SCORE_LOST;
            other_player = other_player + 1;
        }

        let c2 = coordinates[2];
        if b[c2] == NO_PLAYER {
            if next_coordinate == NO_MOVE {
                next_coordinate = c2;
            }
            free = free + 1;
        } else if b[c2] != self.player_id {
            score = AI_SCORE_LOST;
            other_player = other_player + 1;
        }

        if other_player == 0 && free == 1 {
            // certain win
            score = AI_SCORE_WIN;
        } else if score == AI_SCORE_LOST && next_coordinate != NO_MOVE {
            // lost or a draw; with the opponent one move from winning, block
            if other_player == 2 {
                score = AI_SCORE_DISTURB;
            }
        } else if free > 0 {
            // still winnable
            score = AI_SCORE_WIN / free;
        }
        (next_coordinate, score)
    }

    /// The identity this player plays under.
    pub fn id(&self) -> (r: PlayerID)
        ensures
            r == self.spec_id(),
    {
        self.player_id
    }

    /// Evaluates all eight winning lines, collects the candidate cells of
    /// the best-scored ones in scan order, and lets the tie-break strategy
    /// pick one. Never fails; a board affording no move yields `NO_MOVE`.
    pub fn next_move(&self, b: Board) -> (r: Result<Coordinate, Error>)
        ensures
            ({
                let cands = best_moves(b@, self.spec_id());
                match r {
                    Ok(c) => {
                        &&& cands.len() > 0
                        &&& self.spec_strategy() is First ==> c == cands[0]
                        &&& cands.contains(c)
                    },
                    Err(_) => false,
                }
            }),
    {
        let mut best_score_v: Score = AI_SCORE_LOST;
        let mut best_moves_v: Vec<Coordinate> = Vec::new();

        let mut k: usize = 0;
        while k < 8
            invariant
                k <= 8,
                best_score_v as int == best_score_upto(b@, self.spec_id(), k as int),
                best_moves_v@ == best_moves_upto(
                    b@,
                    self.spec_id(),
                    k as int,
                    best_score_v as int,
                ),
            decreases 8 - k,
        {
            let coordinates = winning_line(k);
            proof {
                crate::game::lemma_line_coords_in_range(k as int);
            }
            let (next_move_c, score) = self.evaluate_next_move(b, coordinates);
            if score > best_score_v {
                proof {
                    lemma_best_moves_empty_above(b@, self.spec_id(), k as int, score as int);
                }
                best_score_v = score;
                best_moves_v.clear();
                best_moves_v.push(next_move_c);
            } else if score == best_score_v {
                best_moves_v.push(next_move_c);
            }
            k = k + 1;
        }

        proof {
            lemma_best_moves_nonempty(b@, self.spec_id(), 8);
        }
        if best_moves_v.is_empty() {
            return Ok(NO_MOVE);
        }

        let next_move_c = self.move_strategy.pick(&best_moves_v);
        Ok(next_move_c)
    }
}

impl Player for AIPlayer {
    fn id(&self) -> PlayerID {
        AIPlayer::id(self)
    }

    fn next_move(&self, b: Board) -> Result<Coordinate, Error> {
        AIPlayer::next_move(self, b)
    }
}

} // verus!
