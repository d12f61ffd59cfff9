//! The player capability: a participant has an identity and, given a board
//! snapshot, produces a move (or fails, as an interactive source may).

use vstd::prelude::*;

use crate::game::{Board, Coordinate, Error, PlayerID};

verus! {

/// Any conforming implementation may be registered as a participant: the
/// heuristic computer player of this crate, or an external input source.
pub trait Player {
    fn id(&self) -> PlayerID;

    fn next_move(&self, b: Board) -> Result<Coordinate, Error>;
}

} // verus!
