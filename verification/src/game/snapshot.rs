//! An immutable picture of the game, handed to the renderer.

use vstd::prelude::*;
use crate::board::Board;
use crate::game::state::{Phase, Stats};
use crate::piece::{ActivePiece, Tetromino};

verus! {

/// Everything a renderer needs, and nothing it can change.
///
/// The engine is generic over its rule set; this is not. Taking a snapshot once
/// per frame keeps every view free of those generics, and guarantees a frame is
/// drawn from one consistent moment.
#[derive(Debug, Clone, PartialEq, Eq)]
pub struct Snapshot {
    /// The locked stack.
    pub board: Board,
    /// The piece currently falling.
    pub current: ActivePiece,
    /// Where that piece would land if dropped now.
    pub ghost_piece: ActivePiece,
    /// Upcoming pieces, soonest first.
    pub next: Vec<Tetromino>,
    /// Running totals.
    pub stats: Stats,
    /// What the game is doing.
    pub phase: Phase,
}

impl Snapshot {
    /// Whether the ghost sits somewhere the falling piece does not already cover.
    pub fn ghost_is_visible(&self) -> (b: bool)
        ensures
            b == (self.ghost_piece.origin != self.current.origin),
    {
        !(self.ghost_piece.origin.x == self.current.origin.x && self.ghost_piece.origin.y == self.current.origin.y)
    }
}

} // verus!
