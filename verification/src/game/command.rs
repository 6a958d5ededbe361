//! What a player can ask the game to do.

use vstd::prelude::*;
use crate::geometry::Spin;

verus! {

/// A single player intent, already decoded from whatever key produced it.
///
/// Input and engine meet here and nowhere else: the engine never sees a key
/// code, and the key map never sees the board.
#[derive(Debug, Clone, Copy, PartialEq, Eq, Hash, Structural)]
pub enum Action {
    /// Move the falling piece one column left.
    MoveLeft,
    /// Move the falling piece one column right.
    MoveRight,
    /// Turn the falling piece a quarter turn.
    Rotate(Spin),
    /// Step the falling piece down one row by hand.
    SoftDrop,
    /// Slam the falling piece to its landing position and lock it.
    HardDrop,
    /// Suspend or resume play.
    TogglePause,
    /// Abandon the current game and start a fresh one.
    Restart,
    /// Leave the game.
    Quit,
}

impl Action {
    /// Whether this action moves the falling piece.
    pub open spec fn moves_piece(self) -> bool {
        match self {
            Action::MoveLeft | Action::MoveRight | Action::Rotate(_) | Action::SoftDrop | Action::HardDrop => true,
            _ => false,
        }
    }

    /// Whether this action only makes sense while a piece is falling.
    ///
    /// Pause, restart and quit must keep working when play is suspended or the
    /// game is over, otherwise a finished game would trap the player.
    pub fn needs_active_piece(self) -> (b: bool)
        ensures
            b == self.moves_piece(),
    {
        match self {
            Action::MoveLeft | Action::MoveRight | Action::Rotate(_) | Action::SoftDrop | Action::HardDrop => true,
            _ => false,
        }
    }
}

} // verus!
