//! What a single playfield square can hold.

use vstd::prelude::*;
use crate::piece::Tetromino;

verus! {

/// The contents of one playfield square.
///
/// A filled cell remembers which tetromino locked there: it is the only thing
/// the renderer needs to colour the stack, so no parallel colour grid has to be
/// kept in sync with the occupancy grid.
#[derive(Debug, Clone, Copy, PartialEq, Eq, Default, Structural)]
pub enum Cell {
    /// Nothing here; a piece may move through it.
    #[default]
    Empty,
    /// Occupied by a locked piece of the given kind.
    Filled(Tetromino),
}

impl Cell {
    /// Whether a piece may occupy this square.
    pub fn is_empty(self) -> (b: bool)
        ensures
            b == (self is Empty),
    {
        match self {
            Cell::Empty => true,
            Cell::Filled(_) => false,
        }
    }

    /// Whether a locked piece occupies this square.
    pub fn is_filled(self) -> (b: bool)
        ensures
            b == (self is Filled),
    {
        !self.is_empty()
    }

    /// The tetromino locked here, if any.
    pub fn tetromino(self) -> (t: Option<Tetromino>)
        ensures
            t == (match self {
                Cell::Empty => None,
                Cell::Filled(kind) => Some(kind),
            }),
    {
        match self {
            Cell::Empty => None,
            Cell::Filled(kind) => Some(kind),
        }
    }
}

} // verus!
