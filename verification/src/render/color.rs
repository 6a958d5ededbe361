//! Colours, independent of any terminal library.

use vstd::prelude::*;
use crate::piece::Tetromino;

verus! {

/// A colour a glyph can be drawn in.
///
/// Deliberately a small closed set rather than the terminal library's own type,
/// so views can be written and tested without a terminal anywhere in sight.
#[derive(Debug, Clone, Copy, PartialEq, Eq, Hash, Structural)]
pub enum Color {
    /// The terminal's own foreground colour.
    Default,
    /// Dimmed, for scaffolding such as the ghost piece.
    Dim,
    /// Cyan, the line piece.
    Cyan,
    /// Yellow, the square.
    Yellow,
    /// Magenta, the T piece.
    Magenta,
    /// Green, the S piece.
    Green,
    /// Red, the Z piece.
    Red,
    /// Blue, the J piece.
    Blue,
    /// White, the L piece.
    White,
}

impl Default for Color {
    fn default() -> (c: Color)
        ensures
            c == Color::Default,
    {
        Color::Default
    }
}

/// The colour conventionally used for `piece`.
pub open spec fn piece_color(piece: Tetromino) -> Color {
    match piece {
        Tetromino::I => Color::Cyan,
        Tetromino::O => Color::Yellow,
        Tetromino::T => Color::Magenta,
        Tetromino::S => Color::Green,
        Tetromino::Z => Color::Red,
        Tetromino::J => Color::Blue,
        Tetromino::L => Color::White,
    }
}

impl Color {
    /// The colour conventionally used for `piece`.
    pub fn of(piece: Tetromino) -> (c: Color)
        ensures
            c == piece_color(piece),
    {
        match piece {
            Tetromino::I => Color::Cyan,
            Tetromino::O => Color::Yellow,
            Tetromino::T => Color::Magenta,
            Tetromino::S => Color::Green,
            Tetromino::Z => Color::Red,
            Tetromino::J => Color::Blue,
            Tetromino::L => Color::White,
        }
    }
}

/// Every piece has a colour of its own, and none of them is one of the two
/// colours reserved for the ghost and for the chrome, so the stack stays
/// readable.
pub proof fn lemma_piece_colors_distinct(a: Tetromino, b: Tetromino)
    ensures
        a != b ==> piece_color(a) != piece_color(b),
        piece_color(a) != Color::Dim,
        piece_color(a) != Color::Default,
{
}

} // verus!
