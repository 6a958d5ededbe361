//! Tetrominoes: their footprints, their orientations and their placement.

pub mod active;
pub mod kind;
pub mod shape;

pub use active::ActivePiece;
pub use kind::Tetromino;
pub use shape::Shape;
