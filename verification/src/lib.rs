//! A modular, trait-driven Tetris for the terminal, with its game logic
//! verified.
//!
//! The crate is layered, and each layer depends only on the traits of the one
//! below it:
//!
//! - [`geometry`]: points, offsets and rotations.
//! - [`piece`]: the [`piece::Shape`] trait and the seven tetrominoes.
//! - [`board`]: the [`board::Playfield`] trait and the locked stack.
//! - [`rules`]: chance, reward and pace, bundled behind [`rules::RuleSet`].
//! - [`game`]: the engine, driven purely by actions and elapsed time, and the
//!   laws every action and tick keep.
//! - [`render`]: views painting onto the [`render::Canvas`] trait.
//! - [`input`]: key presses mapped to actions.
//! - [`app`]: start-up options and the loop that connects them.
//!
//! Nothing here reads a keyboard or writes to a terminal, which is why a
//! complete game can be played inside a test.

pub mod geometry;
pub mod piece;
pub mod board;
pub mod text;
pub mod time;
pub mod rules;
pub mod game;
pub mod input;
pub mod render;
pub mod app;
pub mod test_support;
