//! Wiring the pieces together into a runnable program.

pub mod config;
pub mod runner;

pub use config::{Config, USAGE};
pub use runner::{Flow, GameLoop};
