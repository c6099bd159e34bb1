//! A grid chase game: a trail of segments steered by the player grows each
//! time its head reaches a target, and the game ends when the head runs
//! into the rest of the trail.
pub mod grid;

pub mod engine;
pub mod laws;

pub use grid::{Direction, Position, HEIGHT, WIDTH};
