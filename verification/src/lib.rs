//! The rules of a falling-block puzzle: the playfield, the seven tetrominoes,
//! and the step that moves, turns, lands and clears them.

pub mod blocks;
pub mod game;
pub mod grid;
pub mod moves;
pub mod piece;
pub mod render;
pub mod score;
pub mod shapes;
