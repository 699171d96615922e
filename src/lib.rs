//! Tic-tac-toe game engine: a 3x3 board stored as two disjoint 9-bit sets,
//! and a turn-based match on top of it.

pub mod board;
pub mod game;
pub mod errors;
pub mod render;
pub mod parse;
