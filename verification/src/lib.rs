//! A falling-block puzzle: the pieces and the board, the rules by which a
//! piece moves, turns, rests and locks, the clearing of full rows, and the
//! tick that drives a game.
//!
//! The board is a value that `TetrisBoard::update` takes from one tick to the
//! next. What it holds between ticks, and what a tick makes of it, is stated
//! in `model` and proved of the code in `board`; `laws` holds what follows
//! for every game.

pub mod board;
pub mod color;
pub mod generator;
pub mod geometry;
pub mod grid;
pub mod input;
pub mod laws;
pub mod model;
pub mod piece;
pub mod random;
