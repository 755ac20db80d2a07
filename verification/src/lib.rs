//! Rules engine of a falling-block puzzle game: the playing field, the piece
//! geometry, collision and placement checks, the shuffled piece supply and the
//! cursor state machine, each with a machine-checked contract.

pub mod engine;
