//! A chess rules engine: board representation, per-piece move generation,
//! attack and check detection, legality filtering, and the game state
//! machine that applies moves and classifies the resulting position.

pub mod types;
pub mod notation;
pub mod board;
pub mod attack;
pub mod movegen;
pub mod game;
pub mod laws;
