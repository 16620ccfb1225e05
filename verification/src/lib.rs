//! Verified core of a five-letter word-guessing game.
//!
//! The library owns the guess-scoring rule (with its duplicate-letter
//! budget), the per-letter keyboard aggregation, the daily puzzle
//! selection, and the game state machine; a terminal front end supplies
//! input and rendering around it.

pub mod date;
pub mod game;
pub mod keyboard;
pub mod logic;
pub mod words;
