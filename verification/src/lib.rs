//! Core rules of a terminal rhythm game: lanes and keys per difficulty,
//! timing grades and scoring, the built-in charts, and the game state machine.
pub mod analysis;
pub mod difficulty;
pub mod grade;
pub mod song;
pub mod songs;
pub mod game;
pub mod laws;
mod rng;
