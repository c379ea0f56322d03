//! A square noughts-and-crosses board of any side length, with a configurable
//! run length needed to win, and the turn-taking rules that drive a game on it.

pub mod board;
pub mod game;
pub mod grid;
pub mod laws;
pub mod mark;
pub mod moves;
pub mod number;
pub mod report;
pub mod scan;
pub mod setup;
pub mod text;
