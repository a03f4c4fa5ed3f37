//! Filler: a two-player territory game on a grid of coloured cells, with the
//! move rule, the scoring and a fixed-depth minimax search for the computer
//! player.

pub mod model;
pub mod laws;
pub mod game;
pub mod score;
pub mod search;
pub mod random;
pub mod input;
