//! The rules of a Breakout-style arcade game: a paddle deflects a ball that breaks a
//! wall of blocks. Positions are fixed-point integers, and a renderer draws what
//! [`game::Game::snapshot`] hands it.
pub mod direction;
pub mod game;
pub mod grid;
pub mod laws;
pub mod random;
pub mod snapshot;
