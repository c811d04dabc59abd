//! Core rules of a grid-based "dodge the falling asteroids" game.
//!
//! A player moves on a square grid while waves of asteroids fall from the
//! top row. Surviving asteroids that leave the grid add to the score, the
//! score picks the difficulty of the next wave, and touching an asteroid
//! ends the session.
//!
//! Every length, position, speed and ratio is a fixed-point integer counted
//! in millionths: a position of `1_000_000` is one cell, a speed of
//! `1_500_000` is one and a half cells per second, a pixel coordinate of
//! `25_000_000` is pixel 25. Time is counted in microseconds.
//!
//! - [`geom`]: points and displacements.
//! - [`grid`]: the grid, its mapping to the screen, collisions, asteroids.
//! - [`wave`]: ordering and thinning of sampled columns into a wave.
//! - [`entity`]: difficulty profiles and the random generation of a wave.
//! - [`utils`]: the choice of a profile from the score.
//! - [`game`]: the session and its frame-by-frame rules.
//! - [`tiles`]: the backdrop map.
//! - [`color`], [`error`]: the palette and what can be refused.

pub mod color;
pub mod entity;
pub mod error;
pub mod game;
pub mod geom;
pub mod grid;
mod random;
pub mod tiles;
pub mod utils;
pub mod wave;
