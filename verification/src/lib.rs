//! The simulation core of a single-screen arcade game: a miner swings a
//! retractable hook at items scattered over the screen and scores what the
//! hook brings back before the round's time is up.
//!
//! All quantities are integers. Positions and lengths are whole screen units;
//! an angle is held as its cosine and sine in 16.16 fixed point.

pub mod angle;
pub mod config;
pub mod game;
pub mod geometry;
pub mod hook;
pub mod item;
pub mod laws;
pub mod miner;
pub mod random;
