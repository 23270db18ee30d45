//! Core simulation of a side-scrolling arcade game: a player falls under
//! gravity and jumps on input while pipes, enemies and boosts scroll in from
//! the right edge of the screen. Scoring, lives, boost effects and the
//! start-screen / play / game-over state machine are all here; rendering,
//! audio and input sampling live outside and talk to the session through
//! plain values.
//!
//! All coordinates are integer sub-pixel units (four to a pixel) and all
//! times are integer nanoseconds, so every step of the simulation is exact.

pub mod entities;
pub mod rng;
pub mod session;
pub mod geometry;
pub mod num;
