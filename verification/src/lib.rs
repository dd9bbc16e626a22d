//! A two-paddle ball game on an integer grid: geometry, one simulation tick,
//! scoring and the match state machine.
//!
//! Lengths are thousandths of a pixel, velocities thousandths of a pixel per
//! second and durations microseconds, all held in integers, so every result
//! is exact and stated in a contract.

pub mod arith;
pub mod collisions;
pub mod config;
pub mod entities;
pub mod game;
pub mod geometry;
pub mod laws;
pub mod motion;
mod random;
pub mod scene;
pub mod serve;
