//! Core logic of a wave-based path-following game.
//!
//! A luminance image becomes a walkability grid, a depth-first search over
//! that grid yields the route units will walk, and a tick-driven scheduler
//! releases queued units onto the route and collects them when they finish.
//! Rendering, input and asset loading live outside this crate; the types
//! here exchange plain values with that outer layer.

pub mod follower;
pub mod fruit;
pub mod grid;
pub mod level;
pub mod nutrients;
pub mod path;
pub mod units;
pub mod wave;
