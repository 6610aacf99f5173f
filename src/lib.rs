//! A side-scrolling obstacle-avoidance game: a body falls under gravity,
//! flaps upward on input, and must pass through gaps in scrolling obstacle
//! pairs. All quantities are integers: lengths in micro-units, time in
//! milliseconds, velocities in micro-units per millisecond.
pub mod burst;
pub mod collision;
pub mod display;
pub mod entity;
pub mod frame;
pub mod game;
pub mod geometry;
pub mod laws;
pub mod random;
pub mod spawner;
