//! A verified 2D flocking simulation: agents ("boids") steer by separation,
//! alignment and cohesion against a per-frame snapshot of the population,
//! avoid static circular obstacles, follow an optional pointer attraction,
//! and wrap around a bounded toroidal world.
//!
//! All world quantities are fixed-point integers in milli-units (one
//! thousandth of a world unit), so every computation is exact and verified.
//! The host platform (window, frame clock, input events, drawing) lives
//! outside this crate and exchanges plain values with it.

pub mod agent;
pub mod config;
pub mod math;
pub mod obstacle;
mod rng;
pub mod sim;
pub mod vec2;
