//! A verified 2D platformer simulation core: pixel-stepped swept collision
//! against axis-aligned boxes, per-body kinematic touch memory, and a player
//! movement state machine with coyote time, jump buffering and a pendulum
//! rope swing.
//!
//! All continuous quantities (velocities, sub-pixel movement remainders,
//! angles) are Q16.16 fixed-point integers, so every step of the simulation
//! is exact and deterministic.

pub mod camera;
pub mod collision;
pub mod controls;
pub mod fx;
pub mod geom;
pub mod message;
pub mod phys;
pub mod player;
pub mod spatial;
pub mod stats;
pub mod tick;
pub mod trig;
pub mod vec2;
pub mod world;

pub use fx::SCALE;
