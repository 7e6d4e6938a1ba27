//! Fixed-step simulation core of a top-down arcade shooter.
//!
//! The crate owns the timing engine (frame slicing, slow-motion dilation,
//! countdown timers), the interpolation/easing primitive used for animated
//! values, the noise-based screen-shake generator, the entity store with its
//! deferred command buffer, and the per-step lifecycle systems for the player,
//! projectiles, pickups and particle effects.
//!
//! All quantities are integers: durations are microseconds, lengths and
//! speeds are millionths of a pixel ("micro-pixels"), angles are millionths
//! of a full turn ("micro-turns"), and dimensionless blend factors live on
//! the scale where one million means 1. Window creation, key polling and
//! drawing belong to outside collaborators; the systems only record what to
//! draw as plain shape descriptions.

pub mod color;
pub mod components;
pub mod easings;
pub mod environment;
pub mod events;
pub mod fixed;
pub mod random;
pub mod render;
pub mod resources;
pub mod schedule;
pub mod systems;
pub mod trig;
pub mod world;
