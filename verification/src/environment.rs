//! Fixed numeric configuration of the simulation: screen size, unit scales,
//! effect colors and the durations that gate the periodic spawners.

use vstd::prelude::*;

verus! {

/// One whole unit on the dimensionless fixed-point scale (1.0 == `UNIT`).
pub const UNIT: i64 = 1_000_000;

/// One full turn on the angle scale: headings are kept in `[0, TURN)`.
pub const TURN: i64 = 1_000_000;

/// Half a turn.
pub const HALF_TURN: i64 = 500_000;

/// A quarter turn.
pub const QUARTER_TURN: i64 = 250_000;

/// One second in microseconds, the time unit of the whole crate.
pub const MICROS_PER_SEC: u64 = 1_000_000;

/// Largest single simulation step a frame is sliced into (1/60 s, rounded
/// down to whole microseconds).
pub const MAX_FRAME_SLICE_MICROS: u64 = 16_666;

/// Upper bound on the step duration any system accepts; keeps every product
/// of a speed and a step well inside `i64`.
pub const MAX_STEP_MICROS: u64 = 1_000_000;

/// Screen width in micro-pixels (480 px).
pub const SCREEN_WIDTH: i64 = 480_000_000;

/// Screen height in micro-pixels (270 px).
pub const SCREEN_HEIGHT: i64 = 270_000_000;

/// Positions are clamped to this magnitude in micro-pixels (2000 px), far
/// outside the playfield; it bounds every coordinate product.
pub const POS_LIMIT: i64 = 2_000_000_000;

/// Upper bound on any stored speed, in micro-pixels (or micro-units) per
/// second.
pub const SPEED_LIMIT: i64 = 1_000_000_000;

/// Upper bound on any stored turn rate, in micro-turns per second.
pub const TURN_RATE_LIMIT: i64 = 100_000_000;

/// Upper bound on interpolation endpoints and timer-free scalar values.
pub const VALUE_LIMIT: i64 = 1_000_000_000;

/// Upper bound on every duration the simulation stores, in microseconds
/// (one hour).
pub const DURATION_LIMIT: u64 = 3_600_000_000;

/// Upper bound on a single delta handed to `tick`, `advance` or `eval`, in
/// microseconds (about eleven days); keeps every accumulation inside `u64`.
pub const MAX_DELTA_MICROS: u64 = 1_000_000_000_000;

/// How long the global slow-motion window lasts after a player death (2.5 s).
pub const SLOW_DOWN_DURATION_ON_DEATH: u64 = 2_500_000;

/// Width of the two-frame dead-projectile sprite, in micro-pixels (6 px).
pub const DEAD_PROJECTILE_WIDTH: i64 = 6_000_000;

/// Height of the two-frame dead-projectile sprite, in micro-pixels (3 px).
pub const DEAD_PROJECTILE_HEIGHT: i64 = 3_000_000;

/// Z-index the player entity is spawned at, in micro-units.
pub const Z_INDEX_PLAYER: i64 = 10_000_000;

/// Z-index trail effects are spawned at, in micro-units.
pub const Z_INDEX_TRAIL_EFFECT: i64 = 5_000_000;

/// Z-index ammunition pickups are spawned at, in micro-units.
pub const Z_INDEX_AMMO_PICKUP: i64 = 6_000_000;

/// Z-index boost pickups are spawned at, in micro-units.
pub const Z_INDEX_BOOST_PICKUP: i64 = 6_000_000;

} // verus!
