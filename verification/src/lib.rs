//! Fixed-point simulation core for a snake arcade game.
//!
//! All geometry is carried out in integer micro-units: one world unit is
//! `ONE` micro-units. The playing field is a square of side `FIELD_SIZE`
//! centered at the origin; a snake is a head plus an ordered chain of body
//! units, each kept within a fixed follow distance of its leader.

use vstd::prelude::*;

pub mod num;
pub mod geom;
pub mod snake;
pub mod game;

verus! {

/// Micro-units per world unit: the fixed-point scale of every coordinate.
pub const ONE: i64 = 1_000_000;

/// Radius of a body unit (and of the head), in micro-units.
pub const UNIT_RADIUS: i64 = 40_000;

/// Radius of a fruit, in micro-units.
pub const FRUIT_RADIUS: i64 = 60_000;

/// Side of the square field, in micro-units; the field is centered at the origin.
pub const FIELD_SIZE: i64 = 2_000_000;

/// Speed a fresh snake starts with, in micro-units per second.
pub const INIT_SPEED: i64 = 400_000;

/// Steering rate, in micro-radians per second.
pub const ROTATION_PER_SEC: i64 = 2_000_000;

/// The mathematical constant pi, in micro-radians.
pub const PI_FX: i64 = 3_141_593;

/// One full turn, in micro-radians.
pub const TWO_PI_FX: i64 = 6_283_186;

/// A quarter turn, in micro-radians.
pub const HALF_PI_FX: i64 = 1_570_796;

/// Bound on every coordinate a unit may reach, in micro-units; keeps all
/// squared distances well inside `i64`.
pub const COORD_MAX: i64 = 100_000_000;

/// Largest head coordinate on either axis before a wall loss, in micro-units:
/// half of `FIELD_SIZE` less one `UNIT_RADIUS`.
pub const MAX_PLAY_COORD: i64 = 960_000;

/// Follow distance between chained units, in micro-units: two unit radii.
pub const FOLLOW_DIST: i64 = 2 * UNIT_RADIUS;

/// Radius used for the head-against-body loss test, in micro-units:
/// eight tenths of a unit radius, tighter than the ordinary circle test.
pub const BODY_LOSS_RADIUS: i64 = 32_000;

/// Upper bound on the speed a head may carry, in micro-units per second.
pub const MAX_SPEED: i64 = 2_000_000;

/// Upper bound on the time step of one frame, in micro-seconds.
pub const MAX_DT: i64 = 2_000_000;

/// Bound on the head position accepted by a movement step, in micro-units.
pub const POS_MAX: i64 = 50_000_000;

/// Largest number of body units a snake may hold: the chain length is
/// reported as a `u32` counting the head too, so this is the machine limit.
pub const SNAKE_CAP: usize = 4_294_967_294;

} // verus!
