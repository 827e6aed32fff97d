//! Shared constants of the simulation and the facing direction of a body.

use vstd::prelude::*;

verus! {

/// Gravitational acceleration, in world units per second per second.
pub const GRAVITY: i64 = 980;

/// Velocity components whose magnitude falls below this bound after a
/// collision is resolved are snapped to exactly zero.
pub const COLLISION_THRESHOLD: i64 = 1;

/// Nominal duration of one simulation frame (1/60 s), in microseconds,
/// rounded down to a whole microsecond.
pub const NOMINAL_FRAME_MICROS: u64 = 16666;

/// The gravity clamp: the largest time step one gravity tick charges,
/// exactly three nominal frames (3/60 s = 50 000 us, which whole
/// microseconds represent exactly).
pub const MAX_GRAVITY_STEP_MICROS: u64 = 3 * MICROS_PER_SECOND / 60;

/// Number of microseconds in one second.
pub const MICROS_PER_SECOND: u64 = 1000000;

/// Bound on the world coordinates, sizes and velocities that the physics
/// entry points accept; keeps every intermediate product inside `i64`.
pub const COORD_LIMIT: i64 = 1_000_000_000;

/// Bound on the triangle coordinates that the collision kernel accepts;
/// keeps every cross product inside `i128`.
pub const TRI_LIMIT: i64 = 1_152_921_504_606_846_976;

/// Fixed-point scale of the unit rotation vectors: a full cosine is
/// `ROT_ONE`.
pub const ROT_ONE: i64 = 65536;

/// Largest time step, in microseconds, that one simulation tick accepts.
pub const MAX_TICK_MICROS: u64 = 1_000_000;

/// Denominator of the dyadic sensor scales: a sensor reading of `k`
/// means the fraction `k / SCALE_ONE` of the sensor's full length.
pub const SCALE_ONE: u32 = 512;

/// Number of halving steps the range-finding binary search performs.
pub const SEARCH_ITERS: u64 = 8;

/// Horizontal acceleration applied per tick while a direction key is
/// held, in world units per second.
pub const X_ACCELERATION: i64 = 40;

/// Cap on a controlled body's horizontal speed, in world units per
/// second.
pub const MAX_X_MOVE_SPEED: i64 = 300;

/// Facing direction of a body.
#[derive(Clone, Copy, PartialEq, Eq, Structural, Debug)]
pub enum Dir {
    Left,
    Right,
    Up,
    Down,
}

} // verus!
