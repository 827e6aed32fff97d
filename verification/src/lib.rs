//! A 2D simulation core for agents with gravity-driven bodies and
//! directional vision sensors in a world of static rectangular obstacles.
//!
//! All geometry is carried out over exact integer world units: positions,
//! sizes and velocities are `i64` values, rotations are fixed-point unit
//! vectors, and sensor scales are dyadic fractions with denominator 512.
//! Every public operation states what it computes and is verified.

pub mod agent;
pub mod collisions;
pub mod consts;
pub mod environment;
pub mod eye;
pub mod physics;
