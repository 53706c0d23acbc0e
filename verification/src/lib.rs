//! Deterministic fixed-tick simulation core for small arcade games:
//! a phase-ordered tick scheduler, a typed double-buffered event bus,
//! a pairwise collision detector, and a velocity-relay chain propagator,
//! together with the game rules (growth on pickup, self/wall termination)
//! built on top of them.
//!
//! All coordinates are integer world units; one grid cell is
//! [`STEP_SIZE`] units on a side.

use vstd::prelude::*;

pub mod arena;
pub mod asteroid;
pub mod collision;
pub mod events;
pub mod fixed_timestep;
pub mod fruit;
pub mod movement;
pub mod snek;
pub mod spaceship;
pub mod vec3;

verus! {

/// Width of the playfield in world units.
pub const SCREEN_WIDTH: i64 = 800;

/// Height of the playfield in world units.
pub const SCREEN_HEIGHT: i64 = 600;

/// Side of one grid cell in world units; the chain advances one cell per step.
pub const STEP_SIZE: i64 = 20;

/// Largest position magnitude the simulation admits at the start of a step;
/// far beyond the playfield, it only rules out integer overflow.
pub const POS_LIMIT: i64 = 400_000_000;

/// Largest velocity magnitude the simulation admits.
pub const VEL_LIMIT: i64 = 1_000_000;

} // verus!
