//! A toroidal boid-flocking engine over fixed-point coordinates.
//!
//! All world quantities (positions, velocities, radii, weights) are carried
//! as `i64` values in milli-units: one thousandth of a world unit. This keeps
//! every computation exact and lets each step of the pipeline carry a precise
//! contract.

use vstd::prelude::*;

pub mod boid;
pub mod clock;
pub mod math;
pub mod forces;
pub mod params;
pub mod physics;
pub mod sim;
mod random;
pub mod spatial_grid;
pub mod vec2;

verus! {

/// Number of milli-units in one world unit.
pub const SCALE: i64 = 1000;

/// Default side length of the square toroidal world, in milli-units.
pub const WORLD_SIZE: i64 = 5_000_000;

/// Largest world side length the engine accepts, in milli-units.
pub const MAX_WORLD: i64 = 100_000_000;

} // verus!
