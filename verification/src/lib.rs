//! An interactive 2D N-body gravitational simulation core.
//!
//! The library holds the physics of the simulation: a registry of point
//! masses, pairwise gravitational force accumulation, a fixed-timestep
//! integrator, render interpolation between fixed steps, and the state
//! machine governing pause/resume. All quantities are exact fixed-point
//! integers, so every update is specified and proved exactly; the host
//! around the library owns windowing, input devices and drawing, and hands
//! the core plain values (cursor points, spawn and pause intents, elapsed
//! ticks) while reading back render positions.

use vstd::prelude::*;

pub mod body;
pub mod clock;
pub mod forces;
pub mod integrate;
pub mod interp;
pub mod math;
pub mod world;

verus! {

/// Largest admissible body mass, in mass units.
pub const MASS_LIMIT: i64 = 1_048_576;

/// Largest admissible material density, in density units.
pub const DENSITY_LIMIT: i64 = 1_048_576;

/// Largest admissible gravitational constant, in force units.
pub const G_LIMIT: i64 = 1_048_576;

/// Largest admissible fixed timestep, in simulated time units.
pub const DT_LIMIT: i64 = 2_097_152;

/// Positions are kept inside the square [-POS_LIMIT, POS_LIMIT]^2.
pub const POS_LIMIT: i64 = 1_152_921_504_606_846_976;

/// Velocity components are clamped into [-VEL_LIMIT, VEL_LIMIT].
pub const VEL_LIMIT: i64 = 1_099_511_627_776;

/// Largest number of bodies the registry admits.
pub const BODY_LIMIT: usize = 1_048_576;

/// Largest magnitude of one pairwise force component:
/// `G_LIMIT * MASS_LIMIT * MASS_LIMIT`.
pub const PAIR_FORCE_LIMIT: i128 = 1_152_921_504_606_846_976;

/// Largest magnitude of an accumulated force component:
/// `BODY_LIMIT * PAIR_FORCE_LIMIT`.
pub const FORCE_LIMIT: i128 = 1_208_925_819_614_629_174_706_176;

} // verus!
