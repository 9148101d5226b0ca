//! An ant-colony-optimization simulation engine on a 2-D grid.
//!
//! A fixed pool of ants explores the grid from a Start cell toward an End
//! cell. Each discrete tick every ant takes one weighted-random step guided
//! by a shared pheromone field; successful routes deposit pheromone, and the
//! whole field evaporates, so short routes are reinforced over time.
//!
//! All quantities are integers: pheromone intensities are `u64` values, the
//! evaporation factor is a rational `num / den`, and the per-cell deposit for
//! a successful route of length `len` is `DEPOSIT_Q / len`.

use vstd::prelude::*;

pub mod ant;
pub mod cell;
mod field;
pub mod laws;
pub mod model;
pub mod rng;
mod step;
pub mod universe;

pub use ant::Ant;
pub use cell::Cell;
pub use cell::GridError;
pub use universe::Universe;

verus! {

/// An ant dies (and later respawns) once its route grows beyond this many steps.
pub const MAX_ANT_STEPS: u32 = 200;

/// Total deposit budget for one successful route: each of its cells gains
/// `DEPOSIT_Q / route_len`, so shorter routes reinforce more strongly per cell.
pub const DEPOSIT_Q: u64 = 100_000;

/// Baseline selection weight added to every eligible neighbor, so unexplored
/// cells (zero pheromone) keep a nonzero probability of being chosen.
pub const WEIGHT_BIAS: u64 = 1;

/// Numerator of the engine's per-tick evaporation factor.
pub const EVAPORATION_NUM: u64 = 1;

/// Denominator of the engine's per-tick evaporation factor.
pub const EVAPORATION_DEN: u64 = 2;

/// Upper bound kept on every pheromone intensity between ticks; chosen so
/// that one tick's deposits followed by evaporation can never overflow and
/// always land back under the bound.
pub const PHEROMONE_CAP: u64 = 1_000_000_000;

/// Largest colony size the engine accepts; `MAX_ANTS * DEPOSIT_Q` must stay
/// within `PHEROMONE_CAP` so a tick's total deposit is bounded.
pub const MAX_ANTS: u32 = 10_000;

/// Largest accepted grid extent in either dimension, so that flattened
/// indices and index arithmetic stay well within `u32`.
pub const MAX_DIM: u32 = 4096;

} // verus!
