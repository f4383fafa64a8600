//! Occupancy of a bounded two-dimensional arena: at most one agent per cell,
//! with moves arbitrated one at a time in the order in which they are handed in.

pub mod arbiter;
pub mod grid;
pub mod intent;
pub mod invariants;
pub mod position;
mod random;
pub mod setup;
