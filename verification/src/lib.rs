//! A small N-body integrator under Newtonian gravity, with its decisions
//! proved.
//!
//! Bodies are point masses in the plane. One tick lets every unordered pair
//! of bodies interact once: the force between the two is computed, guarded
//! against a vanishing separation and against runaway magnitudes, and both
//! bodies are integrated under equal and opposite forces by semi-implicit
//! Euler.
//!
//! Quantities are binary64 bit patterns (`scalar`). The rounding arithmetic
//! on them is the caller's (`arithmetic`); everything else is decided here
//! and stated in contracts: which quantities are accepted (`body`,
//! `simulation`), what the guards let through (`force`), which formula gets
//! which argument and in what order (`body`, `force`, `simulation`), and
//! which pairs a tick visits (`schedule`).
pub mod arithmetic;
pub mod body;
pub mod camera;
pub mod force;
pub mod scalar;
pub mod schedule;
pub mod simulation;
pub mod vector;
