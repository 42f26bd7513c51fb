//! Fixed-point SIFS brain: Q16.16 neuron state, the SIFS current, the day phase
//! (leaky integrate-and-fire with scale-invariant thresholds), the night phase
//! (S-coordinate drift, Hebbian weights with inertia, resharding) and the runner
//! that schedules them.

pub mod constants;
pub mod fixed;
pub mod neuron;
pub mod phase;
pub mod runner;
pub mod genesis_core;
pub mod http;
pub mod laws;
pub mod formulas;
