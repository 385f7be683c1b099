//! Two-dimensional Ising model on a periodic square lattice, advanced by
//! single-spin-flip Metropolis trials.

pub mod agent;
pub mod env;
