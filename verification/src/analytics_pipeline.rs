//! Computations that run off the hot path.

pub mod statistics;
