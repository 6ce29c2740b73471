//! Exact-arithmetic core of a small compounding-returns simulator.
//!
//! The library models money amounts and per-period return rates as exact
//! rational numbers, compounds a principal across a sequence of realized
//! per-period rates, and computes the statistics used to compare a trial's
//! arithmetic-mean return with its geometric-mean (effective) return,
//! including a proof of the arithmetic-mean/geometric-mean inequality.

pub mod compound;
pub mod laws;
pub mod params;
pub mod rational;
pub mod stats;
pub mod trial;
