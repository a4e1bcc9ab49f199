//! Streaming RSI (Relative Strength Index) analytics core.
//!
//! The library maintains a bounded rolling price history per tracked
//! instrument, computes the RSI oscillator over that history once enough
//! samples have arrived, and drives the filter/update/emit decision for each
//! inbound trade. Prices are fixed-point integers in whatever unit the caller
//! chooses; RSI values are scaled by 1_000_000 (so 100_000_000 means an RSI
//! of 100).

pub mod engine;
pub mod pipeline;
pub mod registry;
pub mod rsi;
pub mod window;
