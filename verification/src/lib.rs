//! Core of a telemetry ground-station stream: frame accumulation, decoding,
//! metadata correlation, windowed aggregation and sequencing.
//!
//! Fractional telemetry channels are carried as fixed-point integers in
//! micro-units (one unit is 1/1_000_000), so that every arithmetic step is
//! exact and verified.

pub mod accumulator;
pub mod correlator;
pub mod decode;
pub mod clock;
pub mod controller;
pub mod files;
pub mod fixedpoint;
pub mod ports;
pub mod sample;
pub mod sequencer;
pub mod window;

use vstd::prelude::*;

verus! {

/// Number of micro-units in one whole unit of a fixed-point channel value.
pub const MICRO: i64 = 1_000_000;

} // verus!
