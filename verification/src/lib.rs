//! A synthetic market-data generator: a tick-driven simulator that produces a
//! stream of order and cancellation messages for a single instrument, driven
//! by a regime state machine, a mid-price process and Poisson order flow.
//!
//! All quantities are held in fixed-point integers: prices in cents
//! (hundredths of the quote unit), simulated time in milliseconds, and
//! probabilities in parts per billion. The stochastic draws that need
//! floating-point sampling (Poisson counts, exponential offsets, log-normal
//! sizes, the mid-price factor) enter the engine as plain integer inputs, so
//! every decision the engine takes is verified.

pub mod config;
pub mod control;
pub mod engine;
pub mod laws;
pub mod order;
pub mod output;
pub mod regime;
pub mod rng;
pub mod scenario;
pub mod text;

use vstd::prelude::*;

verus! {

} // verus!
