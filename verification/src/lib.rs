//! A double-auction order matcher for a single instrument.
//!
//! Given independent buy and sell order lists and a reference NBBO band,
//! the engine validates order sides, sorts by price priority, scans
//! price-compatible pairs, and emits trades. Two pricing policies are
//! offered: per-pair midpoint pricing (greedy) and a single uniform
//! clearing price for the whole round (combinatorial).
//!
//! Prices are integer ticks chosen by the caller (for example thousandths
//! of a currency unit). A trade stores twice its clearing price so that
//! the midpoint of two integer prices is always exact.

pub mod engine;
pub mod laws;
pub mod matching;
pub mod order;
pub mod sorting;
