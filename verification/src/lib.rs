//! Exact constant folding, extraction costs and per-round snapshots for an
//! equality-saturation host working on a small arithmetic language.
//!
//! The host engine owns the graph. This crate holds the rules that are plugged
//! into it: what exact value a node has, how the values of two united classes
//! are reconciled, what a node costs, and what is recorded after each round.

pub mod analysis;
pub mod constant;
pub mod cost;
pub mod fold;
pub mod gcd;
pub mod language;
pub mod rational;
pub mod snapshot;
pub mod values;
