//! A load-generation and measurement engine for a key-value store.
//!
//! The crate holds the deterministic core of a load run: how an operation is
//! planned from random draws, how its outcome is accounted for, how the
//! counters are sampled into a time series, and how that series is rendered.
//! Scheduling, clocks and the store itself are left to the caller.

pub mod config;
pub mod coordinator;
pub mod counters;
pub mod csv;
pub mod decimal;
pub mod fields;
pub mod fixed;
pub mod parse;
pub mod report;
pub mod sample;
pub mod sampler;
pub mod workload;
