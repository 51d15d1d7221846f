//! Deterministic snapshot pipeline for signal-processing units.
//!
//! A unit consumes a fixed number of input channels and produces a fixed
//! number of output channels, one sample per channel per step.  This crate
//! materializes input data from a declarative description, drives a unit
//! through it (per sample or in buffered chunks), classifies numerically
//! invalid output, and plans a deterministic chart or encodes a lossless
//! audio artifact from the captured output.
//!
//! Sample values are carried as the bit patterns of 32-bit IEEE 754 floats
//! (`u32`), so that classification and bookkeeping are exact.

pub mod abnormal;
pub mod chart;
pub mod chart_data;
pub mod config;
pub mod engine;
pub mod error;
pub mod graph;
pub mod input;
pub mod unit;
pub mod snapshot;
pub mod units;
pub mod util;
pub mod warmup;

pub use abnormal::AbnormalSample;
