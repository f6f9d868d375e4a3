//! A mutation-based fuzzing harness for file-format parsers.
//!
//! The crate holds the parts of a fuzzing run that can be reasoned about:
//! how a seed is mutated, how execution times are judged, how crashes are
//! counted and named, and how sanitizer output is turned into a report.

pub mod anomaly;
pub mod artifact;
pub mod config;
pub mod crash;
pub mod mutate;
pub mod order;
pub mod plan;
pub mod random;
pub mod rate;
pub mod session;
pub mod strategy;
pub mod summary;
pub mod text;
pub mod triage;
pub mod utils;
