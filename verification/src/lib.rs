//! A streaming log-annotation library.
//!
//! A set of regular-expression rules drives three per-line processors over an
//! ordered stream of log lines: a colorizer that paints every line with the
//! most recently matched level color, an event extractor that accumulates the
//! lines between a start match and an end match into one multi-line event,
//! and a state extractor that emits a marker for every line its pattern
//! matches.  A pipeline runs any number of processors over one pass of the
//! input and inserts visual separators around multi-line output.  The rules
//! themselves are built from a JSON-shaped configuration value, optionally
//! with a shared regex prefix applied to every pattern.

pub mod config;
pub mod error;
pub mod json;
pub mod pattern;
pub mod pipeline;
pub mod processors;
