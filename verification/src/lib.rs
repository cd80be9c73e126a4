//! Benchmark core for driving an external search program over a line-oriented
//! text protocol: metric types with a direction of improvement, a protocol
//! codec, a blocking driver state machine, a diff engine, an aggregator, a
//! snapshot codec and a table renderer.

pub mod metrics;
pub mod numeric;
pub mod search_result;
pub mod diff;
pub mod report;
pub mod codec;
pub mod engine;
pub mod ansi;
pub mod tabulator;
pub mod cli;
pub mod fields;
pub mod snapshot;
