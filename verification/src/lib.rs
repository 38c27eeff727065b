//! An in-process latency instrument.
//!
//! Callers mark event occurrences on a hot path; the recorder counts the
//! elapsed interval since the previous mark in a logarithmically bucketed
//! histogram of 4000 counters. A periodic snapshot reads and resets the
//! counters, reconstructs approximate percentile latencies from the bucket
//! counts, derives throughput for the period, and hands the result to a
//! reporting sink.

pub mod bucket;
pub mod clock;
pub mod percentile;
pub mod render;
pub mod timer;
