//! Core logic of a concurrent HTTP load generator: outcome classification,
//! the percentile engine over cumulative latencies, the moving-average
//! throughput window, and the aggregator state machine that turns a stream
//! of per-request outcomes into interval reports and a final summary.
//!
//! Everything here is pure computation over plain values; the surrounding
//! program supplies the clock, the HTTP client and the channels.

pub mod aggregate;
pub mod config;
pub mod outcome;
pub mod stats;
pub mod window;
