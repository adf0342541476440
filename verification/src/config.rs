//! The immutable run configuration shared by every worker, and the small
//! decisions a worker and its companion tasks take on each iteration.
//! Building the configuration from command-line input, TLS trust setup and
//! the HTTP plumbing all live outside; the library only fixes what the
//! decisions are.

use vstd::prelude::*;

verus! {

/// How often the heartbeat emitter sends its no-op record.
pub const HEARTBEAT_INTERVAL_MILLIS: u64 = 250;

/// How long a reporting interval lasts.
pub const REPORT_INTERVAL_MICROS: u64 = 1_000_000;

/// The HTTP method a worker issues.
#[derive(Clone, Copy, Debug, PartialEq, Eq, Structural)]
pub enum Method {
    Get,
    Head,
    Options,
    Delete,
    Post,
    Patch,
    Put,
}

/// Whether requests of this method carry the configured body.
pub open spec fn method_carries_body(m: Method) -> bool {
    m is Post || m is Put || m is Patch
}

impl Method {
    /// A worker attaches the configured request body exactly for the
    /// methods that send one: POST, PUT and PATCH.
    pub fn carries_body(&self) -> (r: bool)
        ensures
            r == method_carries_body(*self),
    {
        match self {
            Method::Post => true,
            Method::Put => true,
            Method::Patch => true,
            _ => false,
        }
    }
}

/// The immutable run configuration: built once before any concurrent work
/// starts and then only read.
pub struct RunConfig {
    /// Target URL, as given.
    pub url: String,
    /// Method of every request.
    pub method: Method,
    /// Request headers, name and value.
    pub headers: Vec<(String, String)>,
    /// Request body sent with body-carrying methods.
    pub body: String,
    /// Single-shot diagnostic mode: one request, echoed in full.
    pub test: bool,
    /// Log individual request failures to the error stream.
    pub verbose: bool,
    /// Number of concurrent workers.
    pub clients: u16,
    /// Optional time limit in seconds; zero means none.
    pub time_limit_secs: u64,
}

impl RunConfig {
    /// Whether a worker stops after the iteration it just finished: after
    /// its single request in single-shot mode, or as soon as it observes
    /// the cancellation flag — every iteration polls the flag, so no worker
    /// outlives a cancelled run by more than its in-flight request.
    pub fn worker_stops_after(&self, cancelled: bool) -> (stop: bool)
        ensures
            stop == (self.test || cancelled),
    {
        self.test || cancelled
    }
}

/// Whether the aggregator's reporting clock says the current interval is
/// over and the next received record should close it.
pub fn should_report(elapsed_micros: u64) -> (r: bool)
    ensures
        r == (elapsed_micros >= REPORT_INTERVAL_MICROS),
{
    elapsed_micros >= REPORT_INTERVAL_MICROS
}

} // verus!
