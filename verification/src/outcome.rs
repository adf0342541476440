//! Per-request outcomes and their classification.
//!
//! Workers, the heartbeat emitter and the time-limit watchdog all push
//! `Outcome` records onto one channel; the aggregator classifies each record
//! by its status code. Two reserved codes act as control signals: 0 is a
//! heartbeat, 9999 is the terminate sentinel. Two more are distinguished
//! internal failure codes produced by a worker: 900 for a transport-level
//! error and 901 for an error while reading the response body.

use vstd::prelude::*;

verus! {

/// Status code carried by a heartbeat record.
pub const HEARTBEAT_STATUS: u16 = 0;

/// Status code carried by the terminate sentinel.
pub const SENTINEL_STATUS: u16 = 9999;

/// Internal status code for a transport-level failure (connect, TLS, timeout).
pub const TRANSPORT_ERROR_STATUS: u16 = 900;

/// Internal status code for an error while streaming the response body.
pub const BODY_ERROR_STATUS: u16 = 901;

/// How the aggregator treats one record from the outcome channel.
#[derive(Clone, Copy, Debug, PartialEq, Eq, Structural)]
pub enum Classification {
    /// No-op marker that only advances the aggregator's reporting clock.
    Heartbeat,
    /// A completed request whose status was in [200, 400).
    Success,
    /// Any other status, including the internal transport/body error codes.
    Failure,
    /// Tells the aggregator to flush and stop.
    TerminateSentinel,
}

/// Classification of a status code: 0 is a heartbeat, 9999 the terminate
/// sentinel, [200, 400) a success, everything else a failure.
pub open spec fn classification_of(status: u16) -> Classification {
    if status == HEARTBEAT_STATUS {
        Classification::Heartbeat
    } else if status == SENTINEL_STATUS {
        Classification::TerminateSentinel
    } else if 200 <= status && status < 400 {
        Classification::Success
    } else {
        Classification::Failure
    }
}

/// One record on the outcome channel: the (possibly internal) status code of
/// one attempt and its measured latency. Heartbeats and sentinels carry a
/// zero latency, which the aggregator ignores.
#[derive(Clone, Copy, Debug, PartialEq, Eq, Structural)]
pub struct Outcome {
    pub status: u16,
    pub latency_micros: u64,
}

impl Outcome {
    /// The record a worker sends for one finished attempt.
    pub fn request(status: u16, latency_micros: u64) -> (r: Outcome)
        ensures
            r.status == status,
            r.latency_micros == latency_micros,
    {
        Outcome { status, latency_micros }
    }

    /// The no-op record the heartbeat emitter sends on every tick.
    pub fn heartbeat() -> (r: Outcome)
        ensures
            r.status == HEARTBEAT_STATUS,
            r.latency_micros == 0,
            classification_of(r.status) == Classification::Heartbeat,
    {
        Outcome { status: HEARTBEAT_STATUS, latency_micros: 0 }
    }

    /// The record that tells the aggregator to flush and stop.
    pub fn sentinel() -> (r: Outcome)
        ensures
            r.status == SENTINEL_STATUS,
            r.latency_micros == 0,
            classification_of(r.status) == Classification::TerminateSentinel,
    {
        Outcome { status: SENTINEL_STATUS, latency_micros: 0 }
    }

    /// Classification of this record, as the aggregator will treat it.
    pub fn classification(&self) -> (c: Classification)
        ensures
            c == classification_of(self.status),
    {
        classify_status(self.status)
    }
}

/// Classifies a status code exactly as `classification_of` states it.
pub fn classify_status(status: u16) -> (c: Classification)
    ensures
        c == classification_of(status),
{
    if status == HEARTBEAT_STATUS {
        Classification::Heartbeat
    } else if status == SENTINEL_STATUS {
        Classification::TerminateSentinel
    } else if 200 <= status && status < 400 {
        Classification::Success
    } else {
        Classification::Failure
    }
}

/// What one worker attempt came back with, before it is turned into a status
/// code: a response whose body streamed fully or broke off, or no response
/// at all.
#[derive(Clone, Copy, Debug, PartialEq, Eq, Structural)]
pub enum FetchResult {
    /// A response arrived with this status and the whole body was read.
    Responded { status: u16 },
    /// A response arrived with this status but reading its body failed.
    BodyFailed { status: u16 },
    /// The request itself failed (connection, TLS, timeout).
    TransportFailed,
}

/// Status code recorded for a fetch result: the response's own status when
/// the body streamed fully, 901 when the body broke off, 900 when no
/// response arrived at all.
pub open spec fn status_of_fetch(res: FetchResult) -> u16 {
    match res {
        FetchResult::Responded { status } => status,
        FetchResult::BodyFailed { .. } => BODY_ERROR_STATUS,
        FetchResult::TransportFailed => TRANSPORT_ERROR_STATUS,
    }
}

/// Maps a worker's fetch result to the status code it reports, so that a
/// transport failure and a body-read failure are counted as failures under
/// their distinguished internal codes rather than dropped.
pub fn fetch_status(res: FetchResult) -> (status: u16)
    ensures
        status == status_of_fetch(res),
{
    match res {
        FetchResult::Responded { status } => status,
        FetchResult::BodyFailed { .. } => BODY_ERROR_STATUS,
        FetchResult::TransportFailed => TRANSPORT_ERROR_STATUS,
    }
}

/// The one record the time-limit watchdog may send: after a positive limit
/// of `limit_secs` seconds it emits the terminate sentinel; with no limit
/// configured it emits nothing and stays inert.
pub fn watchdog_record(limit_secs: u64) -> (r: Option<Outcome>)
    ensures
        limit_secs > 0 ==> r == Some(Outcome { status: SENTINEL_STATUS, latency_micros: 0u64 }),
        limit_secs == 0 ==> r is None,
{
    if limit_secs > 0 {
        Some(Outcome::sentinel())
    } else {
        None
    }
}

} // verus!
