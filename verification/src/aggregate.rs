//! The aggregator: the single consumer of the outcome channel. It keeps the
//! rolling interval counters, the run-wide totals, the cumulative sorted
//! latency sequence and the moving-average window, and it walks the phases
//! `Collecting` (normal operation), `Draining` (terminate sentinel or
//! cancellation observed) and `Stopped` (final summary produced).
//!
//! Figures are reported in fixed point: throughput in thousandths of
//! requests per second, error rates in hundredths of a percent, latencies
//! in microseconds.

use vstd::prelude::*;
use vstd::arithmetic::div_mod::{lemma_div_by_multiple, lemma_div_is_ordered, lemma_div_nonincreasing};
use crate::outcome::{classification_of, classify_status, Classification};
use crate::stats::{
    extend_sorted, lemma_merge_is_sorted_concat, percentile, percentile_of, sort, sort_of, sorted,
};
use crate::window::{retained, sum_of, MovingAverageWindow};

verus! {

/// Rank of the median query, in tenths of a percent.
pub const P50_TENTHS: u32 = 500;

/// Rank of the 99th-percentile query, in tenths of a percent.
pub const P99_TENTHS: u32 = 990;

/// Rank of the 99.9th-percentile query, in tenths of a percent.
pub const P999_TENTHS: u32 = 999;

/// Factor that turns a request count divided by elapsed microseconds into
/// thousandths of requests per second.
pub const TPS_MILLI_FACTOR: u64 = 1_000_000_000;

/// Throughput over an elapsed stretch, in thousandths of requests per
/// second, to the floor.
pub open spec fn tps_milli_of(ok: int, elapsed_micros: int) -> int
    recommends
        elapsed_micros > 0,
{
    ok * (TPS_MILLI_FACTOR as int) / elapsed_micros
}

/// Share of failures among completed requests, in hundredths of a percent,
/// to the floor — zero when nothing completed rather than a division by
/// zero.
pub open spec fn err_percent_hundredths_of(err: int, total: int) -> int {
    if total == 0 {
        0
    } else {
        err * 10_000 / total
    }
}

/// Mean latency over completed requests, to the floor — zero when nothing
/// completed rather than a division by zero.
pub open spec fn avg_latency_of(latency_sum: int, total: int) -> int {
    if total == 0 {
        0
    } else {
        latency_sum / total
    }
}

/// The percentile the reports quote for a batch of latencies: undefined
/// while the batch is empty, otherwise the interpolated rank of its
/// ascending reordering.
pub open spec fn report_percentile_of(batch: Seq<u64>, pct_tenths: int) -> Option<u64> {
    if batch.len() == 0 {
        None
    } else {
        Some(percentile_of(sort_of(batch), pct_tenths) as u64)
    }
}

/// Where the aggregator stands in its lifecycle.
#[derive(Clone, Copy, Debug, PartialEq, Eq, Structural)]
pub enum Phase {
    /// Consuming outcomes and reporting once per interval.
    Collecting,
    /// A terminate sentinel or the cancellation flag was observed; one last
    /// fold and the final summary remain.
    Draining,
    /// The final summary has been produced.
    Stopped,
}

/// One periodic report line, covering the interval just completed.
#[derive(Clone, Copy, Debug, PartialEq, Eq)]
pub struct IntervalReport {
    /// Moving-average throughput, thousandths of requests per second.
    pub tps_ma_milli: u64,
    /// Instantaneous throughput of this interval, same unit.
    pub tps_milli: u64,
    /// Error share of this interval, hundredths of a percent.
    pub err_percent_hundredths: u64,
    /// Mean latency of this interval, microseconds.
    pub avg_latency_micros: u64,
    /// Median latency of this interval, microseconds.
    pub p50_micros: Option<u64>,
    /// 99th-percentile latency of this interval, microseconds.
    pub p99_micros: Option<u64>,
    /// 99.9th-percentile latency of this interval, microseconds.
    pub p999_micros: Option<u64>,
}

/// The whole-run summary printed on shutdown.
#[derive(Clone, Copy, Debug, PartialEq, Eq)]
pub struct FinalSummary {
    /// Completed requests, successes and failures together.
    pub total_count: u64,
    /// Successes alone.
    pub success_count: u64,
    /// Failures alone.
    pub failure_count: u64,
    /// Error share of the whole run, hundredths of a percent.
    pub err_percent_hundredths: u64,
    /// Whole-run throughput, thousandths of requests per second.
    pub tps_milli: u64,
    /// Mean latency of the whole run, microseconds.
    pub avg_latency_micros: u64,
    /// Median latency of the whole run, microseconds.
    pub p50_micros: Option<u64>,
    /// 99th-percentile latency of the whole run, microseconds.
    pub p99_micros: Option<u64>,
    /// 99.9th-percentile latency of the whole run, microseconds.
    pub p999_micros: Option<u64>,
    /// Greatest latency observed over the whole run, microseconds.
    pub max_latency_micros: u64,
}

/// The aggregator's state: interval counters (reset every reporting tick),
/// run-wide totals, the latencies newly observed this interval, the
/// cumulative sorted latency sequence, and the moving-average window.
pub struct Aggregator {
    pub phase: Phase,
    /// Successes this interval.
    pub count_ok: u64,
    /// Failures this interval.
    pub count_err: u64,
    /// Summed latency of this interval's completed requests, microseconds.
    pub resp_time_micros: u64,
    /// Successes over the whole run.
    pub total_ok: u64,
    /// Failures over the whole run.
    pub total_err: u64,
    /// Summed latency over the whole run, microseconds.
    pub total_resp_time_micros: u64,
    /// Greatest latency observed over the whole run; never reset.
    pub max_latency_micros: u64,
    /// Latencies newly observed this interval, in arrival order.
    pub new_latencies: Vec<u64>,
    /// Every latency folded in so far, kept sorted ascending.
    pub cumulative: Vec<u64>,
    /// Throughput samples of the most recent intervals.
    pub window: MovingAverageWindow,
}

impl Aggregator {
    /// The cumulative sequence is sorted and the window is intact.
    pub open spec fn wf(&self) -> bool {
        &&& sorted(self.cumulative@)
        &&& self.window.wf()
    }

    /// The counters affected by one more record of this latency stay within
    /// machine bounds.
    pub open spec fn can_record(&self, latency_micros: u64) -> bool {
        &&& self.count_ok < u64::MAX
        &&& self.count_err < u64::MAX
        &&& self.total_ok < u64::MAX
        &&& self.total_err < u64::MAX
        &&& self.resp_time_micros + latency_micros <= u64::MAX
        &&& self.total_resp_time_micros + latency_micros <= u64::MAX
    }

    /// A fresh aggregator: collecting, with every counter at zero and both
    /// latency sequences empty.
    pub fn new() -> (agg: Aggregator)
        ensures
            agg.wf(),
            agg.phase is Collecting,
            agg.count_ok == 0 && agg.count_err == 0 && agg.resp_time_micros == 0,
            agg.total_ok == 0 && agg.total_err == 0 && agg.total_resp_time_micros == 0,
            agg.max_latency_micros == 0,
            agg.new_latencies@ == Seq::<u64>::empty(),
            agg.cumulative@ == Seq::<u64>::empty(),
            agg.window.history() == Seq::<u64>::empty(),
    {
        Aggregator {
            phase: Phase::Collecting,
            count_ok: 0,
            count_err: 0,
            resp_time_micros: 0,
            total_ok: 0,
            total_err: 0,
            total_resp_time_micros: 0,
            max_latency_micros: 0,
            new_latencies: Vec::new(),
            cumulative: Vec::new(),
            window: MovingAverageWindow::new(),
        }
    }

    /// Consumes one record from the outcome channel: a success or failure
    /// updates the interval counters, the totals, the run maximum and the
    /// interval latencies; a heartbeat contributes to no counter; a
    /// terminate sentinel, or the cancellation flag being set, moves the
    /// aggregator to `Draining` and makes this call answer `true`.
    pub fn record(&mut self, status: u16, latency_micros: u64, cancelled: bool) -> (stop: bool)
        requires
            old(self).wf(),
            old(self).phase is Collecting,
            old(self).can_record(latency_micros),
        ensures
            final(self).wf(),
            stop == (classification_of(status) is TerminateSentinel || cancelled),
            final(self).phase == (if stop {
                Phase::Draining
            } else {
                Phase::Collecting
            }),
            classification_of(status) is Success ==> {
                &&& final(self).count_ok == old(self).count_ok + 1
                &&& final(self).total_ok == old(self).total_ok + 1
                &&& final(self).count_err == old(self).count_err
                &&& final(self).total_err == old(self).total_err
                &&& final(self).resp_time_micros == old(self).resp_time_micros + latency_micros
                &&& final(self).total_resp_time_micros == old(self).total_resp_time_micros
                    + latency_micros
                &&& final(self).new_latencies@ == old(self).new_latencies@.push(latency_micros)
            },
            classification_of(status) is Failure ==> {
                &&& final(self).count_err == old(self).count_err + 1
                &&& final(self).total_err == old(self).total_err + 1
                &&& final(self).count_ok == old(self).count_ok
                &&& final(self).total_ok == old(self).total_ok
                &&& final(self).resp_time_micros == old(self).resp_time_micros + latency_micros
                &&& final(self).total_resp_time_micros == old(self).total_resp_time_micros
                    + latency_micros
                &&& final(self).new_latencies@ == old(self).new_latencies@.push(latency_micros)
            },
            (classification_of(status) is Heartbeat || classification_of(status)
                is TerminateSentinel) ==> {
                &&& final(self).count_ok == old(self).count_ok
                &&& final(self).count_err == old(self).count_err
                &&& final(self).total_ok == old(self).total_ok
                &&& final(self).total_err == old(self).total_err
                &&& final(self).resp_time_micros == old(self).resp_time_micros
                &&& final(self).total_resp_time_micros == old(self).total_resp_time_micros
                &&& final(self).new_latencies@ == old(self).new_latencies@
            },
            final(self).max_latency_micros == (if (classification_of(status) is Success
                || classification_of(status) is Failure) && latency_micros > old(self).max_latency_micros {
                latency_micros
            } else {
                old(self).max_latency_micros
            }),
            final(self).cumulative@ == old(self).cumulative@,
            final(self).window == old(self).window,
    {
        let c = classify_status(status);
        match c {
            Classification::Heartbeat => {},
            Classification::TerminateSentinel => {},
            Classification::Success => {
                self.count_ok = self.count_ok + 1;
                self.total_ok = self.total_ok + 1;
                self.resp_time_micros = self.resp_time_micros + latency_micros;
                self.total_resp_time_micros = self.total_resp_time_micros + latency_micros;
                if latency_micros > self.max_latency_micros {
                    self.max_latency_micros = latency_micros;
                }
                self.new_latencies.push(latency_micros);
            },
            Classification::Failure => {
                self.count_err = self.count_err + 1;
                self.total_err = self.total_err + 1;
                self.resp_time_micros = self.resp_time_micros + latency_micros;
                self.total_resp_time_micros = self.total_resp_time_micros + latency_micros;
                if latency_micros > self.max_latency_micros {
                    self.max_latency_micros = latency_micros;
                }
                self.new_latencies.push(latency_micros);
            },
        }
        let stop = c == Classification::TerminateSentinel || cancelled;
        if stop {
            self.phase = Phase::Draining;
        }
        stop
    }

    /// Closes the reporting interval: computes this interval's throughput,
    /// error share, mean latency and percentiles, pushes the throughput
    /// into the moving-average window, folds the interval's latencies into
    /// the cumulative sorted sequence, and resets the interval counters.
    /// The totals, the run maximum and the phase are untouched.
    pub fn tick(&mut self, elapsed_micros: u64) -> (report: IntervalReport)
        requires
            old(self).wf(),
            elapsed_micros > 0,
            tps_milli_of(old(self).count_ok as int, elapsed_micros as int) <= u64::MAX,
            sum_of(old(self).window.samples()) + tps_milli_of(
                old(self).count_ok as int,
                elapsed_micros as int,
            ) <= u64::MAX,
            old(self).cumulative@.len() + old(self).new_latencies@.len() <= usize::MAX,
        ensures
            final(self).wf(),
            final(self).cumulative@ == sort_of(old(self).cumulative@ + old(self).new_latencies@),
            final(self).new_latencies@ == Seq::<u64>::empty(),
            final(self).count_ok == 0 && final(self).count_err == 0,
            final(self).resp_time_micros == 0,
            final(self).total_ok == old(self).total_ok,
            final(self).total_err == old(self).total_err,
            final(self).total_resp_time_micros == old(self).total_resp_time_micros,
            final(self).max_latency_micros == old(self).max_latency_micros,
            final(self).phase == old(self).phase,
            final(self).window.history() == old(self).window.history().push(
                tps_milli_of(old(self).count_ok as int, elapsed_micros as int) as u64,
            ),
            final(self).window.samples() == retained(final(self).window.history()),
            final(self).window.samples().len() > 0,
            report.tps_milli as int == tps_milli_of(
                old(self).count_ok as int,
                elapsed_micros as int,
            ),
            report.tps_ma_milli as int == sum_of(final(self).window.samples()) / (
            final(self).window.samples().len() as int),
            report.err_percent_hundredths as int == err_percent_hundredths_of(
                old(self).count_err as int,
                old(self).count_ok as int + old(self).count_err as int,
            ),
            report.avg_latency_micros as int == avg_latency_of(
                old(self).resp_time_micros as int,
                old(self).count_ok as int + old(self).count_err as int,
            ),
            report.p50_micros == report_percentile_of(old(self).new_latencies@, P50_TENTHS as int),
            report.p99_micros == report_percentile_of(old(self).new_latencies@, P99_TENTHS as int),
            report.p999_micros == report_percentile_of(
                old(self).new_latencies@,
                P999_TENTHS as int,
            ),
    {
        let ghost pre_cumulative = self.cumulative@;
        let ghost pre_new = self.new_latencies@;
        let tps = tps_milli(self.count_ok, elapsed_micros);
        let err_pct = err_percent_hundredths(self.count_err, self.count_ok);
        let avg = avg_latency(self.resp_time_micros, self.count_ok, self.count_err);
        self.window.push(tps);
        let tps_ma = self.window.average();
        sort(&mut self.new_latencies);
        extend_sorted(&mut self.cumulative, self.new_latencies.as_slice());
        proof {
            lemma_merge_is_sorted_concat(pre_cumulative, pre_new);
        }
        let p50 = percentile(self.new_latencies.as_slice(), P50_TENTHS);
        let p99 = percentile(self.new_latencies.as_slice(), P99_TENTHS);
        let p999 = percentile(self.new_latencies.as_slice(), P999_TENTHS);
        self.count_ok = 0;
        self.count_err = 0;
        self.resp_time_micros = 0;
        self.new_latencies.clear();
        IntervalReport {
            tps_ma_milli: tps_ma,
            tps_milli: tps,
            err_percent_hundredths: err_pct,
            avg_latency_micros: avg,
            p50_micros: p50,
            p99_micros: p99,
            p999_micros: p999,
        }
    }

    /// Closes the reporting interval without folding or reporting anything,
    /// as the diagnostic single-shot mode does: the interval counters and
    /// the interval latencies are dropped; everything else is untouched.
    pub fn reset_interval(&mut self)
        requires
            old(self).wf(),
        ensures
            final(self).wf(),
            final(self).count_ok == 0 && final(self).count_err == 0,
            final(self).resp_time_micros == 0,
            final(self).new_latencies@ == Seq::<u64>::empty(),
            final(self).cumulative@ == old(self).cumulative@,
            final(self).window == old(self).window,
            final(self).total_ok == old(self).total_ok,
            final(self).total_err == old(self).total_err,
            final(self).total_resp_time_micros == old(self).total_resp_time_micros,
            final(self).max_latency_micros == old(self).max_latency_micros,
            final(self).phase == old(self).phase,
    {
        self.count_ok = 0;
        self.count_err = 0;
        self.resp_time_micros = 0;
        self.new_latencies.clear();
    }

    /// Drains and stops: folds the last interval's latencies into the
    /// cumulative sequence, computes the whole-run summary from the totals
    /// and the cumulative percentiles, and moves to `Stopped`.
    pub fn finalize(&mut self, elapsed_micros: u64) -> (summary: FinalSummary)
        requires
            old(self).wf(),
            elapsed_micros > 0,
            old(self).total_ok + old(self).total_err <= u64::MAX,
            tps_milli_of(old(self).total_ok as int, elapsed_micros as int) <= u64::MAX,
            old(self).cumulative@.len() + old(self).new_latencies@.len() <= usize::MAX,
        ensures
            final(self).wf(),
            final(self).phase is Stopped,
            final(self).cumulative@ == sort_of(old(self).cumulative@ + old(self).new_latencies@),
            final(self).new_latencies@ == Seq::<u64>::empty(),
            final(self).total_ok == old(self).total_ok,
            final(self).total_err == old(self).total_err,
            final(self).total_resp_time_micros == old(self).total_resp_time_micros,
            final(self).max_latency_micros == old(self).max_latency_micros,
            final(self).window == old(self).window,
            summary.total_count == old(self).total_ok + old(self).total_err,
            summary.success_count == old(self).total_ok,
            summary.failure_count == old(self).total_err,
            summary.err_percent_hundredths as int == err_percent_hundredths_of(
                old(self).total_err as int,
                old(self).total_ok as int + old(self).total_err as int,
            ),
            summary.tps_milli as int == tps_milli_of(
                old(self).total_ok as int,
                elapsed_micros as int,
            ),
            summary.avg_latency_micros as int == avg_latency_of(
                old(self).total_resp_time_micros as int,
                old(self).total_ok as int + old(self).total_err as int,
            ),
            summary.p50_micros == report_percentile_of(
                old(self).cumulative@ + old(self).new_latencies@,
                P50_TENTHS as int,
            ),
            summary.p99_micros == report_percentile_of(
                old(self).cumulative@ + old(self).new_latencies@,
                P99_TENTHS as int,
            ),
            summary.p999_micros == report_percentile_of(
                old(self).cumulative@ + old(self).new_latencies@,
                P999_TENTHS as int,
            ),
            summary.max_latency_micros == old(self).max_latency_micros,
    {
        let ghost pre_cumulative = self.cumulative@;
        let ghost pre_new = self.new_latencies@;
        sort(&mut self.new_latencies);
        extend_sorted(&mut self.cumulative, self.new_latencies.as_slice());
        proof {
            lemma_merge_is_sorted_concat(pre_cumulative, pre_new);
        }
        self.new_latencies.clear();
        let total_count = self.total_ok + self.total_err;
        let err_pct = err_percent_hundredths(self.total_err, self.total_ok);
        let tps = tps_milli(self.total_ok, elapsed_micros);
        let avg = avg_latency(self.total_resp_time_micros, self.total_ok, self.total_err);
        let p50 = percentile(self.cumulative.as_slice(), P50_TENTHS);
        let p99 = percentile(self.cumulative.as_slice(), P99_TENTHS);
        let p999 = percentile(self.cumulative.as_slice(), P999_TENTHS);
        self.phase = Phase::Stopped;
        FinalSummary {
            total_count,
            success_count: self.total_ok,
            failure_count: self.total_err,
            err_percent_hundredths: err_pct,
            tps_milli: tps,
            avg_latency_micros: avg,
            p50_micros: p50,
            p99_micros: p99,
            p999_micros: p999,
            max_latency_micros: self.max_latency_micros,
        }
    }
}

/// Throughput in thousandths of requests per second, exactly as
/// `tps_milli_of` states it.
fn tps_milli(ok: u64, elapsed_micros: u64) -> (r: u64)
    requires
        elapsed_micros > 0,
        tps_milli_of(ok as int, elapsed_micros as int) <= u64::MAX,
    ensures
        r as int == tps_milli_of(ok as int, elapsed_micros as int),
{
    ((ok as u128) * (TPS_MILLI_FACTOR as u128) / (elapsed_micros as u128)) as u64
}

/// Error share in hundredths of a percent, exactly as
/// `err_percent_hundredths_of` states it; never more than ten thousand.
fn err_percent_hundredths(err: u64, ok: u64) -> (r: u64)
    ensures
        r as int == err_percent_hundredths_of(err as int, ok as int + err as int),
        r <= 10_000,
{
    let total: u128 = ok as u128 + err as u128;
    if total == 0 {
        0
    } else {
        proof {
            lemma_div_is_ordered((err as int) * 10_000, (total as int) * 10_000, total as int);
            lemma_div_by_multiple(10_000, total as int);
            assert((total as int) * 10_000 == 10_000 * (total as int));
        }
        ((err as u128) * 10_000 / total) as u64
    }
}

/// Mean latency over completed requests, exactly as `avg_latency_of`
/// states it.
fn avg_latency(latency_sum: u64, ok: u64, err: u64) -> (r: u64)
    ensures
        r as int == avg_latency_of(latency_sum as int, ok as int + err as int),
{
    let total: u128 = ok as u128 + err as u128;
    if total == 0 {
        0
    } else {
        proof {
            lemma_div_nonincreasing(latency_sum as int, total as int);
        }
        (latency_sum as u128 / total) as u64
    }
}

} // verus!
