//! The aggregator driven through whole scenarios: a clean run under a time
//! limit, a run where every request fails, and an operator cancellation.

use loadem::aggregate::{Aggregator, Phase};
use loadem::config::{should_report, RunConfig, Method};
use loadem::outcome::{watchdog_record, Classification, Outcome};

fn config(test: bool) -> RunConfig {
    RunConfig {
        url: String::from("http://localhost/"),
        method: Method::Get,
        headers: Vec::new(),
        body: String::new(),
        test,
        verbose: false,
        clients: 3,
        time_limit_secs: 2,
    }
}

#[test]
fn clean_run_under_a_time_limit() {
    // Three workers against an endpoint that always answers 200 with small
    // latency; the watchdog fires after the two-second limit.
    let mut agg = Aggregator::new();
    for round in 0..10 {
        for worker in 0..3u64 {
            let outcome = Outcome::request(200, 4000 + worker + round);
            let stop = agg.record(outcome.status, outcome.latency_micros, false);
            assert!(!stop);
        }
    }
    // One reporting interval elapses mid-run.
    assert!(should_report(1_000_000));
    let report = agg.tick(1_000_000);
    assert_eq!(report.err_percent_hundredths, 0);
    assert_eq!(report.tps_milli, 30_000);

    // The time limit fires: the watchdog's sentinel drains the aggregator.
    let sentinel = watchdog_record(config(false).time_limit_secs).unwrap();
    let stop = agg.record(sentinel.status, sentinel.latency_micros, false);
    assert!(stop);
    assert_eq!(agg.phase, Phase::Draining);

    let summary = agg.finalize(2_000_000);
    assert_eq!(agg.phase, Phase::Stopped);
    assert_eq!(summary.err_percent_hundredths, 0);
    assert_eq!(summary.total_count, 30);
    assert_eq!(summary.success_count, 30);
    assert_eq!(summary.failure_count, 0);
    assert!(summary.p50_micros.unwrap() >= 4000);
    assert!(summary.p99_micros.unwrap() >= summary.p50_micros.unwrap());
    assert!(summary.max_latency_micros >= summary.p99_micros.unwrap());
}

#[test]
fn all_failures_report_a_full_error_percentage() {
    // The endpoint always answers 500.
    let mut agg = Aggregator::new();
    for _ in 0..8 {
        let stop = agg.record(500, 2500, false);
        assert!(!stop);
    }
    let sentinel = watchdog_record(1).unwrap();
    assert!(agg.record(sentinel.status, sentinel.latency_micros, false));
    let summary = agg.finalize(1_000_000);
    assert_eq!(summary.err_percent_hundredths, 10_000);
    assert_eq!(summary.success_count, 0);
    assert_eq!(summary.failure_count, 8);
    assert_eq!(summary.total_count, 8);
}

#[test]
fn operator_cancellation_drains_and_stops() {
    // No time limit configured; the cancellation flag is set mid-run and
    // the next record — even a bare heartbeat — drains the aggregator.
    assert_eq!(watchdog_record(0), None);
    let mut agg = Aggregator::new();
    assert!(!agg.record(200, 700, false));
    assert!(!agg.record(204, 900, false));

    let hb = Outcome::heartbeat();
    let stop = agg.record(hb.status, hb.latency_micros, true);
    assert!(stop);
    assert_eq!(agg.phase, Phase::Draining);

    let summary = agg.finalize(500_000);
    assert_eq!(agg.phase, Phase::Stopped);
    assert_eq!(summary.total_count, 2);
    assert_eq!(summary.err_percent_hundredths, 0);
    assert_eq!(summary.max_latency_micros, 900);
}

#[test]
fn heartbeats_contribute_to_no_counter() {
    let mut agg = Aggregator::new();
    for _ in 0..5 {
        let hb = Outcome::heartbeat();
        assert!(!agg.record(hb.status, hb.latency_micros, false));
    }
    assert_eq!(agg.count_ok, 0);
    assert_eq!(agg.count_err, 0);
    let summary = agg.finalize(1_000_000);
    assert_eq!(summary.total_count, 0);
    // zero completed requests: error share and mean latency report as zero
    assert_eq!(summary.err_percent_hundredths, 0);
    assert_eq!(summary.avg_latency_micros, 0);
    assert_eq!(summary.p50_micros, None);
}

#[test]
fn interval_report_figures_are_exact() {
    let mut agg = Aggregator::new();
    agg.record(200, 10_000, false);
    agg.record(301, 20_000, false);
    agg.record(200, 30_000, false);
    agg.record(503, 40_000, false);
    assert!(!should_report(999_999));
    let report = agg.tick(1_000_000);
    // three successes over one second
    assert_eq!(report.tps_milli, 3_000);
    // first sample: the moving average equals it
    assert_eq!(report.tps_ma_milli, 3_000);
    // one failure in four completed requests
    assert_eq!(report.err_percent_hundredths, 2_500);
    assert_eq!(report.avg_latency_micros, 25_000);
    // interval percentiles over [10, 20, 30, 40] milliseconds
    assert_eq!(report.p50_micros, Some(25_000));
    assert_eq!(report.p999_micros, Some(30_000 + 10_000 * 997 / 1000));

    // the counters are fresh for the next interval; the totals stay
    assert_eq!(agg.count_ok, 0);
    assert_eq!(agg.count_err, 0);
    assert_eq!(agg.total_ok, 3);
    assert_eq!(agg.total_err, 1);
}

#[test]
fn moving_average_spans_intervals() {
    let mut agg = Aggregator::new();
    agg.record(200, 1000, false);
    agg.record(200, 1000, false);
    let first = agg.tick(1_000_000);
    assert_eq!(first.tps_milli, 2_000);
    assert_eq!(first.tps_ma_milli, 2_000);

    agg.record(200, 1000, false);
    agg.record(200, 1000, false);
    agg.record(200, 1000, false);
    agg.record(200, 1000, false);
    let second = agg.tick(1_000_000);
    assert_eq!(second.tps_milli, 4_000);
    assert_eq!(second.tps_ma_milli, 3_000);
}

#[test]
fn single_shot_reset_drops_the_interval() {
    let cfg = config(true);
    assert!(cfg.worker_stops_after(false));
    assert!(!config(false).worker_stops_after(false));
    assert!(config(false).worker_stops_after(true));
    assert!(cfg.method.carries_body() == false);
    assert!(Method::Post.carries_body());

    let mut agg = Aggregator::new();
    agg.record(200, 5000, false);
    agg.reset_interval();
    assert_eq!(agg.count_ok, 0);
    assert_eq!(agg.resp_time_micros, 0);
    // the totals survive the reset
    assert_eq!(agg.total_ok, 1);
    let summary = agg.finalize(1_000_000);
    assert_eq!(summary.total_count, 1);
    // the interval's latencies were dropped unfolded
    assert_eq!(summary.p50_micros, None);
    assert_eq!(summary.max_latency_micros, 5000);
}

#[test]
fn cumulative_percentiles_span_all_intervals() {
    let mut agg = Aggregator::new();
    agg.record(200, 20, false);
    agg.record(200, 32, false);
    agg.record(200, 18, false);
    agg.tick(1_000_000);
    agg.record(200, 38, false);
    agg.record(200, 9, false);
    agg.record(200, 24, false);
    let summary = agg.finalize(2_000_000);
    // the cumulative sequence is the sorted union of both intervals
    assert_eq!(summary.p50_micros, Some(22));
    assert_eq!(summary.max_latency_micros, 38);
    assert_eq!(Classification::Success, loadem::outcome::classify_status(200));
}
