//! Outcome classification: status ranges, the reserved control codes, and
//! the distinguished internal failure codes.

use loadem::outcome::{
    classify_status, fetch_status, watchdog_record, Classification, FetchResult, Outcome,
    BODY_ERROR_STATUS, HEARTBEAT_STATUS, SENTINEL_STATUS, TRANSPORT_ERROR_STATUS,
};

#[test]
fn statuses_in_the_success_range_classify_success() {
    for status in [200u16, 204, 299, 301, 304, 399] {
        assert_eq!(classify_status(status), Classification::Success);
    }
}

#[test]
fn statuses_outside_the_success_range_classify_failure() {
    for status in [1u16, 100, 199, 400, 404, 418, 500, 503, 599, 700] {
        assert_eq!(classify_status(status), Classification::Failure);
    }
    assert_eq!(classify_status(TRANSPORT_ERROR_STATUS), Classification::Failure);
    assert_eq!(classify_status(BODY_ERROR_STATUS), Classification::Failure);
}

#[test]
fn control_codes_classify_as_control() {
    assert_eq!(classify_status(HEARTBEAT_STATUS), Classification::Heartbeat);
    assert_eq!(classify_status(SENTINEL_STATUS), Classification::TerminateSentinel);
}

#[test]
fn fetch_results_map_to_their_status_codes() {
    assert_eq!(fetch_status(FetchResult::Responded { status: 200 }), 200);
    assert_eq!(fetch_status(FetchResult::Responded { status: 503 }), 503);
    assert_eq!(fetch_status(FetchResult::BodyFailed { status: 200 }), BODY_ERROR_STATUS);
    assert_eq!(fetch_status(FetchResult::TransportFailed), TRANSPORT_ERROR_STATUS);
}

#[test]
fn watchdog_sends_the_sentinel_only_under_a_time_limit() {
    assert_eq!(watchdog_record(0), None);
    let record = watchdog_record(2).unwrap();
    assert_eq!(record.status, SENTINEL_STATUS);
    assert_eq!(record.latency_micros, 0);
    assert_eq!(record.classification(), Classification::TerminateSentinel);
}

#[test]
fn heartbeat_and_sentinel_records_carry_zero_latency() {
    let hb = Outcome::heartbeat();
    assert_eq!(hb.status, HEARTBEAT_STATUS);
    assert_eq!(hb.latency_micros, 0);
    assert_eq!(hb.classification(), Classification::Heartbeat);

    let s = Outcome::sentinel();
    assert_eq!(s.status, SENTINEL_STATUS);
    assert_eq!(s.latency_micros, 0);

    let real = Outcome::request(200, 1234);
    assert_eq!(real.status, 200);
    assert_eq!(real.latency_micros, 1234);
    assert_eq!(real.classification(), Classification::Success);
}
