//! The percentile engine exercised end to end: sorting, merging into the
//! cumulative sequence, and rank-interpolated queries.

use loadem::stats::{extend_sorted, percentile, sort};

#[test]
fn it_works() {
    let mut stats: Vec<u64> = Vec::new();

    let mut new_data: Vec<u64> = vec![20, 32, 18];
    sort(&mut new_data);
    extend_sorted(&mut stats, &new_data);
    assert_eq!(stats, vec![18, 20, 32]);

    new_data = vec![38, 9, 24];
    sort(&mut new_data);
    extend_sorted(&mut stats, &new_data);
    assert_eq!(stats, vec![9, 18, 20, 24, 32, 38]);

    assert_eq!(percentile(&stats, 500), Some(22));
    assert_eq!(percentile(&stats, 0), Some(9));
    assert_eq!(percentile(&stats, 1000), Some(38));
}

#[test]
fn percentile_of_empty_is_undefined() {
    let empty: Vec<u64> = Vec::new();
    assert_eq!(percentile(&empty, 0), None);
    assert_eq!(percentile(&empty, 500), None);
    assert_eq!(percentile(&empty, 1000), None);
}

#[test]
fn percentile_of_single_element_is_that_element() {
    let one: Vec<u64> = vec![42];
    assert_eq!(percentile(&one, 0), Some(42));
    assert_eq!(percentile(&one, 250), Some(42));
    assert_eq!(percentile(&one, 500), Some(42));
    assert_eq!(percentile(&one, 999), Some(42));
    assert_eq!(percentile(&one, 1000), Some(42));
}

#[test]
fn percentile_interpolates_to_the_floor() {
    // rank 999 of four points: rank = 999 * 3 = 2997, so the answer sits
    // 997 thousandths of the way from the third to the fourth element.
    let data: Vec<u64> = vec![100, 200, 300, 1300];
    assert_eq!(percentile(&data, 999), Some(300 + 1000 * 997 / 1000));
    // rank 250 of two points: a quarter of the way up.
    let pair: Vec<u64> = vec![100, 200];
    assert_eq!(percentile(&pair, 250), Some(125));
}

#[test]
fn percentile_is_monotonic_in_the_rank() {
    let data: Vec<u64> = vec![5, 7, 7, 9, 100, 101];
    let ranks = [0u32, 100, 250, 500, 900, 990, 999, 1000];
    let mut previous = 0u64;
    for r in ranks {
        let v = percentile(&data, r).unwrap();
        assert!(previous <= v);
        previous = v;
    }
}

#[test]
fn merge_with_either_side_empty() {
    let mut cumulative: Vec<u64> = Vec::new();
    let batch: Vec<u64> = vec![3, 5, 8];
    extend_sorted(&mut cumulative, &batch);
    assert_eq!(cumulative, vec![3, 5, 8]);

    let empty: Vec<u64> = Vec::new();
    extend_sorted(&mut cumulative, &empty);
    assert_eq!(cumulative, vec![3, 5, 8]);
}

#[test]
fn merge_interleaves_and_keeps_duplicates() {
    let mut cumulative: Vec<u64> = vec![1, 4, 4, 9];
    let mut batch: Vec<u64> = vec![9, 0, 4];
    sort(&mut batch);
    extend_sorted(&mut cumulative, &batch);
    assert_eq!(cumulative, vec![0, 1, 4, 4, 4, 9, 9]);
}

#[test]
fn sort_orders_arbitrary_input() {
    let mut data: Vec<u64> = vec![50, 1, 50, 0, 7, 3];
    sort(&mut data);
    assert_eq!(data, vec![0, 1, 3, 7, 50, 50]);
}
