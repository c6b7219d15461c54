use load_rs::stats::get_quantiles;
use load_rs::LoadTestResult;

const SEC: u64 = 1_000_000_000;

#[test]
fn get_quantiles_succeeds() {
    let mut durations: Vec<u64> = (1..=10).map(|s| s * SEC).collect();
    if let [p50, p90, p95] = get_quantiles(&mut durations, &[50, 90, 95]).as_slice() {
        assert_eq!(*p50, 6 * SEC);
        assert_eq!(*p90, 10 * SEC);
        assert_eq!(*p95, 10 * SEC);
    } else {
        panic!("expected three quantiles");
    }
}

#[test]
fn quantiles_sort_their_input() {
    let mut durations: Vec<u64> = vec![7, 3, 9, 1, 5, 2, 8, 4, 10, 6];
    let q = get_quantiles(&mut durations, &[0, 50, 100]);
    assert_eq!(durations, vec![1, 2, 3, 4, 5, 6, 7, 8, 9, 10]);
    assert_eq!(q, vec![1, 6, 10]);
}

#[test]
fn quantiles_of_empty_list_are_zero() {
    let mut durations: Vec<u64> = Vec::new();
    assert_eq!(get_quantiles(&mut durations, &[50, 90, 95, 100]), vec![0, 0, 0, 0]);
}

#[test]
fn quantiles_of_single_sample() {
    let mut durations: Vec<u64> = vec![42];
    assert_eq!(get_quantiles(&mut durations, &[50, 95]), vec![42, 42]);
}

#[test]
fn record_tracks_counts_min_max_and_streaming_average() {
    let mut r = LoadTestResult::new();
    r.record(true, 30, 100);
    r.record(false, 999, 200);
    r.record(true, 10, 300);
    assert_eq!(r.success, 2);
    assert_eq!(r.failures, 1);
    assert_eq!(r.completed, 3);
    assert_eq!(r.total_duration, 40);
    assert_eq!(r.durations, vec![30, 10]);
    assert_eq!(r.min, 10);
    assert_eq!(r.max, 30);
    assert_eq!(r.avg, 13);
    assert_eq!(r.elapsed, 300);
}

#[test]
fn zero_duration_success_is_the_minimum() {
    let mut r = LoadTestResult::new();
    r.record(true, 0, 1);
    r.record(true, 5, 2);
    assert_eq!(r.min, 0);
    assert_eq!(r.max, 5);
}

#[test]
fn finish_divides_average_by_configured_requests() {
    let mut r = LoadTestResult::new();
    r.record(true, 10, 1);
    r.record(true, 20, 2);
    r.record(true, 30, 3);
    r.record(false, 0, 4);
    r.finish(4, 5);
    assert_eq!(r.avg, 15);
    assert_eq!(r.p50, 20);
    assert_eq!(r.p90, 30);
    assert_eq!(r.p95, 30);
    assert_eq!(r.elapsed, 5);
}

#[test]
fn rps_in_thousandths() {
    let mut r = LoadTestResult::new();
    assert_eq!(r.rps_millis(), 0);
    r.record(true, 1, 2 * SEC);
    r.record(true, 1, 2 * SEC);
    r.record(true, 1, 2 * SEC);
    assert_eq!(r.rps_millis(), 1500);
}

#[test]
fn finish_leaves_durations_sorted() {
    let mut r = LoadTestResult::new();
    r.record(true, 2, 1);
    r.record(true, 1, 2);
    assert_eq!(r.durations, vec![2, 1]);
    r.finish(2, 3);
    assert_eq!(r.durations, vec![1, 2]);
    assert_eq!(r.total_duration, 3);
    assert_eq!(r.min, 1);
    assert_eq!(r.max, 2);
    assert_eq!(r.p50, 2);
}
