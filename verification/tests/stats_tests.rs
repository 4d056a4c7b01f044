use http_storm::metric::RequestMetric;
use http_storm::stats::{
    compute, count, estimator, status, time_histogram, time_maximum, time_mean, time_minimum,
    time_stddev, time_values, Stats,
};
use http_storm::worker::WorkerMessage;

fn message(id: usize, millis: u64, code: Option<&str>) -> WorkerMessage {
    let outcome = match code {
        Some(code) => Ok(code.to_string()),
        None => Err("connection refused".to_string()),
    };
    let metric = RequestMetric::record(1_000, 1_000 + millis * 1_000_000, outcome);
    WorkerMessage {
        id,
        finished: false,
        start_time: 0,
        current_time: 1_000 + millis * 1_000_000,
        elapsed_time: 1_000 + millis * 1_000_000,
        metric,
    }
}

fn window(millis: &[u64]) -> Vec<WorkerMessage> {
    millis.iter().map(|m| message(1, *m, Some("200"))).collect()
}

fn same(a: &Stats, b: &Stats) -> bool {
    a.count == b.count
        && a.status == b.status
        && a.time_values == b.time_values
        && a.time_minimum == b.time_minimum
        && a.time_mean == b.time_mean
        && a.time_maximum == b.time_maximum
        && a.time_stddev == b.time_stddev
        && a.time_histogram == b.time_histogram
}

#[test]
fn mean_and_stddev_of_three_values() {
    let stats = compute(&window(&[10, 20, 30]));
    assert_eq!(stats.time_values, vec![10, 20, 30]);
    assert_eq!(stats.time_minimum, 10);
    assert_eq!(stats.time_mean, 20);
    assert_eq!(stats.time_maximum, 30);
    assert_eq!(stats.time_stddev, 8);
    assert_eq!(stats.count, 3);
}

#[test]
fn mean_is_rounded_down() {
    let stats = compute(&window(&[1, 2]));
    assert_eq!(stats.time_mean, 1);
    assert_eq!(stats.time_stddev, 0);
    let stats = compute(&window(&[0, 0, 5]));
    assert_eq!(stats.time_mean, 1);
    assert_eq!(stats.time_stddev, 2);
}

#[test]
fn stddev_is_population_not_sample() {
    // Values 2, 4, 4, 4, 5, 5, 7, 9 have a population variance of exactly 4.
    let stats = compute(&window(&[2, 4, 4, 4, 5, 5, 7, 9]));
    assert_eq!(stats.time_mean, 5);
    assert_eq!(stats.time_stddev, 2);
    // Two values 0 and 6: population deviation 3, sample deviation above 4.
    let stats = compute(&window(&[0, 6]));
    assert_eq!(stats.time_stddev, 3);
}

#[test]
fn single_value_has_no_deviation() {
    let stats = compute(&window(&[42]));
    assert_eq!(stats.time_minimum, 42);
    assert_eq!(stats.time_mean, 42);
    assert_eq!(stats.time_maximum, 42);
    assert_eq!(stats.time_stddev, 0);
}

#[test]
fn estimator_handles_the_largest_samples() {
    let e = estimator(&[u64::MAX, 0]);
    assert_eq!(time_minimum(&e), 0);
    assert_eq!(time_maximum(&e), u64::MAX);
    assert_eq!(time_mean(&e), u64::MAX / 2);
    assert_eq!(time_stddev(&e), u64::MAX / 2);
    let e = estimator(&[u64::MAX, u64::MAX, u64::MAX]);
    assert_eq!(time_mean(&e), u64::MAX);
    assert_eq!(time_stddev(&e), 0);
    assert_eq!(e.count(), 3);
}

#[test]
fn estimator_of_nothing_is_zero() {
    let e = estimator(&[]);
    assert_eq!(e.count(), 0);
    assert_eq!(time_minimum(&e), 0);
    assert_eq!(time_mean(&e), 0);
    assert_eq!(time_maximum(&e), 0);
    assert_eq!(time_stddev(&e), 0);
}

#[test]
fn empty_window_gives_zero_stats() {
    let stats = compute(&[]);
    assert_eq!(stats.count, 0);
    assert!(stats.status.is_empty());
    assert!(stats.time_values.is_empty());
    assert_eq!(stats.time_minimum, 0);
    assert_eq!(stats.time_mean, 0);
    assert_eq!(stats.time_maximum, 0);
    assert_eq!(stats.time_stddev, 0);
    assert!(stats.time_histogram.is_empty());
}

#[test]
fn compute_twice_gives_the_same() {
    let messages = vec![
        message(1, 12, Some("200")),
        message(2, 7, None),
        message(1, 31, Some("404")),
        message(3, 12, Some("200")),
    ];
    let first = compute(&messages);
    let second = compute(&messages);
    assert!(same(&first, &second));
}

#[test]
fn histogram_counts_add_up() {
    let values: Vec<u64> = vec![3, 9, 27, 81, 243, 729, 1, 1, 1000, 500, 250];
    let stats = compute(&window(&values));
    let sum: u64 = stats.time_histogram.iter().map(|(_, n)| *n).sum();
    assert_eq!(sum, stats.time_values.len() as u64);
    assert_eq!(stats.time_histogram.len(), 10);
}

#[test]
fn histogram_of_three_values() {
    let histogram = time_histogram(&[10, 20, 30], 10, 30);
    let expected = vec![
        ((9, 11), 1),
        ((11, 13), 0),
        ((13, 15), 0),
        ((15, 17), 0),
        ((17, 20), 0),
        ((20, 22), 1),
        ((22, 24), 0),
        ((24, 26), 0),
        ((26, 28), 0),
        ((28, 31), 1),
    ];
    assert_eq!(histogram, expected);
}

#[test]
fn histogram_keeps_extremes_inside_outer_buckets() {
    let histogram = time_histogram(&[5, 5, 5], 5, 5);
    // The range is 4 to 6, each bucket 0.2 wide; 5 lies in the sixth.
    assert_eq!(histogram[0], ((4, 4), 0));
    assert_eq!(histogram[5], ((5, 5), 3));
    assert_eq!(histogram[9], ((5, 6), 0));
}

#[test]
fn histogram_edges_stay_within_range_of_u64() {
    let histogram = time_histogram(&[0, u64::MAX], 0, u64::MAX);
    assert_eq!((histogram[0].0).0, 0);
    assert_eq!((histogram[9].0).1, u64::MAX);
    assert_eq!(histogram[0].1, 1);
    assert_eq!(histogram[9].1, 1);
    let sum: u64 = histogram.iter().map(|(_, n)| *n).sum();
    assert_eq!(sum, 2);
}

#[test]
fn status_groups_by_label() {
    let messages = vec![
        message(1, 1, Some("200")),
        message(2, 1, Some("200")),
        message(1, 1, None),
        message(2, 1, Some("404")),
    ];
    let tally = status(&messages);
    assert_eq!(
        tally,
        vec![("200".to_string(), 2), ("000".to_string(), 1), ("404".to_string(), 1)]
    );
    let stats = compute(&messages);
    assert_eq!(stats.status, tally);
}

#[test]
fn status_counts_add_up() {
    let messages = vec![
        message(1, 1, None),
        message(1, 1, Some("500")),
        message(1, 1, None),
        message(1, 1, Some("500")),
        message(1, 1, Some("200")),
    ];
    let tally = status(&messages);
    assert_eq!(
        tally,
        vec![("000".to_string(), 2), ("500".to_string(), 2), ("200".to_string(), 1)]
    );
    let sum: u64 = tally.iter().map(|(_, n)| *n).sum();
    assert_eq!(sum, count(&messages));
}

#[test]
fn time_values_are_whole_milliseconds_in_order() {
    let mut messages = window(&[5, 1, 9]);
    messages[1].metric.elapsed_time = 1_999_999;
    assert_eq!(time_values(&messages), vec![5, 1, 9]);
    messages[1].metric.elapsed_time = 999_999;
    assert_eq!(time_values(&messages), vec![5, 0, 9]);
}

#[test]
fn count_is_the_number_of_messages() {
    assert_eq!(count(&window(&[1, 2, 3, 4])), 4);
    assert_eq!(count(&[]), 0);
}
