use http_storm::metric::RequestMetric;
use http_storm::settings::Settings;
use http_storm::summary::{
    compute, elapsed_seconds, progress_percent, request_method, request_url, stats, total_count,
};
use http_storm::worker::WorkerMessage;

fn settings(total: Option<u64>, duration: Option<u64>) -> Settings {
    Settings {
        method: "POST".to_string(),
        url: "http://localhost:8080/path".to_string(),
        data: None,
        headers: Vec::new(),
        concurrency: 2,
        rate: None,
        total,
        duration,
    }
}

fn message(id: usize, elapsed_nanos: u64, millis: u64) -> WorkerMessage {
    WorkerMessage {
        id,
        finished: false,
        start_time: 0,
        current_time: elapsed_nanos,
        elapsed_time: elapsed_nanos,
        metric: RequestMetric::record(0, millis * 1_000_000, Ok("200".to_string())),
    }
}

#[test]
fn progress_by_total() {
    assert_eq!(progress_percent(&settings(Some(100), None), 0, 50), 50);
}

#[test]
fn progress_by_duration() {
    assert_eq!(progress_percent(&settings(None, Some(10)), 10, 0), 100);
}

#[test]
fn progress_without_caps_is_zero() {
    assert_eq!(progress_percent(&settings(None, None), 1000, 1000), 0);
}

#[test]
fn progress_takes_the_greater_ratio_rounded_up() {
    assert_eq!(progress_percent(&settings(Some(100), Some(10)), 3, 20), 30);
    assert_eq!(progress_percent(&settings(Some(100), Some(10)), 1, 20), 20);
    assert_eq!(progress_percent(&settings(Some(3), None), 0, 1), 34);
    assert_eq!(progress_percent(&settings(Some(1000), None), 0, 1), 1);
    assert_eq!(progress_percent(&settings(Some(100), None), 0, 7), 7);
}

#[test]
fn progress_is_at_most_a_hundred() {
    assert_eq!(progress_percent(&settings(Some(10), None), 0, 12), 100);
    assert_eq!(progress_percent(&settings(None, Some(1)), u64::MAX, 0), 100);
    assert_eq!(progress_percent(&settings(Some(1), None), 0, u64::MAX), 100);
}

#[test]
fn progress_with_a_cap_of_zero() {
    assert_eq!(progress_percent(&settings(Some(0), None), 0, 1), 100);
    assert_eq!(progress_percent(&settings(Some(0), None), 0, 0), 0);
    assert_eq!(progress_percent(&settings(Some(0), Some(10)), 5, 0), 50);
    assert_eq!(progress_percent(&settings(Some(0), Some(0)), 0, 0), 100);
}

#[test]
fn elapsed_follows_the_latest_message_of_worker_one() {
    let messages = vec![
        message(1, 2_000_000_000, 1),
        message(2, 9_000_000_000, 1),
        message(1, 4_999_999_999, 1),
        message(2, 7_000_000_000, 1),
    ];
    assert_eq!(elapsed_seconds(&messages), 4);
}

#[test]
fn elapsed_is_zero_before_worker_one_reports() {
    let messages = vec![message(2, 9_000_000_000, 1), message(3, 7_000_000_000, 1)];
    assert_eq!(elapsed_seconds(&messages), 0);
    assert_eq!(elapsed_seconds(&[]), 0);
}

#[test]
fn stats_take_the_last_messages() {
    let messages =
        vec![message(1, 0, 100), message(1, 0, 10), message(1, 0, 20), message(1, 0, 30)];
    let page = stats(&messages, 3);
    assert_eq!(page.count, 3);
    assert_eq!(page.time_values, vec![10, 20, 30]);
    assert_eq!(page.time_mean, 20);
    let all = stats(&messages, 10);
    assert_eq!(all.count, 4);
    assert_eq!(all.time_maximum, 100);
    let none = stats(&messages, 0);
    assert_eq!(none.count, 0);
}

#[test]
fn summary_of_a_run() {
    let messages = vec![
        message(1, 1_000_000_000, 100),
        message(2, 1_500_000_000, 10),
        message(1, 2_500_000_000, 20),
        message(2, 3_000_000_000, 30),
    ];
    let summary = compute(&messages, &settings(Some(16), Some(10)), 3);
    assert_eq!(summary.request_method, "POST");
    assert_eq!(summary.request_url, "http://localhost:8080/path");
    assert_eq!(summary.elapsed_seconds, 2);
    assert_eq!(summary.total_count, 4);
    assert_eq!(summary.progress_percent, 25);
    assert_eq!(summary.stats.count, 3);
    assert_eq!(summary.stats.time_values, vec![10, 20, 30]);
    assert_eq!(summary.stats.time_stddev, 8);
}

#[test]
fn summary_of_nothing() {
    let summary = compute(&[], &settings(Some(10), None), 0);
    assert_eq!(summary.elapsed_seconds, 0);
    assert_eq!(summary.total_count, 0);
    assert_eq!(summary.progress_percent, 0);
    assert_eq!(summary.stats.count, 0);
}

#[test]
fn method_url_and_count() {
    let s = settings(None, None);
    assert_eq!(request_method(&s), "POST");
    assert_eq!(request_url(&s), "http://localhost:8080/path");
    assert_eq!(total_count(&[message(1, 0, 0), message(1, 0, 0)]), 2);
}
