use http_storm::metric::RequestMetric;
use http_storm::settings::Settings;

#[test]
fn metric_with_status_has_no_error() {
    let metric = RequestMetric::record(100, 350, Ok("200 OK".to_string()));
    assert_eq!(metric.start_time, 100);
    assert_eq!(metric.stop_time, 350);
    assert_eq!(metric.elapsed_time, 250);
    assert_eq!(metric.status_code, Some("200 OK".to_string()));
    assert_eq!(metric.error_message, None);
    assert!(metric.status_code.is_some() != metric.error_message.is_some());
}

#[test]
fn metric_with_error_has_no_status() {
    let metric = RequestMetric::record(7, 7, Err("timed out".to_string()));
    assert_eq!(metric.elapsed_time, 0);
    assert_eq!(metric.status_code, None);
    assert_eq!(metric.error_message, Some("timed out".to_string()));
    assert!(metric.status_code.is_some() != metric.error_message.is_some());
}

#[test]
fn label_is_status_or_three_zeros() {
    let ok = RequestMetric::record(0, 1, Ok("404".to_string()));
    assert_eq!(ok.status_label(), "404");
    let failed = RequestMetric::record(0, 1, Err("refused".to_string()));
    assert_eq!(failed.status_label(), "000");
}

#[test]
fn elapsed_millis_rounds_down() {
    let metric = RequestMetric::record(0, 2_999_999, Ok("200".to_string()));
    assert_eq!(metric.elapsed_millis(), 2);
    let metric = RequestMetric::record(0, 3_000_000, Ok("200".to_string()));
    assert_eq!(metric.elapsed_millis(), 3);
}

#[test]
fn settings_need_a_worker_and_a_rate_above_zero() {
    let mut settings = Settings {
        method: "GET".to_string(),
        url: "http://localhost/".to_string(),
        data: None,
        headers: Vec::new(),
        concurrency: 1,
        rate: None,
        total: None,
        duration: None,
    };
    assert!(settings.is_well_formed());
    settings.rate = Some(0);
    assert!(!settings.is_well_formed());
    settings.rate = Some(5);
    assert!(settings.is_well_formed());
    settings.concurrency = 0;
    assert!(!settings.is_well_formed());
}
