use http_storm::metric::RequestMetric;
use http_storm::settings::Settings;
use http_storm::worker::{
    duration_check, rate_delay, total_check, worker_ids, worker_total, Worker, WorkerCommand,
    WorkerStep,
};

fn settings(concurrency: usize, rate: Option<u64>, total: Option<u64>, duration: Option<u64>) -> Settings {
    Settings {
        method: "GET".to_string(),
        url: "http://localhost/".to_string(),
        data: None,
        headers: Vec::new(),
        concurrency,
        rate,
        total,
        duration,
    }
}

fn metric(nanos: u64) -> RequestMetric {
    RequestMetric::record(0, nanos, Ok("200".to_string()))
}

#[test]
fn share_of_the_total_is_rounded_up() {
    assert_eq!(worker_total(Some(10), 3), Some(4));
    assert_eq!(worker_total(Some(9), 3), Some(3));
    assert_eq!(worker_total(Some(1), 8), Some(1));
    assert_eq!(worker_total(Some(0), 8), Some(0));
    assert_eq!(worker_total(Some(u64::MAX), 1), Some(u64::MAX));
    assert_eq!(worker_total(None, 3), None);
}

#[test]
fn total_check_compares_with_the_share() {
    assert!(total_check(Some(4), 3));
    assert!(!total_check(Some(4), 4));
    assert!(!total_check(Some(0), 1));
    assert!(total_check(None, u64::MAX));
}

#[test]
fn duration_check_compares_with_the_seconds() {
    assert!(duration_check(Some(2), 1_999_999_999));
    assert!(!duration_check(Some(2), 2_000_000_000));
    assert!(!duration_check(Some(0), 0));
    assert!(duration_check(Some(u64::MAX), u64::MAX));
    assert!(duration_check(None, u64::MAX));
}

#[test]
fn rate_delay_is_the_rest_of_the_period() {
    // 4 workers share 8 requests a second: each has a period of half a second.
    assert_eq!(rate_delay(Some(8), 4, 100_000_000), Some(400_000_000));
    assert_eq!(rate_delay(Some(8), 4, 499_999_999), Some(1));
    assert_eq!(rate_delay(Some(8), 4, 500_000_000), None);
    assert_eq!(rate_delay(Some(8), 4, 900_000_000), None);
    assert_eq!(rate_delay(Some(3), 1, 0), Some(333_333_333));
    assert_eq!(rate_delay(None, 4, 0), None);
}

#[test]
fn workers_are_numbered_from_one() {
    assert_eq!(worker_ids(4), vec![1, 2, 3, 4]);
    assert_eq!(worker_ids(1), vec![1]);
    assert!(worker_ids(0).is_empty());
}

#[test]
fn worker_stops_on_command() {
    let worker = Worker::new(&settings(2, None, None, None), 1, 0);
    assert!(worker.may_request(WorkerCommand::Run));
    assert!(!worker.may_request(WorkerCommand::Stop));
}

#[test]
fn worker_finishes_when_its_share_is_used() {
    let mut worker = Worker::new(&settings(3, None, Some(10), None), 2, 1_000);
    assert_eq!(worker.total, Some(4));
    let mut sent = 0;
    loop {
        let message = worker.report(metric(10), 2_000 + sent);
        sent += 1;
        assert_eq!(message.id, 2);
        assert_eq!(message.start_time, 1_000);
        assert_eq!(message.elapsed_time, 1_000 + sent - 1);
        if worker.after_send(message.finished, true, 10) == WorkerStep::Exit {
            assert!(message.finished);
            break;
        }
        assert!(!message.finished);
    }
    assert_eq!(sent, 4);
    assert_eq!(worker.count, 4);
}

#[test]
fn workers_together_reach_the_total_and_overshoot_by_less_than_one_each() {
    for (total, concurrency) in [(10u64, 3usize), (9, 3), (1, 5), (100, 7), (7, 7)] {
        let mut all = 0u64;
        for id in worker_ids(concurrency) {
            let mut worker = Worker::new(&settings(concurrency, None, Some(total), None), id, 0);
            loop {
                let message = worker.report(metric(1), 1);
                all += 1;
                if message.finished {
                    break;
                }
            }
        }
        let share = worker_total(Some(total), concurrency).unwrap();
        assert_eq!(all, concurrency as u64 * share);
        assert!(all >= total);
        assert!(all < total + concurrency as u64);
    }
}

#[test]
fn worker_finishes_when_its_duration_is_over() {
    let mut worker = Worker::new(&settings(2, None, None, Some(1)), 1, 500);
    let first = worker.report(metric(10), 500 + 999_999_999);
    assert!(!first.finished);
    assert_eq!(first.elapsed_time, 999_999_999);
    let last = worker.report(metric(10), 500 + 1_000_000_000);
    assert!(last.finished);
    assert!(last.elapsed_time < 1_000_000_000 + (last.current_time - first.current_time));
}

#[test]
fn worker_without_limits_never_finishes() {
    let mut worker = Worker::new(&settings(1, None, None, None), 1, 0);
    for now in 0..1000u64 {
        let message = worker.report(metric(1), now * 1_000_000_000);
        assert!(!message.finished);
    }
    assert_eq!(worker.count, 1000);
}

#[test]
fn worker_ends_when_the_message_is_not_delivered() {
    let worker = Worker::new(&settings(1, Some(1), None, None), 1, 0);
    assert_eq!(worker.after_send(false, false, 0), WorkerStep::Exit);
    assert_eq!(worker.after_send(true, true, 0), WorkerStep::Exit);
}

#[test]
fn worker_paces_itself_by_the_last_request_only() {
    let worker = Worker::new(&settings(2, Some(4), None, None), 1, 0);
    assert_eq!(worker.after_send(false, true, 200_000_000), WorkerStep::Pause(300_000_000));
    assert_eq!(worker.after_send(false, true, 700_000_000), WorkerStep::Proceed);
    assert_eq!(worker.after_send(false, true, 200_000_000), WorkerStep::Pause(300_000_000));
    let free = Worker::new(&settings(2, None, None, None), 1, 0);
    assert_eq!(free.after_send(false, true, 0), WorkerStep::Proceed);
}

#[test]
fn workers_ended_by_the_duration_stay_below_their_share() {
    let concurrency = 4usize;
    let total = 10u64;
    let mut all = 0u64;
    let mut last_messages = 0u64;
    for id in worker_ids(concurrency) {
        let mut worker = Worker::new(&settings(concurrency, None, Some(total), Some(2)), id, 0);
        let mut now = 0u64;
        loop {
            now += 900_000_000;
            let message = worker.report(metric(900_000_000), now);
            all += 1;
            if message.finished {
                last_messages += 1;
                break;
            }
        }
    }
    // Each worker has a share of three, and the duration ends it with its third message.
    assert_eq!(all, 12);
    assert_eq!(last_messages, concurrency as u64);
    assert!(all <= concurrency as u64 * worker_total(Some(total), concurrency).unwrap());
}

#[test]
fn every_worker_marks_one_message_as_its_last() {
    let mut worker = Worker::new(&settings(1, None, Some(5), None), 1, 0);
    let mut marked = 0;
    let mut sent = 0;
    loop {
        let message = worker.report(metric(1), 1);
        sent += 1;
        if message.finished {
            marked += 1;
        }
        if worker.after_send(message.finished, true, 1) == WorkerStep::Exit {
            break;
        }
    }
    assert_eq!(sent, 5);
    assert_eq!(marked, 1);
}
