//! The state of a run as shown to the operator.

use crate::metric::NANOS_PER_SECOND;
use crate::settings::Settings;
use crate::stats::Stats;
use crate::worker::WorkerMessage;
use vstd::prelude::*;

verus! {

/// The run so far: what is requested, for how long, how many answers came,
/// how far the run is, and the statistics of the latest messages.
#[derive(Debug)]
pub struct Summary {
    pub request_method: String,
    pub request_url: String,
    pub elapsed_seconds: u64,
    pub total_count: u64,
    pub progress_percent: u16,
    pub stats: Stats,
}

/// The whole seconds that the latest message of worker 1 gives as elapsed,
/// or zero where worker 1 has sent none.
pub open spec fn elapsed_seconds_of(messages: Seq<WorkerMessage>) -> int
    decreases messages.len(),
{
    if messages.len() == 0 {
        0
    } else if messages.last().id == 1 {
        messages.last().elapsed_time as int / 1_000_000_000
    } else {
        elapsed_seconds_of(messages.drop_last())
    }
}

/// A hundred times `value / cap`, rounded up, for a `cap` above zero.
pub open spec fn raised_percent(value: int, cap: int) -> int {
    (100 * value + cap - 1) / cap
}

/// `raised_percent` is the least whole number that is not below a hundred
/// times `value / cap`.
pub proof fn lemma_raised_percent_is_ceiling(value: int, cap: int)
    requires
        0 <= value,
        0 < cap,
    ensures
        0 <= raised_percent(value, cap),
        raised_percent(value, cap) * cap >= 100 * value,
        (raised_percent(value, cap) - 1) * cap < 100 * value,
{
    let p = raised_percent(value, cap);
    assert(p * cap <= 100 * value + cap - 1 < (p + 1) * cap && 0 <= p) by (nonlinear_arith)
        requires
            p == (100 * value + cap - 1) / cap,
            cap > 0,
            value >= 0,
    ;
    assert((p - 1) * cap == p * cap - cap && (p + 1) * cap == p * cap + cap) by (nonlinear_arith);
}

/// A hundred times `value / cap`, rounded up. Without a cap it is zero.
/// With a cap of zero it is a hundred for a `value` above zero, and not
/// defined, `None`, for zero of zero.
pub open spec fn percent_of(value: u64, cap: Option<u64>) -> Option<int> {
    match cap {
        None => Some(0int),
        Some(c) => if c > 0 {
            Some(raised_percent(value as int, c as int))
        } else if value > 0 {
            Some(100int)
        } else {
            None
        },
    }
}

/// The greater of the two percentages, at most a hundred. One that is not
/// defined gives way to the other; where neither is, the run counts as done.
pub open spec fn progress_of(
    total: Option<u64>,
    duration: Option<u64>,
    elapsed_seconds: u64,
    total_count: u64,
) -> int {
    let by_total = percent_of(total_count, total);
    let by_duration = percent_of(elapsed_seconds, duration);
    let percent = match (by_total, by_duration) {
        (Some(a), Some(b)) => if a >= b {
            a
        } else {
            b
        },
        (Some(a), None) => a,
        (None, Some(b)) => b,
        (None, None) => 100,
    };
    if percent > 100 {
        100
    } else {
        percent
    }
}

/// The last `take` of the messages, or all of them where there are fewer.
pub open spec fn window_of(messages: Seq<WorkerMessage>, take: usize) -> Seq<WorkerMessage> {
    if take >= messages.len() {
        messages
    } else {
        messages.subrange(messages.len() - take, messages.len() as int)
    }
}

/// The summary of a run: the whole history gives the elapsed seconds, the
/// count and the progress; its last `take` messages give the statistics.
pub fn compute(messages: &[WorkerMessage], settings: &Settings, take: usize) -> (summary: Summary)
    ensures
        summary.request_method@ == settings.method@,
        summary.request_url@ == settings.url@,
        summary.elapsed_seconds == elapsed_seconds_of(messages@),
        summary.total_count == messages@.len(),
        summary.progress_percent == progress_of(
            settings.total,
            settings.duration,
            summary.elapsed_seconds,
            summary.total_count,
        ),
        summary.stats.describes(window_of(messages@, take)),
{
    let request_method = request_method(settings);
    let request_url = request_url(settings);
    let elapsed_seconds = elapsed_seconds(messages);
    let total_count = total_count(messages);
    let progress_percent = progress_percent(settings, elapsed_seconds, total_count);
    let stats = stats(messages, take);
    Summary { request_method, request_url, elapsed_seconds, total_count, progress_percent, stats }
}

/// The method of the request.
pub fn request_method(settings: &Settings) -> (method: String)
    ensures
        method@ == settings.method@,
{
    settings.method.clone()
}

/// The address that is requested.
pub fn request_url(settings: &Settings) -> (url: String)
    ensures
        url@ == settings.url@,
{
    settings.url.clone()
}

/// The seconds since the run began, taken from the latest message of worker 1.
pub fn elapsed_seconds(messages: &[WorkerMessage]) -> (seconds: u64)
    ensures
        seconds == elapsed_seconds_of(messages@),
        (forall|i: int| 0 <= i < messages@.len() ==> messages@[i].id != 1) ==> seconds == 0,
{
    let mut k: usize = messages.len();
    proof {
        assert(messages@.take(k as int) == messages@);
    }
    while k > 0
        invariant
            k <= messages@.len(),
            elapsed_seconds_of(messages@) == elapsed_seconds_of(messages@.take(k as int)),
            forall|i: int| k <= i < messages@.len() ==> messages@[i].id != 1,
        decreases k,
    {
        let ghost front = messages@.take(k as int);
        proof {
            assert(front.drop_last() == messages@.take(k - 1));
            assert(front.last() == messages@[k - 1]);
        }
        k -= 1;
        if messages[k].id == 1 {
            return messages[k].elapsed_time / NANOS_PER_SECOND;
        }
    }
    0
}

/// The number of messages in the whole history.
pub fn total_count(messages: &[WorkerMessage]) -> (n: u64)
    ensures
        n == messages@.len(),
{
    messages.len() as u64
}

/// A hundred times `value / cap`, rounded up and at most a hundred, or
/// `None` where it is not defined.
fn percent(value: u64, cap: Option<u64>) -> (p: Option<u16>)
    ensures
        p.is_some() == percent_of(value, cap).is_some(),
        p matches Some(v) ==> v <= 100 && v == if percent_of(value, cap).unwrap() > 100 {
            100
        } else {
            percent_of(value, cap).unwrap()
        },
{
    match cap {
        None => Some(0),
        Some(c) => if c > 0 {
            let raised: u128 = (100 * (value as u128) + (c as u128) - 1) / (c as u128);
            if raised > 100 {
                Some(100)
            } else {
                Some(raised as u16)
            }
        } else if value > 0 {
            Some(100)
        } else {
            None
        },
    }
}

/// How far the run is, in percent: by the requests made of those allowed or
/// by the time used of the time allowed, whichever is further.
pub fn progress_percent(settings: &Settings, elapsed_seconds: u64, total_count: u64) -> (percent:
    u16)
    ensures
        percent == progress_of(settings.total, settings.duration, elapsed_seconds, total_count),
        percent <= 100,
        settings.total.is_none() && settings.duration.is_none() ==> percent == 0,
{
    let by_total = percent(total_count, settings.total);
    let by_duration = percent(elapsed_seconds, settings.duration);
    match (by_total, by_duration) {
        (Some(a), Some(b)) => if a >= b {
            a
        } else {
            b
        },
        (Some(a), None) => a,
        (None, Some(b)) => b,
        (None, None) => 100,
    }
}

/// The statistics of the last `take` messages.
pub fn stats(messages: &[WorkerMessage], take: usize) -> (stats: Stats)
    ensures
        stats.describes(window_of(messages@, take)),
{
    let from: usize = if take >= messages.len() {
        0
    } else {
        messages.len() - take
    };
    let page = vstd::slice::slice_subrange(messages, from, messages.len());
    proof {
        assert(page@ == window_of(messages@, take));
    }
    crate::stats::compute(page)
}

} // verus!
