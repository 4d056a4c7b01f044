//! Workers: what each one is told, what it reports, and how it decides to go on.

use crate::metric::{RequestMetric, NANOS_PER_SECOND};
use crate::settings::Settings;
use crate::text::{aligned_string, decimal, right_aligned};
use vstd::prelude::*;

verus! {

/// What the workers are told to do. Only the latest value counts.
#[derive(Debug, Copy, Clone, PartialEq, Eq, Structural)]
pub enum WorkerCommand {
    Run,
    Stop,
}

/// What a worker reports after each request. All times are in nanoseconds;
/// `elapsed_time` runs from the worker's start to this message.
#[derive(Debug)]
pub struct WorkerMessage {
    pub id: usize,
    pub finished: bool,
    pub start_time: u64,
    pub current_time: u64,
    pub elapsed_time: u64,
    pub metric: RequestMetric,
}

impl WorkerMessage {
    /// The message as a line of text: the worker's number to the right of
    /// three columns, then the metric.
    pub open spec fn text(&self) -> Seq<char> {
        "Worker "@ + right_aligned(decimal(self.id as nat), 3) + ": "@ + self.metric.text()
    }

    /// The message as a line of text.
    pub fn to_text(&self) -> (line: String)
        ensures
            line@ == self.text(),
    {
        let mut line = "Worker ".to_owned();
        line.append(aligned_string(self.id as u64).as_str());
        line.append(": ");
        line.append(self.metric.to_text().as_str());
        line
    }

    /// The message was not sent before its worker started, and its elapsed
    /// time is the span between the two.
    pub open spec fn well_timed(&self) -> bool {
        &&& self.start_time <= self.current_time
        &&& self.elapsed_time == self.current_time - self.start_time
    }
}

/// A worker's share of the total: `total / concurrency`, rounded up.
pub open spec fn share_of(total: u64, concurrency: usize) -> int {
    (total + concurrency - 1) / (concurrency as int)
}

/// Whether a worker that has made `count` requests is still below its share.
/// Without a total it always is.
pub open spec fn within_total(total: Option<u64>, count: u64) -> bool {
    match total {
        Some(share) => count < share,
        None => true,
    }
}

/// Whether a worker that has run for `elapsed_time` nanoseconds is still
/// below `duration` seconds. Without a duration it always is.
pub open spec fn within_duration(duration: Option<u64>, elapsed_time: u64) -> bool {
    match duration {
        Some(seconds) => elapsed_time < seconds * NANOS_PER_SECOND,
        None => true,
    }
}

/// The nanoseconds from one request of a worker to its next, rounded down,
/// where `concurrency` workers share `rate` requests a second.
pub open spec fn period_of(rate: u64, concurrency: usize) -> int {
    (concurrency * NANOS_PER_SECOND) / (rate as int)
}

/// The nanoseconds that a worker waits after a request that took
/// `elapsed_time`: what is left of its period, if anything is.
pub open spec fn delay_of(rate: Option<u64>, concurrency: usize, elapsed_time: u64) -> Option<int> {
    match rate {
        Some(rate) => if elapsed_time < period_of(rate, concurrency) {
            Some(period_of(rate, concurrency) - elapsed_time)
        } else {
            None
        },
        None => None,
    }
}

/// The share is the least number of requests that, made by every worker,
/// reach the total.
pub proof fn lemma_share_is_ceiling(total: u64, concurrency: usize)
    requires
        concurrency >= 1,
    ensures
        0 <= share_of(total, concurrency) <= total,
        share_of(total, concurrency) * concurrency >= total,
        (share_of(total, concurrency) - 1) * concurrency < total,
{
    let c = concurrency as int;
    let t = total as int;
    let s = (t + c - 1) / c;
    assert(s * c <= t + c - 1 < (s + 1) * c && 0 <= s) by (nonlinear_arith)
        requires
            s == (t + c - 1) / c,
            c >= 1,
            t >= 0,
    ;
    assert((s - 1) * c == s * c - c && (s + 1) * c == s * c + c) by (nonlinear_arith);
    assert(s <= t) by (nonlinear_arith)
        requires
            s * c <= t + c - 1,
            c >= 1,
            s >= 0,
            t >= 0,
    ;
}

/// A worker's share of the total, if there is a total.
pub fn worker_total(total: Option<u64>, concurrency: usize) -> (share: Option<u64>)
    requires
        concurrency >= 1,
    ensures
        total.is_none() ==> share.is_none(),
        total matches Some(t) ==> share == Some(share_of(t, concurrency) as u64) && share_of(
            t,
            concurrency,
        ) <= t,
{
    match total {
        Some(total) => {
            proof {
                lemma_share_is_ceiling(total, concurrency);
            }
            let raised: u128 = (total as u128 + concurrency as u128 - 1) / (concurrency as u128);
            Some(raised as u64)
        },
        None => None,
    }
}

/// Whether a worker that has made `count` requests may make another.
pub fn total_check(total: Option<u64>, count: u64) -> (go_on: bool)
    ensures
        go_on == within_total(total, count),
{
    match total {
        Some(share) => count < share,
        None => true,
    }
}

/// Whether a worker that has run for `elapsed_time` nanoseconds may go on.
pub fn duration_check(duration: Option<u64>, elapsed_time: u64) -> (go_on: bool)
    ensures
        go_on == within_duration(duration, elapsed_time),
{
    match duration {
        Some(seconds) => {
            assert(NANOS_PER_SECOND == 1_000_000_000);
            (elapsed_time as u128) < (seconds as u128) * 1_000_000_000
        },
        None => true,
    }
}

/// The nanoseconds to wait after a request that took `elapsed_time`, or
/// `None` where the next request follows at once.
pub fn rate_delay(rate: Option<u64>, concurrency: usize, elapsed_time: u64) -> (delay: Option<u128>)
    requires
        rate != Some(0u64),
    ensures
        delay.is_some() == delay_of(rate, concurrency, elapsed_time).is_some(),
        delay matches Some(nanos) ==> nanos == delay_of(rate, concurrency, elapsed_time).unwrap()
            && nanos > 0,
{
    match rate {
        Some(rate) => {
            assert(NANOS_PER_SECOND == 1_000_000_000);
            let period: u128 = ((concurrency as u128) * 1_000_000_000) / (rate as u128);
            if (elapsed_time as u128) < period {
                Some(period - elapsed_time as u128)
            } else {
                None
            }
        },
        None => None,
    }
}

/// The numbers of the workers of a run: one to `concurrency`.
pub fn worker_ids(concurrency: usize) -> (ids: Vec<usize>)
    ensures
        ids@.len() == concurrency,
        forall|i: int| 0 <= i < ids@.len() ==> ids@[i] == i + 1,
{
    let mut ids: Vec<usize> = Vec::new();
    let mut id: usize = 0;
    while id < concurrency
        invariant
            id <= concurrency,
            ids@.len() == id,
            forall|i: int| 0 <= i < ids@.len() ==> ids@[i] == i + 1,
        decreases concurrency - id,
    {
        id += 1;
        ids.push(id);
    }
    ids
}

/// What a worker does after it has handed a message over.
#[derive(Debug, Copy, Clone, PartialEq, Eq, Structural)]
pub enum WorkerStep {
    /// The worker ends.
    Exit,
    /// The worker looks at the command again at once.
    Proceed,
    /// The worker waits this many nanoseconds, then looks at the command again.
    Pause(u128),
}

/// One worker: its number, the requests it has made, when it started, and
/// its share of the run's limits.
#[derive(Debug)]
pub struct Worker {
    pub id: usize,
    pub count: u64,
    pub start_time: u64,
    pub total: Option<u64>,
    pub duration: Option<u64>,
    pub rate: Option<u64>,
    pub concurrency: usize,
}

impl Worker {
    /// Worker `id` of a run with `settings`, started at `start_time`.
    pub fn new(settings: &Settings, id: usize, start_time: u64) -> (worker: Worker)
        requires
            settings.well_formed(),
        ensures
            worker.id == id,
            worker.count == 0,
            worker.start_time == start_time,
            settings.total.is_none() ==> worker.total.is_none(),
            settings.total matches Some(t) ==> worker.total == Some(
                share_of(t, settings.concurrency) as u64,
            ),
            worker.duration == settings.duration,
            worker.rate == settings.rate,
            worker.concurrency == settings.concurrency,
            worker.rate != Some(0u64),
    {
        Worker {
            id,
            count: 0,
            start_time,
            total: worker_total(settings.total, settings.concurrency),
            duration: settings.duration,
            rate: settings.rate,
            concurrency: settings.concurrency,
        }
    }

    /// Whether the worker makes another request: it does unless it is told
    /// to stop.
    pub fn may_request(&self, command: WorkerCommand) -> (go_on: bool)
        ensures
            go_on == (command == WorkerCommand::Run),
    {
        match command {
            WorkerCommand::Run => true,
            WorkerCommand::Stop => false,
        }
    }

    /// Counts the request that `metric` is of and makes the message about
    /// it. The message is the worker's last exactly where the worker has
    /// used up its share of the total or its duration.
    pub fn report(&mut self, metric: RequestMetric, current_time: u64) -> (message: WorkerMessage)
        requires
            old(self).count < u64::MAX,
            old(self).start_time <= current_time,
        ensures
            final(self).count == old(self).count + 1,
            final(self).id == old(self).id,
            final(self).start_time == old(self).start_time,
            final(self).total == old(self).total,
            final(self).duration == old(self).duration,
            final(self).rate == old(self).rate,
            final(self).concurrency == old(self).concurrency,
            message.id == old(self).id,
            message.start_time == old(self).start_time,
            message.current_time == current_time,
            message.well_timed(),
            message.metric == metric,
            message.finished == (!within_total(old(self).total, (old(self).count + 1) as u64)
                || !within_duration(old(self).duration, message.elapsed_time)),
            old(self).total.is_none() && old(self).duration.is_none() ==> !message.finished,
    {
        self.count = self.count + 1;
        let elapsed_time: u64 = current_time - self.start_time;
        let finished = !total_check(self.total, self.count) || !duration_check(
            self.duration,
            elapsed_time,
        );
        WorkerMessage {
            id: self.id,
            finished,
            start_time: self.start_time,
            current_time,
            elapsed_time,
            metric,
        }
    }

    /// What the worker does once a message is handed over: it ends where
    /// the message could not be delivered or was its last; else it goes on,
    /// after the wait that the rate asks for.
    pub fn after_send(&self, finished: bool, delivered: bool, metric_elapsed_time: u64) -> (step:
        WorkerStep)
        requires
            self.rate != Some(0u64),
        ensures
            !delivered || finished ==> step == WorkerStep::Exit,
            delivered && !finished ==> step == match delay_of(
                self.rate,
                self.concurrency,
                metric_elapsed_time,
            ) {
                Some(nanos) => WorkerStep::Pause(nanos as u128),
                None => WorkerStep::Proceed,
            },
    {
        if !delivered || finished {
            WorkerStep::Exit
        } else {
            match rate_delay(self.rate, self.concurrency, metric_elapsed_time) {
                Some(nanos) => WorkerStep::Pause(nanos),
                None => WorkerStep::Proceed,
            }
        }
    }
}

} // verus!
