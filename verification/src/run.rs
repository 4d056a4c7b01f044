//! What holds of the messages that workers send over a whole run.

use crate::metric::NANOS_PER_SECOND;
use crate::worker::{
    lemma_share_is_ceiling, share_of, within_duration, within_total, WorkerMessage,
};
use vstd::prelude::*;

verus! {

/// The number of the request with which a worker that only a share of the
/// total bounds sends its last message.
pub open spec fn last_count(share: u64) -> int {
    if share == 0 {
        1
    } else {
        share as int
    }
}

/// `messages` is what one worker sends, in order, where every message is
/// delivered: the message about request `i + 1` is marked as the last
/// exactly where the worker has by then used up its share `total` or its
/// `duration`, and nothing follows a message so marked.
pub open spec fn is_run(total: Option<u64>, duration: Option<u64>, messages: Seq<WorkerMessage>) -> bool {
    &&& messages.len() <= u64::MAX
    &&& forall|i: int|
        0 <= i < messages.len() ==> (#[trigger] messages[i]).finished == (!within_total(
            total,
            (i + 1) as u64,
        ) || !within_duration(duration, messages[i].elapsed_time))
    &&& forall|i: int| 0 <= i < messages.len() - 1 ==> !(#[trigger] messages[i]).finished
}

/// The worker has sent its last message.
pub open spec fn is_complete(messages: Seq<WorkerMessage>) -> bool {
    messages.len() > 0 && messages.last().finished
}

/// The messages of one worker were sent at or after its start, one not
/// before the other, and each gives the time since the start as elapsed.
pub open spec fn is_timed(messages: Seq<WorkerMessage>) -> bool {
    &&& forall|i: int| 0 <= i < messages.len() ==> (#[trigger] messages[i]).well_timed()
    &&& forall|i: int, j: int|
        0 <= i <= j < messages.len() ==> (#[trigger] messages[i]).start_time
            == (#[trigger] messages[j]).start_time && messages[i].current_time
            <= messages[j].current_time
}

/// The number of messages that the workers have sent together.
pub open spec fn messages_in(runs: Seq<Seq<WorkerMessage>>) -> int
    decreases runs.len(),
{
    if runs.len() == 0 {
        0
    } else {
        messages_in(runs.drop_last()) + runs.last().len()
    }
}

/// How many of the messages are marked as their worker's last.
pub open spec fn finished_in(messages: Seq<WorkerMessage>) -> nat
    decreases messages.len(),
{
    if messages.len() == 0 {
        0
    } else {
        finished_in(messages.drop_last()) + if messages.last().finished {
            1nat
        } else {
            0nat
        }
    }
}

/// Where no message is marked as the last, none is counted.
proof fn lemma_none_finished(messages: Seq<WorkerMessage>)
    requires
        forall|i: int| 0 <= i < messages.len() ==> !(#[trigger] messages[i]).finished,
    ensures
        finished_in(messages) == 0,
    decreases messages.len(),
{
    if messages.len() > 0 {
        let rest = messages.drop_last();
        assert forall|i: int| 0 <= i < rest.len() implies !(#[trigger] rest[i]).finished by {
            assert(rest[i] == messages[i]);
        }
        lemma_none_finished(rest);
        assert(messages.last() == messages[messages.len() - 1]);
    }
}

/// A worker marks one message as its last, the one it ends with, or none
/// while it has not ended.
pub proof fn lemma_one_last_message(
    total: Option<u64>,
    duration: Option<u64>,
    messages: Seq<WorkerMessage>,
)
    requires
        is_run(total, duration, messages),
    ensures
        finished_in(messages) == if is_complete(messages) {
            1nat
        } else {
            0nat
        },
{
    if messages.len() > 0 {
        let rest = messages.drop_last();
        assert forall|i: int| 0 <= i < rest.len() implies !(#[trigger] rest[i]).finished by {
            assert(rest[i] == messages[i]);
        }
        lemma_none_finished(rest);
    }
}

/// A run that is not complete stays a run when the message about the next
/// request is added, marked as `Worker::report` marks it.
pub proof fn lemma_run_extends(
    total: Option<u64>,
    duration: Option<u64>,
    messages: Seq<WorkerMessage>,
    message: WorkerMessage,
)
    requires
        is_run(total, duration, messages),
        !is_complete(messages),
        messages.len() < u64::MAX,
        message.finished == (!within_total(total, (messages.len() + 1) as u64) || !within_duration(
            duration,
            message.elapsed_time,
        )),
    ensures
        is_run(total, duration, messages.push(message)),
{
    let longer = messages.push(message);
    assert forall|i: int| 0 <= i < longer.len() implies (#[trigger] longer[i]).finished == (
    !within_total(total, (i + 1) as u64) || !within_duration(duration, longer[i].elapsed_time)) by {
        if i < messages.len() {
            assert(longer[i] == messages[i]);
        }
    }
    assert forall|i: int| 0 <= i < longer.len() - 1 implies !(#[trigger] longer[i]).finished by {
        assert(longer[i] == messages[i]);
        if i == messages.len() - 1 {
            assert(messages.last() == messages[i]);
        }
    }
}

/// A worker with a share of the total never sends more messages than its
/// share says, or than one where its share is zero, however it ends.
pub proof fn lemma_run_bound(share: u64, duration: Option<u64>, messages: Seq<WorkerMessage>)
    requires
        is_run(Some(share), duration, messages),
    ensures
        messages.len() <= last_count(share),
{
    if messages.len() > last_count(share) {
        let at = last_count(share) - 1;
        assert(!within_total(Some(share), (at + 1) as u64));
        assert(!messages[at].finished);
    }
}

/// A worker that only its share of the total bounds, and that runs until
/// its last message, sends as many messages as its share says, and one
/// where its share is zero.
pub proof fn lemma_run_length(share: u64, messages: Seq<WorkerMessage>)
    requires
        is_run(Some(share), None, messages),
        is_complete(messages),
    ensures
        messages.len() == last_count(share),
{
    lemma_run_bound(share, None, messages);
    let n = messages.len() as int;
    assert(messages[n - 1].finished);
}

/// A worker without a total and without a duration never marks a message
/// as its last.
pub proof fn lemma_run_without_limits(messages: Seq<WorkerMessage>)
    requires
        is_run(None, None, messages),
    ensures
        forall|i: int| 0 <= i < messages.len() ==> !(#[trigger] messages[i]).finished,
        !is_complete(messages),
{
    if messages.len() > 0 {
        assert(!messages[messages.len() - 1].finished);
    }
}

/// Workers that each send at most `n` messages send at most `n` times their
/// number together, and as many where each sends `n`.
proof fn lemma_runs_together(runs: Seq<Seq<WorkerMessage>>, n: int)
    requires
        forall|w: int| 0 <= w < runs.len() ==> (#[trigger] runs[w]).len() <= n,
    ensures
        messages_in(runs) <= runs.len() * n,
        (forall|w: int| 0 <= w < runs.len() ==> (#[trigger] runs[w]).len() == n) ==> messages_in(
            runs,
        ) == runs.len() * n,
    decreases runs.len(),
{
    if runs.len() > 0 {
        let rest = runs.drop_last();
        assert forall|w: int| 0 <= w < rest.len() implies (#[trigger] rest[w]).len() <= n by {
            assert(rest[w] == runs[w]);
        }
        lemma_runs_together(rest, n);
        assert(runs.last() == runs[runs.len() - 1]);
        assert((rest.len() + 1) * n == rest.len() * n + n) by (nonlinear_arith);
        if forall|w: int| 0 <= w < runs.len() ==> (#[trigger] runs[w]).len() == n {
            assert forall|w: int| 0 <= w < rest.len() implies (#[trigger] rest[w]).len() == n by {
                assert(rest[w] == runs[w]);
            }
        }
    }
}

/// However the workers of a run with a total of at least one end, they
/// never send more messages together than `concurrency` times
/// `total / concurrency`, rounded up, which is fewer than
/// `total + concurrency`.
pub proof fn lemma_total_bound(
    total: u64,
    concurrency: usize,
    duration: Option<u64>,
    runs: Seq<Seq<WorkerMessage>>,
)
    requires
        concurrency >= 1,
        total >= 1,
        runs.len() == concurrency,
        forall|w: int|
            0 <= w < runs.len() ==> is_run(
                Some(share_of(total, concurrency) as u64),
                duration,
                #[trigger] runs[w],
            ),
    ensures
        messages_in(runs) <= concurrency * share_of(total, concurrency) < total + concurrency,
{
    lemma_share_is_at_least_one(total, concurrency);
    let s = share_of(total, concurrency);
    assert forall|w: int| 0 <= w < runs.len() implies (#[trigger] runs[w]).len() <= s by {
        lemma_run_bound(s as u64, duration, runs[w]);
    }
    lemma_runs_together(runs, s);
}

/// Where each of `concurrency` workers runs until its share of a total of
/// at least one is used up, the workers together send at least `total`
/// messages: `concurrency` times `total / concurrency`, rounded up.
pub proof fn lemma_total_overshoot(total: u64, concurrency: usize, runs: Seq<Seq<WorkerMessage>>)
    requires
        concurrency >= 1,
        total >= 1,
        runs.len() == concurrency,
        forall|w: int|
            0 <= w < runs.len() ==> is_run(
                Some(share_of(total, concurrency) as u64),
                None,
                #[trigger] runs[w],
            ) && is_complete(runs[w]),
    ensures
        messages_in(runs) == concurrency * share_of(total, concurrency),
        total <= messages_in(runs) < total + concurrency,
{
    lemma_share_is_at_least_one(total, concurrency);
    let s = share_of(total, concurrency);
    assert forall|w: int| 0 <= w < runs.len() implies (#[trigger] runs[w]).len() == s by {
        lemma_run_length(s as u64, runs[w]);
    }
    lemma_runs_together(runs, s);
}

/// Of a total of at least one every worker has a share of at least one,
/// and the shares together are the total or more, by less than one each.
proof fn lemma_share_is_at_least_one(total: u64, concurrency: usize)
    requires
        concurrency >= 1,
        total >= 1,
    ensures
        1 <= share_of(total, concurrency) <= total,
        last_count(share_of(total, concurrency) as u64) == share_of(total, concurrency),
        total <= concurrency * share_of(total, concurrency) < total + concurrency,
{
    lemma_share_is_ceiling(total, concurrency);
    let c = concurrency as int;
    let s = share_of(total, concurrency);
    assert(s >= 1) by (nonlinear_arith)
        requires
            s * c >= total,
            total >= 1,
            c >= 1,
    ;
    assert(c * s == s * c && (s - 1) * c == s * c - c) by (nonlinear_arith);
}

/// No message of a worker bounded by `duration` seconds, but its first,
/// gives an elapsed time of the duration and the time since the message
/// before it, or more: the worker went on only while it was below the
/// duration.
pub proof fn lemma_overrun_bound(
    total: Option<u64>,
    duration: u64,
    messages: Seq<WorkerMessage>,
    i: int,
)
    requires
        is_run(total, Some(duration), messages),
        is_timed(messages),
        1 <= i < messages.len(),
    ensures
        messages[i - 1].elapsed_time < duration * NANOS_PER_SECOND,
        messages[i].elapsed_time < duration * NANOS_PER_SECOND + (messages[i].current_time
            - messages[i - 1].current_time),
{
    assert(!messages[i - 1].finished);
    assert(messages[i - 1].well_timed());
    assert(messages[i].well_timed());
    assert(messages[i - 1].start_time == messages[i].start_time && messages[i - 1].current_time
        <= messages[i].current_time);
}

} // verus!
