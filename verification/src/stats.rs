//! Statistics over a window of worker messages.

use crate::estimate::{is_maximum, is_minimum, is_stddev, lemma_stddev_unique, mean, Estimator};
use crate::histogram::{
    bucket_edge, bucket_index, clamp, counted, edge, in_range, is_histogram,
    lemma_histogram_total, lemma_occupancy_bound, occupancy, BUCKETS,
};
use crate::tally::{count_label, first_occurrences, is_tally, lemma_tally_total, tally_total};
use crate::worker::WorkerMessage;
use vstd::prelude::*;

verus! {

/// The statistics of a window of messages. Times are in milliseconds.
#[derive(Debug)]
pub struct Stats {
    pub count: u64,
    pub status: Vec<(String, u64)>,
    pub time_values: Vec<u64>,
    pub time_minimum: u64,
    pub time_mean: u64,
    pub time_maximum: u64,
    pub time_stddev: u64,
    pub time_histogram: Vec<((u64, u64), u64)>,
}

/// The elapsed milliseconds of each message, in order.
pub open spec fn millis_of(messages: Seq<WorkerMessage>) -> Seq<u64> {
    Seq::new(messages.len(), |i: int| messages[i].metric.millis())
}

/// The status label of each message, in order.
pub open spec fn labels_of(messages: Seq<WorkerMessage>) -> Seq<Seq<char>> {
    Seq::new(messages.len(), |i: int| messages[i].metric.label())
}

impl Stats {
    /// `self` is the statistics of `messages`: the number of messages; each
    /// status label with the number of its messages, in order of first
    /// occurrence; the elapsed milliseconds in order; their least, mean,
    /// greatest and standard deviation; and their histogram. Of no message
    /// at all, every number is zero and the histogram is empty.
    pub open spec fn describes(&self, messages: Seq<WorkerMessage>) -> bool {
        let values = millis_of(messages);
        &&& self.count == messages.len()
        &&& is_tally(self.status@, labels_of(messages))
        &&& self.time_values@ == values
        &&& if messages.len() == 0 {
            &&& self.time_minimum == 0
            &&& self.time_mean == 0
            &&& self.time_maximum == 0
            &&& self.time_stddev == 0
            &&& self.time_histogram@.len() == 0
        } else {
            &&& is_minimum(values, self.time_minimum)
            &&& is_maximum(values, self.time_maximum)
            &&& self.time_mean == mean(values)
            &&& is_stddev(values, self.time_stddev as int)
            &&& is_histogram(self.time_histogram@, values, self.time_minimum, self.time_maximum)
        }
    }

    /// `self` and `other` hold the same numbers and the same labels.
    pub open spec fn agrees_with(&self, other: &Stats) -> bool {
        &&& self.count == other.count
        &&& self.status@.len() == other.status@.len()
        &&& forall|i: int|
            0 <= i < self.status@.len() ==> (#[trigger] self.status@[i]).0@ == other.status@[i].0@
                && self.status@[i].1 == other.status@[i].1
        &&& self.time_values@ == other.time_values@
        &&& self.time_minimum == other.time_minimum
        &&& self.time_mean == other.time_mean
        &&& self.time_maximum == other.time_maximum
        &&& self.time_stddev == other.time_stddev
        &&& self.time_histogram@ == other.time_histogram@
    }
}

/// The statistics of given messages are determined by the messages: any two
/// that describe the same messages agree in every field.
pub proof fn lemma_stats_determined(a: &Stats, b: &Stats, messages: Seq<WorkerMessage>)
    requires
        a.describes(messages),
        b.describes(messages),
    ensures
        a.agrees_with(b),
{
    let values = millis_of(messages);
    assert forall|i: int| 0 <= i < a.status@.len() implies (#[trigger] a.status@[i]).0@
        == b.status@[i].0@ && a.status@[i].1 == b.status@[i].1 by {
        assert(b.status@[i].0@ == first_occurrences(labels_of(messages))[i]);
    }
    if messages.len() == 0 {
        assert(a.time_histogram@ =~= b.time_histogram@);
    } else {
        lemma_extreme_unique(values, a.time_minimum, b.time_minimum, a.time_maximum, b.time_maximum);
        lemma_stddev_unique(values, a.time_stddev as int, b.time_stddev as int);
        assert forall|i: int| 0 <= i < BUCKETS implies a.time_histogram@[i]
            == b.time_histogram@[i] by {
            assert(a.time_histogram@[i].0 == b.time_histogram@[i].0);
            assert(a.time_histogram@[i].1 == occupancy(values, a.time_minimum, a.time_maximum, i));
            assert(b.time_histogram@[i].1 == occupancy(values, a.time_minimum, a.time_maximum, i));
        }
        assert(a.time_histogram@ =~= b.time_histogram@);
    }
}

/// A sequence has one least and one greatest element.
pub proof fn lemma_extreme_unique(s: Seq<u64>, min_a: u64, min_b: u64, max_a: u64, max_b: u64)
    requires
        is_minimum(s, min_a),
        is_minimum(s, min_b),
        is_maximum(s, max_a),
        is_maximum(s, max_b),
    ensures
        min_a == min_b,
        max_a == max_b,
{
    let i = choose|i: int| 0 <= i < s.len() && s[i] == min_a;
    let j = choose|j: int| 0 <= j < s.len() && s[j] == min_b;
    assert(min_b <= s[i] && min_a <= s[j]);
    let k = choose|k: int| 0 <= k < s.len() && s[k] == max_a;
    let l = choose|l: int| 0 <= l < s.len() && s[l] == max_b;
    assert(s[k] <= max_b && s[l] <= max_a);
}

/// The statistics of `messages`.
pub fn compute(messages: &[WorkerMessage]) -> (stats: Stats)
    ensures
        stats.describes(messages@),
        tally_total(stats.status@) == messages@.len(),
        messages@.len() > 0 ==> counted(stats.time_histogram@, BUCKETS as int)
            == stats.time_values@.len(),
{
    let count = count(messages);
    let status = status(messages);
    let time_values = time_values(messages);
    if messages.len() == 0 {
        return Stats {
            count,
            status,
            time_values,
            time_minimum: 0,
            time_mean: 0,
            time_maximum: 0,
            time_stddev: 0,
            time_histogram: Vec::new(),
        };
    }
    let estimator = estimator(time_values.as_slice());
    let time_minimum = time_minimum(&estimator);
    let time_mean = time_mean(&estimator);
    let time_maximum = time_maximum(&estimator);
    let time_stddev = time_stddev(&estimator);
    proof {
        let values = time_values@;
        let at = choose|i: int| 0 <= i < values.len() && values[i] == time_minimum;
        assert(values[at] <= time_maximum);
    }
    let time_histogram = time_histogram(time_values.as_slice(), time_minimum, time_maximum);
    Stats {
        count,
        status,
        time_values,
        time_minimum,
        time_mean,
        time_maximum,
        time_stddev,
        time_histogram,
    }
}

/// The number of messages.
pub fn count(messages: &[WorkerMessage]) -> (n: u64)
    ensures
        n == messages@.len(),
{
    messages.len() as u64
}

/// Each status label with the number of its messages, in order of first
/// occurrence. A message without a status counts under the failure label.
pub fn status(messages: &[WorkerMessage]) -> (tally: Vec<(String, u64)>)
    ensures
        is_tally(tally@, labels_of(messages@)),
        tally_total(tally@) == messages@.len(),
{
    let ghost labels = labels_of(messages@);
    let mut tally: Vec<(String, u64)> = Vec::new();
    let mut k: usize = 0;
    while k < messages.len()
        invariant
            k <= messages@.len(),
            labels == labels_of(messages@),
            is_tally(tally@, labels.take(k as int)),
        decreases messages.len() - k,
    {
        let label = messages[k].metric.status_label();
        proof {
            assert(labels.take(k as int).push(label@) == labels.take(k + 1));
        }
        count_label(&mut tally, label, Ghost(labels.take(k as int)));
        k += 1;
    }
    proof {
        assert(labels.take(k as int) == labels);
        lemma_tally_total(tally@, labels);
    }
    tally
}

/// The elapsed milliseconds of each message, in order.
pub fn time_values(messages: &[WorkerMessage]) -> (values: Vec<u64>)
    ensures
        values@ == millis_of(messages@),
{
    let mut values: Vec<u64> = Vec::new();
    let mut k: usize = 0;
    while k < messages.len()
        invariant
            k <= messages@.len(),
            values@ == millis_of(messages@).take(k as int),
        decreases messages.len() - k,
    {
        let millis = messages[k].metric.elapsed_millis();
        proof {
            assert(millis_of(messages@).take(k as int).push(millis) == millis_of(messages@).take(
                k + 1,
            ));
        }
        values.push(millis);
        k += 1;
    }
    proof {
        assert(millis_of(messages@).take(k as int) == millis_of(messages@));
    }
    values
}

/// An estimator that has seen `values`, in order.
pub fn estimator(values: &[u64]) -> (estimator: Estimator)
    ensures
        estimator@ == values@,
{
    let mut estimator = Estimator::new();
    let mut k: usize = 0;
    while k < values.len()
        invariant
            k <= values@.len(),
            estimator@ == values@.take(k as int),
        decreases values.len() - k,
    {
        proof {
            assert(values@.take(k as int).push(values@[k as int]) == values@.take(k + 1));
        }
        estimator.add(values[k]);
        k += 1;
    }
    proof {
        assert(values@.take(k as int) == values@);
    }
    estimator
}

/// The histogram of `values` in ten buckets of one width, from one below
/// `min` to one above `max`: each bucket with its two edges, rounded down,
/// and the number of values in it.
pub fn time_histogram(values: &[u64], min: u64, max: u64) -> (histogram: Vec<((u64, u64), u64)>)
    requires
        min <= max,
        in_range(values@, min, max),
    ensures
        is_histogram(histogram@, values@, min, max),
        counted(histogram@, BUCKETS as int) == values@.len(),
{
    let mut counts: Vec<u64> = Vec::new();
    while counts.len() < BUCKETS
        invariant
            counts@.len() <= BUCKETS,
            forall|j: int| 0 <= j < counts@.len() ==> counts@[j] == 0,
        decreases BUCKETS - counts.len(),
    {
        counts.push(0);
    }
    let mut k: usize = 0;
    while k < values.len()
        invariant
            k <= values@.len(),
            min <= max,
            in_range(values@, min, max),
            counts@.len() == BUCKETS,
            forall|j: int|
                0 <= j < BUCKETS ==> #[trigger] counts@[j] == occupancy(
                    values@.take(k as int),
                    min,
                    max,
                    j,
                ),
        decreases values.len() - k,
    {
        let x = values[k];
        let at = bucket_index(x, min, max);
        let ghost seen = values@.take(k as int);
        let ghost next = values@.take(k + 1);
        proof {
            assert(next.drop_last() == seen);
            assert(next.last() == x);
            lemma_occupancy_bound(seen, min, max, at as int);
        }
        let ghost before = counts@;
        let bumped: u64 = counts[at] + 1;
        counts.set(at, bumped);
        proof {
            assert forall|j: int| 0 <= j < BUCKETS implies #[trigger] counts@[j] == occupancy(
                next,
                min,
                max,
                j,
            ) by {
                assert(before[j] == occupancy(seen, min, max, j));
            }
        }
        k += 1;
    }
    proof {
        assert(values@.take(k as int) == values@);
    }
    let mut histogram: Vec<((u64, u64), u64)> = Vec::new();
    let mut i: usize = 0;
    while i < BUCKETS
        invariant
            i <= BUCKETS,
            min <= max,
            histogram@.len() == i,
            counts@.len() == BUCKETS,
            forall|j: int|
                0 <= j < BUCKETS ==> #[trigger] counts@[j] == occupancy(values@, min, max, j),
            forall|j: int|
                0 <= j < i ==> (#[trigger] histogram@[j]).0 == (
                    clamp(edge(j, min, max)),
                    clamp(edge(j + 1, min, max)),
                ) && histogram@[j].1 == occupancy(values@, min, max, j),
        decreases BUCKETS - i,
    {
        let lower = bucket_edge(i, min, max);
        let upper = bucket_edge(i + 1, min, max);
        histogram.push(((lower, upper), counts[i]));
        i += 1;
    }
    proof {
        lemma_histogram_total(histogram@, values@, min, max);
    }
    histogram
}

/// The least sample, or zero where there is none.
pub fn time_minimum(estimator: &Estimator) -> (m: u64)
    ensures
        estimator@.len() > 0 ==> is_minimum(estimator@, m),
        estimator@.len() == 0 ==> m == 0,
{
    estimator.minimum()
}

/// The arithmetic mean of the samples, rounded down; zero where there is none.
pub fn time_mean(estimator: &Estimator) -> (m: u64)
    ensures
        m == mean(estimator@),
{
    estimator.mean()
}

/// The greatest sample, or zero where there is none.
pub fn time_maximum(estimator: &Estimator) -> (m: u64)
    ensures
        estimator@.len() > 0 ==> is_maximum(estimator@, m),
        estimator@.len() == 0 ==> m == 0,
{
    estimator.maximum()
}

/// The population standard deviation of the samples, rounded down; zero
/// where there is none.
pub fn time_stddev(estimator: &Estimator) -> (r: u64)
    ensures
        is_stddev(estimator@, r as int),
{
    estimator.stddev()
}

} // verus!
