//! A histogram of ten buckets of one width over the samples' range.

use vstd::prelude::*;

verus! {

/// The number of buckets.
pub const BUCKETS: usize = 10;

/// Ten times the width of one bucket: the range from one below the least
/// sample to one above the greatest.
pub open spec fn span(min: u64, max: u64) -> int {
    max - min + 2
}

/// The bucket that holds `x`: bucket `i` takes what lies from
/// `min - 1 + i * span / 10` up to, but not at, `min - 1 + (i + 1) * span / 10`.
pub open spec fn bucket_of(x: u64, min: u64, max: u64) -> int {
    ((x - min + 1) * 10) / span(min, max)
}

/// The lower edge of bucket `i`, rounded down.
pub open spec fn edge(i: int, min: u64, max: u64) -> int {
    (10 * (min - 1) + i * span(min, max)) / 10
}

/// `v`, or the nearest number that 64 bits without a sign can hold.
pub open spec fn clamp(v: int) -> u64 {
    if v < 0 {
        0
    } else if v > u64::MAX {
        u64::MAX
    } else {
        v as u64
    }
}

/// How many of the samples fall into bucket `i`.
pub open spec fn occupancy(s: Seq<u64>, min: u64, max: u64, i: int) -> nat
    decreases s.len(),
{
    if s.len() == 0 {
        0
    } else {
        occupancy(s.drop_last(), min, max, i) + if bucket_of(s.last(), min, max) == i {
            1nat
        } else {
            0nat
        }
    }
}

/// How many of the samples fall into the buckets below `k`.
pub open spec fn occupancy_below(s: Seq<u64>, min: u64, max: u64, k: int) -> nat
    decreases k,
{
    if k <= 0 {
        0
    } else {
        occupancy_below(s, min, max, k - 1) + occupancy(s, min, max, k - 1)
    }
}

/// Every sample lies between one below `min` and `max`.
pub open spec fn in_range(s: Seq<u64>, min: u64, max: u64) -> bool {
    forall|i: int| 0 <= i < s.len() ==> min - 1 <= #[trigger] s[i] <= max
}

/// `h` is the histogram of the samples `s` over the range that `min` and `max` give.
pub open spec fn is_histogram(h: Seq<((u64, u64), u64)>, s: Seq<u64>, min: u64, max: u64) -> bool {
    &&& h.len() == BUCKETS
    &&& forall|i: int|
        0 <= i < BUCKETS ==> (#[trigger] h[i]).0 == (
            clamp(edge(i, min, max)),
            clamp(edge(i + 1, min, max)),
        ) && h[i].1 == occupancy(s, min, max, i)
}

/// The sum of the counts of the first `k` buckets of `h`.
pub open spec fn counted(h: Seq<((u64, u64), u64)>, k: int) -> int
    decreases k,
{
    if k <= 0 {
        0
    } else {
        counted(h, k - 1) + h[k - 1].1
    }
}

/// A sample lies in bucket `i` exactly where it lies from the lower edge of
/// that bucket up to, but not at, its upper edge; the three are taken
/// tenfold, so that the edges are whole numbers.
pub proof fn lemma_bucket_interval(x: u64, min: u64, max: u64, i: int)
    requires
        min <= max,
    ensures
        (bucket_of(x, min, max) == i) <==> (10 * (min - 1) + i * span(min, max) <= 10 * x < 10 * (
        min - 1) + (i + 1) * span(min, max)),
{
    let w = span(min, max);
    let d = (x - min + 1) * 10;
    let q = d / w;
    assert(q * w <= d < (q + 1) * w) by (nonlinear_arith)
        requires
            q == d / w,
            w > 0,
    ;
    assert((i + 1) * w == i * w + w && (q + 1) * w == q * w + w) by (nonlinear_arith);
    if i < q {
        assert((i + 1) * w <= q * w) by (nonlinear_arith)
            requires
                i + 1 <= q,
                w > 0,
        ;
    }
    if q < i {
        assert((q + 1) * w <= i * w) by (nonlinear_arith)
            requires
                q + 1 <= i,
                w > 0,
        ;
    }
}

/// A sample within the range falls into one of the ten buckets.
pub proof fn lemma_bucket_range(x: u64, min: u64, max: u64)
    requires
        min - 1 <= x <= max,
    ensures
        0 <= bucket_of(x, min, max) < BUCKETS,
{
    let w = span(min, max);
    let d = (x - min + 1) * 10;
    assert(0 <= d / w < 10) by (nonlinear_arith)
        requires
            0 <= d < 10 * w,
            w > 0,
    ;
}

/// No bucket holds more samples than there are.
pub proof fn lemma_occupancy_bound(s: Seq<u64>, min: u64, max: u64, i: int)
    ensures
        occupancy(s, min, max, i) <= s.len(),
    decreases s.len(),
{
    if s.len() > 0 {
        lemma_occupancy_bound(s.drop_last(), min, max, i);
    }
}

/// One more sample adds one to the buckets below `k` exactly where its own
/// bucket is among them.
proof fn lemma_occupancy_below_push(s: Seq<u64>, min: u64, max: u64, k: int)
    requires
        s.len() > 0,
        0 <= k,
    ensures
        occupancy_below(s, min, max, k) == occupancy_below(s.drop_last(), min, max, k) + if 0
            <= bucket_of(s.last(), min, max) < k {
            1nat
        } else {
            0nat
        },
    decreases k,
{
    if k > 0 {
        lemma_occupancy_below_push(s, min, max, k - 1);
    }
}

/// Every sample within the range is counted in exactly one bucket.
pub proof fn lemma_occupancy_total(s: Seq<u64>, min: u64, max: u64)
    requires
        in_range(s, min, max),
    ensures
        occupancy_below(s, min, max, BUCKETS as int) == s.len(),
    decreases s.len(),
{
    if s.len() == 0 {
        lemma_occupancy_below_empty(s, min, max, BUCKETS as int);
    } else {
        let rest = s.drop_last();
        assert forall|i: int| 0 <= i < rest.len() implies min - 1 <= #[trigger] rest[i]
            <= max by {
            assert(rest[i] == s[i]);
        }
        lemma_occupancy_total(rest, min, max);
        lemma_occupancy_below_push(s, min, max, BUCKETS as int);
        assert(s.last() == s[s.len() - 1]);
        lemma_bucket_range(s.last(), min, max);
    }
}

/// Without samples every bucket is empty.
proof fn lemma_occupancy_below_empty(s: Seq<u64>, min: u64, max: u64, k: int)
    requires
        s.len() == 0,
    ensures
        occupancy_below(s, min, max, k) == 0,
    decreases k,
{
    if k > 0 {
        lemma_occupancy_below_empty(s, min, max, k - 1);
    }
}

/// The counts of a histogram add up to what its buckets hold.
proof fn lemma_counted(h: Seq<((u64, u64), u64)>, s: Seq<u64>, min: u64, max: u64, k: int)
    requires
        is_histogram(h, s, min, max),
        0 <= k <= BUCKETS,
    ensures
        counted(h, k) == occupancy_below(s, min, max, k),
    decreases k,
{
    if k > 0 {
        lemma_counted(h, s, min, max, k - 1);
        assert(h[k - 1].1 == occupancy(s, min, max, k - 1));
    }
}

/// The counts of a histogram add up to the number of samples.
pub proof fn lemma_histogram_total(h: Seq<((u64, u64), u64)>, s: Seq<u64>, min: u64, max: u64)
    requires
        is_histogram(h, s, min, max),
        in_range(s, min, max),
    ensures
        counted(h, BUCKETS as int) == s.len(),
{
    lemma_counted(h, s, min, max, BUCKETS as int);
    lemma_occupancy_total(s, min, max);
}

/// The number of the bucket that holds `x`.
pub fn bucket_index(x: u64, min: u64, max: u64) -> (i: usize)
    requires
        min <= max,
        min - 1 <= x <= max,
    ensures
        i == bucket_of(x, min, max),
        i < BUCKETS,
{
    proof {
        lemma_bucket_range(x, min, max);
    }
    let width: u128 = (max - min) as u128 + 2;
    let offset: u128 = (x as u128 + 1) - min as u128;
    let i: u128 = (offset * 10) / width;
    i as usize
}

/// The lower edge of bucket `i`, rounded down and kept within 64 bits.
pub fn bucket_edge(i: usize, min: u64, max: u64) -> (e: u64)
    requires
        i <= BUCKETS,
        min <= max,
    ensures
        e == clamp(edge(i as int, min, max)),
{
    let width: u128 = (max - min) as u128 + 2;
    assert(i as int * width as int <= 10 * width as int) by (nonlinear_arith)
        requires
            0 <= i as int <= 10,
            0 <= width as int,
    ;
    assert(0 <= i as int * width as int) by (nonlinear_arith)
        requires
            0 <= i as int,
            0 <= width as int,
    ;
    let tenfold: u128 = 10 * (min as u128) + (i as u128) * width;
    if tenfold < 10 {
        0
    } else {
        let value: u128 = (tenfold - 10) / 10;
        if value > u64::MAX as u128 {
            u64::MAX
        } else {
            value as u64
        }
    }
}

} // verus!
