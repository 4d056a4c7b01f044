//! Descriptive statistics of a sequence of samples, in exact integer arithmetic.

use crate::wide::{lemma_half_product, lemma_value_bound, pow128, pow64, Wide};
use vstd::prelude::*;

verus! {

/// The sum of the samples.
pub open spec fn total(s: Seq<u64>) -> int
    decreases s.len(),
{
    if s.len() == 0 {
        0
    } else {
        total(s.drop_last()) + s.last() as int
    }
}

/// The sum of the squares of the samples.
pub open spec fn total_squares(s: Seq<u64>) -> int
    decreases s.len(),
{
    if s.len() == 0 {
        0
    } else {
        total_squares(s.drop_last()) + s.last() as int * s.last() as int
    }
}

/// `m` is the least of the samples.
pub open spec fn is_minimum(s: Seq<u64>, m: u64) -> bool {
    &&& s.contains(m)
    &&& forall|i: int| 0 <= i < s.len() ==> m <= #[trigger] s[i]
}

/// `m` is the greatest of the samples.
pub open spec fn is_maximum(s: Seq<u64>, m: u64) -> bool {
    &&& s.contains(m)
    &&& forall|i: int| 0 <= i < s.len() ==> #[trigger] s[i] <= m
}

/// The arithmetic mean, rounded down; zero where there is no sample.
pub open spec fn mean(s: Seq<u64>) -> int {
    if s.len() == 0 {
        0
    } else {
        total(s) / (s.len() as int)
    }
}

/// The population variance times the square of the number of samples:
/// `n * sum(x^2) - sum(x)^2`.
pub open spec fn scaled_variance(s: Seq<u64>) -> int {
    s.len() * total_squares(s) - total(s) * total(s)
}

/// `r` is the population standard deviation rounded down: the one natural
/// number whose square is at most the population variance while the square of
/// the next is above it. Zero where there is no sample.
pub open spec fn is_stddev(s: Seq<u64>, r: int) -> bool {
    if s.len() == 0 {
        r == 0
    } else {
        &&& 0 <= r
        &&& r * r * (s.len() * s.len()) <= scaled_variance(s)
        &&& scaled_variance(s) < (r + 1) * (r + 1) * (s.len() * s.len())
    }
}

/// The sums never exceed what samples of 64 bits allow.
pub proof fn lemma_total_bounds(s: Seq<u64>)
    ensures
        0 <= total(s) <= s.len() * (pow64() - 1),
        0 <= total_squares(s) <= s.len() * ((pow64() - 1) * (pow64() - 1)),
    decreases s.len(),
{
    if s.len() > 0 {
        lemma_total_bounds(s.drop_last());
        let x = s.last() as int;
        let n = s.drop_last().len() as int;
        let m = pow64() - 1;
        assert(0 <= x * x <= m * m) by (nonlinear_arith)
            requires
                0 <= x <= m,
        ;
        assert((n + 1) * m == n * m + m) by (nonlinear_arith);
        assert((n + 1) * (m * m) == n * (m * m) + m * m) by (nonlinear_arith);
    }
}

/// For every `x`, `sum((s[i] - x)^2) >= 0`, written out.
proof fn lemma_squared_distance(s: Seq<u64>, x: int)
    ensures
        total_squares(s) - 2 * x * total(s) + s.len() * (x * x) >= 0,
    decreases s.len(),
{
    if s.len() > 0 {
        let t = s.drop_last();
        lemma_squared_distance(t, x);
        let y = s.last() as int;
        let n = t.len() as int;
        let q = total_squares(t);
        let u = total(t);
        assert((q + y * y) - 2 * x * (u + y) + (n + 1) * (x * x) == (q - 2 * x * u + n * (x * x))
            + (y - x) * (y - x)) by (nonlinear_arith);
        assert((y - x) * (y - x) >= 0) by (nonlinear_arith);
    }
}

/// The variance is never negative: `n * sum(x^2) >= sum(x)^2`.
pub proof fn lemma_variance_nonnegative(s: Seq<u64>)
    ensures
        scaled_variance(s) >= 0,
    decreases s.len(),
{
    if s.len() > 0 {
        let t = s.drop_last();
        lemma_variance_nonnegative(t);
        lemma_squared_distance(t, s.last() as int);
        let y = s.last() as int;
        let n = t.len() as int;
        let q = total_squares(t);
        let u = total(t);
        assert((n + 1) * (q + y * y) - (u + y) * (u + y) == (n * q - u * u) + (q - 2 * y * u + n
            * (y * y))) by (nonlinear_arith);
    }
}

/// At most one number is the standard deviation of given samples.
pub proof fn lemma_stddev_unique(s: Seq<u64>, a: int, b: int)
    requires
        is_stddev(s, a),
        is_stddev(s, b),
    ensures
        a == b,
{
    if s.len() > 0 {
        let n = s.len() as int;
        let nn = n * n;
        assert(nn > 0) by (nonlinear_arith)
            requires
                n > 0,
                nn == n * n,
        ;
        if a < b {
            assert((a + 1) * (a + 1) * nn <= b * b * nn) by (nonlinear_arith)
                requires
                    0 <= a,
                    a + 1 <= b,
                    nn > 0,
            ;
        }
        if b < a {
            assert((b + 1) * (b + 1) * nn <= a * a * nn) by (nonlinear_arith)
                requires
                    0 <= b,
                    b + 1 <= a,
                    nn > 0,
            ;
        }
    }
}

/// Running minimum, maximum, sum and sum of squares of a sequence of samples.
pub struct Estimator {
    count: u64,
    minimum: u64,
    maximum: u64,
    sum: u128,
    squares: Wide,
    samples: Ghost<Seq<u64>>,
}

impl View for Estimator {
    type V = Seq<u64>;

    /// The samples that were fed in, in order.
    closed spec fn view(&self) -> Seq<u64> {
        self.samples@
    }
}

impl Estimator {
    #[verifier::type_invariant]
    spec fn inv(self) -> bool {
        &&& self.count == self.samples@.len()
        &&& self.sum == total(self.samples@)
        &&& self.squares.value() == total_squares(self.samples@)
        &&& self.samples@.len() > 0 ==> is_minimum(self.samples@, self.minimum) && is_maximum(
            self.samples@,
            self.maximum,
        )
        &&& self.samples@.len() == 0 ==> self.minimum == 0 && self.maximum == 0
    }

    /// An estimator that has seen no sample.
    pub fn new() -> (e: Estimator)
        ensures
            e@ == Seq::<u64>::empty(),
    {
        Estimator {
            count: 0,
            minimum: 0,
            maximum: 0,
            sum: 0,
            squares: Wide::zero(),
            samples: Ghost(Seq::empty()),
        }
    }

    /// Feeds one more sample in.
    pub fn add(&mut self, x: u64)
        requires
            old(self)@.len() < u64::MAX,
        ensures
            final(self)@ == old(self)@.push(x),
    {
        proof {
            use_type_invariant(&*self);
        }
        let ghost before = self.samples@;
        let ghost after = before.push(x);
        proof {
            assert(after.drop_last() == before);
            lemma_total_bounds(after);
            lemma_power_limits(after.len() as int);
            lemma_half_product(x as int, x as int);
        }
        let square = Wide { hi: 0, lo: (x as u128) * (x as u128) };
        let squares = match self.squares.checked_add(&square) {
            Some(sum) => sum,
            None => {
                proof {
                    assert(false);
                }
                self.squares
            },
        };
        let first = self.count == 0;
        let minimum = if first || x < self.minimum {
            x
        } else {
            self.minimum
        };
        let maximum = if first || x > self.maximum {
            x
        } else {
            self.maximum
        };
        proof {
            assert(after[after.len() - 1] == x);
            if !first {
                let i = choose|i: int| 0 <= i < before.len() && before[i] == self.minimum;
                assert(after[i] == self.minimum);
                let j = choose|j: int| 0 <= j < before.len() && before[j] == self.maximum;
                assert(after[j] == self.maximum);
                assert forall|k: int| 0 <= k < after.len() implies minimum <= #[trigger] after[k]
                    && after[k] <= maximum by {
                    if k < before.len() {
                        assert(after[k] == before[k]);
                    }
                }
            }
        }
        *self = Estimator {
            count: self.count + 1,
            minimum,
            maximum,
            sum: self.sum + x as u128,
            squares,
            samples: Ghost(after),
        };
    }

    /// The least sample, or zero where there is none.
    pub fn minimum(&self) -> (m: u64)
        ensures
            self@.len() > 0 ==> is_minimum(self@, m),
            self@.len() == 0 ==> m == 0,
    {
        proof {
            use_type_invariant(self);
        }
        self.minimum
    }

    /// The greatest sample, or zero where there is none.
    pub fn maximum(&self) -> (m: u64)
        ensures
            self@.len() > 0 ==> is_maximum(self@, m),
            self@.len() == 0 ==> m == 0,
    {
        proof {
            use_type_invariant(self);
        }
        self.maximum
    }

    /// The arithmetic mean of the samples, rounded down.
    pub fn mean(&self) -> (m: u64)
        ensures
            m == mean(self@),
    {
        proof {
            use_type_invariant(self);
            lemma_total_bounds(self@);
        }
        if self.count == 0 {
            0
        } else {
            let n = self.count as u128;
            let m: u128 = self.sum / n;
            assert(m <= pow64() - 1) by (nonlinear_arith)
                requires
                    m == self.sum as int / n as int,
                    0 <= self.sum as int <= n as int * (pow64() - 1),
                    n > 0,
            ;
            m as u64
        }
    }

    /// Whether `r` squared is at most the population variance, given the
    /// square of the sum and the sum of squares times the count.
    fn within(r: u128, n: u64, sum_squared: &Wide, scaled_squares: &Wide) -> (b: bool)
        requires
            r < pow64(),
        ensures
            b == (r * r * (n * n) + sum_squared.value() <= scaled_squares.value()),
    {
        let ghost ri = r as int;
        let ghost ni = n as int;
        proof {
            lemma_half_product(ri, ni);
            lemma_value_bound(*scaled_squares);
            assert((ri * ni) * (ri * ni) == ri * ri * (ni * ni)) by (nonlinear_arith);
        }
        let rn: u128 = r * (n as u128);
        let square = Wide::product(rn, rn);
        match square.checked_add(sum_squared) {
            Some(left) => left.le(scaled_squares),
            None => false,
        }
    }

    /// The population standard deviation of the samples, rounded down.
    pub fn stddev(&self) -> (r: u64)
        ensures
            is_stddev(self@, r as int),
    {
        proof {
            use_type_invariant(self);
        }
        if self.count == 0 {
            return 0;
        }
        let ghost s = self@;
        let ghost n = s.len() as int;
        let ghost k = pow64();
        proof {
            lemma_total_bounds(s);
            lemma_variance_nonnegative(s);
            lemma_power_limits(n);
            let q = total_squares(s);
            assert(q * n <= (k - 1) * (k - 1) * (n * n)) by (nonlinear_arith)
                requires
                    0 <= q <= n * ((k - 1) * (k - 1)),
                    0 < n,
            ;
            assert((k - 1) * (k - 1) * (n * n) < k * k * (n * n)) by (nonlinear_arith)
                requires
                    0 < n,
                    k > 1,
            ;
            assert(k * k * (n * n) <= (k * k) * (k * k)) by (nonlinear_arith)
                requires
                    0 < n < k,
            ;
            assert(q * n == n * q) by (nonlinear_arith);
        }
        let scaled_squares = self.squares.scale(self.count);
        let sum_squared = Wide::product(self.sum, self.sum);
        let mut low: u128 = 0;
        let mut high: u128 = 0x1_0000_0000_0000_0000u128;
        while high - low > 1
            invariant
                0 <= low < high <= pow64(),
                n == s.len(),
                n > 0,
                scaled_squares.value() == n * total_squares(s),
                sum_squared.value() == total(s) * total(s),
                low * low * (n * n) <= scaled_variance(s),
                scaled_variance(s) < high * high * (n * n),
                n == self.count,
            decreases high - low,
        {
            let middle: u128 = low + (high - low) / 2;
            if Self::within(middle, self.count, &sum_squared, &scaled_squares) {
                low = middle;
            } else {
                high = middle;
            }
        }
        low as u64
    }

    /// The number of samples.
    pub fn count(&self) -> (n: u64)
        ensures
            n == self@.len(),
    {
        proof {
            use_type_invariant(self);
        }
        self.count
    }
}

/// What `n` samples of 64 bits can add up to stays inside 128 and 256 bits.
pub proof fn lemma_power_limits(n: int)
    requires
        0 <= n < pow64(),
    ensures
        n * (pow64() - 1) < pow128(),
        n * ((pow64() - 1) * (pow64() - 1)) < pow128() * pow64(),
        pow128() == pow64() * pow64(),
{
    let k = pow64();
    assert(n * (k - 1) < k * k) by (nonlinear_arith)
        requires
            0 <= n < k,
    ;
    assert(n * ((k - 1) * (k - 1)) < (k * k) * k) by (nonlinear_arith)
        requires
            0 <= n < k,
    ;
}

} // verus!
