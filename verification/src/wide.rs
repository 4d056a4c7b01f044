//! Unsigned 256-bit quantities, held as two 128-bit halves.
//!
//! Sums of squares of 64-bit samples do not fit in 128 bits once there are
//! enough samples, so the statistics carry them in this wider form.

use vstd::prelude::*;

verus! {

/// Two to the power 64.
pub open spec fn pow64() -> int {
    0x1_0000_0000_0000_0000int
}

/// Two to the power 128.
pub open spec fn pow128() -> int {
    u128::MAX as int + 1
}

/// A 256-bit unsigned integer: `hi * 2^128 + lo`.
#[derive(Clone, Copy, Debug)]
pub struct Wide {
    pub hi: u128,
    pub lo: u128,
}

impl Wide {
    /// The number that the two halves stand for.
    pub open spec fn value(self) -> int {
        self.hi as int * pow128() + self.lo as int
    }

    /// Zero.
    pub fn zero() -> (r: Wide)
        ensures
            r.value() == 0,
    {
        Wide { hi: 0, lo: 0 }
    }

    /// Whether `self` is at most `other`, as numbers.
    pub fn le(&self, other: &Wide) -> (r: bool)
        ensures
            r == (self.value() <= other.value()),
    {
        proof {
            lemma_value_order(*self, *other);
        }
        self.hi < other.hi || (self.hi == other.hi && self.lo <= other.lo)
    }

    /// The sum of `self` and `other`, or `None` where it needs more than 256 bits.
    pub fn checked_add(&self, other: &Wide) -> (r: Option<Wide>)
        ensures
            r.is_some() == (self.value() + other.value() < pow128() * pow128()),
            r.is_some() ==> r.unwrap().value() == self.value() + other.value(),
    {
        let (lo, carry) = match self.lo.checked_add(other.lo) {
            Some(lo) => (lo, 0u128),
            None => (self.lo.wrapping_add(other.lo), 1u128),
        };
        assert(lo as int + carry as int * pow128() == self.lo as int + other.lo as int);
        assert(self.value() + other.value() == (self.hi as int + other.hi as int + carry as int)
            * pow128() + lo as int) by (nonlinear_arith)
            requires
                lo as int + carry as int * pow128() == self.lo as int + other.lo as int,
                self.value() == self.hi as int * pow128() + self.lo as int,
                other.value() == other.hi as int * pow128() + other.lo as int,
        ;
        let hi = match self.hi.checked_add(other.hi) {
            Some(h) => h.checked_add(carry),
            None => None,
        };
        match hi {
            Some(hi) => {
                let r = Wide { hi, lo };
                assert(r.value() < pow128() * pow128()) by (nonlinear_arith)
                    requires
                        r.value() == r.hi as int * pow128() + r.lo as int,
                        r.hi as int <= pow128() - 1,
                        r.lo as int <= pow128() - 1,
                        pow128() > 0,
                ;
                Some(r)
            },
            None => {
                assert(self.value() + other.value() >= pow128() * pow128()) by (nonlinear_arith)
                    requires
                        self.value() + other.value() == (self.hi as int + other.hi as int
                            + carry as int) * pow128() + lo as int,
                        self.hi as int + other.hi as int + carry as int >= pow128(),
                        lo as int >= 0,
                        pow128() > 0,
                ;
                None
            },
        }
    }

    /// `self` times `n`, where that fits in 256 bits.
    pub fn scale(&self, n: u64) -> (r: Wide)
        requires
            self.value() * n < pow128() * pow128(),
        ensures
            r.value() == self.value() * n,
    {
        let low = Wide::product(self.lo, n as u128);
        let ghost k = pow128();
        let ghost h = self.hi as int;
        let ghost l = self.lo as int;
        let ghost m = n as int;
        proof {
            assert((h * k + l) * m == (h * m) * k + l * m) by (nonlinear_arith);
            assert(h * m < k) by (nonlinear_arith)
                requires
                    (h * m) * k + l * m < k * k,
                    0 <= l * m,
                    k > 0,
            ;
            assert(0 <= h * m) by (nonlinear_arith)
                requires
                    0 <= h,
                    0 <= m,
            ;
            assert(h * m + low.hi as int <= k - 1) by (nonlinear_arith)
                requires
                    (h * m) * k + (low.hi as int * k + low.lo as int) < k * k,
                    0 <= low.lo as int,
                    k > 0,
            ;
            assert((h * m + low.hi as int) * k == (h * m) * k + low.hi as int * k)
                by (nonlinear_arith);
        }
        let high: u128 = self.hi * (n as u128) + low.hi;
        Wide { hi: high, lo: low.lo }
    }

    /// The product of two 128-bit numbers.
    pub fn product(a: u128, b: u128) -> (r: Wide)
        ensures
            r.value() == a as int * b as int,
    {
        let a0: u128 = a % 0x1_0000_0000_0000_0000u128;
        let a1: u128 = a / 0x1_0000_0000_0000_0000u128;
        let b0: u128 = b % 0x1_0000_0000_0000_0000u128;
        let b1: u128 = b / 0x1_0000_0000_0000_0000u128;
        proof {
            lemma_half_product(a0 as int, b0 as int);
            lemma_half_product(a0 as int, b1 as int);
            lemma_half_product(a1 as int, b0 as int);
            lemma_half_product(a1 as int, b1 as int);
        }
        let p00: u128 = a0 * b0;
        let p01: u128 = a0 * b1;
        let p10: u128 = a1 * b0;
        let p11: u128 = a1 * b1;
        let c0: u128 = p00 % 0x1_0000_0000_0000_0000u128;
        let d0: u128 = p00 / 0x1_0000_0000_0000_0000u128;
        let t: u128 = p01 + d0;
        let t0: u128 = t % 0x1_0000_0000_0000_0000u128;
        let t1: u128 = t / 0x1_0000_0000_0000_0000u128;
        let u: u128 = p10 + t0;
        let u0: u128 = u % 0x1_0000_0000_0000_0000u128;
        let u1: u128 = u / 0x1_0000_0000_0000_0000u128;
        let lo: u128 = u0 * 0x1_0000_0000_0000_0000u128 + c0;
        let hi: u128 = p11 + t1 + u1;
        proof {
            lemma_product_split(
                a0 as int, a1 as int, b0 as int, b1 as int, c0 as int, d0 as int, t0 as int,
                t1 as int, u0 as int, u1 as int,
            );
        }
        Wide { hi, lo }
    }
}

/// Two wide numbers compare as their halves do, the high half first.
pub proof fn lemma_value_order(a: Wide, b: Wide)
    ensures
        (a.value() <= b.value()) == (a.hi < b.hi || (a.hi == b.hi && a.lo <= b.lo)),
{
    assert((a.value() <= b.value()) == (a.hi < b.hi || (a.hi == b.hi && a.lo <= b.lo)))
        by (nonlinear_arith)
        requires
            a.value() == a.hi as int * pow128() + a.lo as int,
            b.value() == b.hi as int * pow128() + b.lo as int,
            0 <= a.lo as int <= pow128() - 1,
            0 <= b.lo as int <= pow128() - 1,
            0 <= a.hi as int,
            0 <= b.hi as int,
            pow128() > 0,
    ;
}

/// A wide number is below 2^256.
pub proof fn lemma_value_bound(a: Wide)
    ensures
        0 <= a.value() < pow128() * pow128(),
{
    assert(0 <= a.hi as int * pow128() + (a.lo as int) && a.hi as int * pow128() + (a.lo as int)
        < pow128() * pow128()) by (nonlinear_arith)
        requires
            0 <= a.hi as int <= pow128() - 1,
            0 <= a.lo as int <= pow128() - 1,
            pow128() > 0,
    ;
}

/// The product of two numbers below 2^64 is at most (2^64 - 1)^2.
pub proof fn lemma_half_product(x: int, y: int)
    requires
        0 <= x < pow64(),
        0 <= y < pow64(),
    ensures
        0 <= x * y <= 0xffff_ffff_ffff_fffe_0000_0000_0000_0001int,
{
    assert(0 <= x * y <= (pow64() - 1) * (pow64() - 1)) by (nonlinear_arith)
        requires
            0 <= x <= pow64() - 1,
            0 <= y <= pow64() - 1,
    ;
}

/// Schoolbook multiplication in base 2^64, with the carries named.
pub proof fn lemma_product_split(
    a0: int,
    a1: int,
    b0: int,
    b1: int,
    c0: int,
    d0: int,
    t0: int,
    t1: int,
    u0: int,
    u1: int,
)
    requires
        a0 * b0 == d0 * pow64() + c0,
        a0 * b1 + d0 == t1 * pow64() + t0,
        a1 * b0 + t0 == u1 * pow64() + u0,
    ensures
        (a1 * pow64() + a0) * (b1 * pow64() + b0) == (a1 * b1 + t1 + u1) * pow128() + u0 * pow64()
            + c0,
{
    assert(pow128() == pow64() * pow64());
    lemma_product_split_in_base(pow64(), a0, a1, b0, b1, c0, d0, t0, t1, u0, u1);
}

/// The same identity in any base `k`.
proof fn lemma_product_split_in_base(
    k: int,
    a0: int,
    a1: int,
    b0: int,
    b1: int,
    c0: int,
    d0: int,
    t0: int,
    t1: int,
    u0: int,
    u1: int,
)
    requires
        a0 * b0 == d0 * k + c0,
        a0 * b1 + d0 == t1 * k + t0,
        a1 * b0 + t0 == u1 * k + u0,
    ensures
        (a1 * k + a0) * (b1 * k + b0) == (a1 * b1 + t1 + u1) * (k * k) + u0 * k + c0,
{
    let p00 = a0 * b0;
    let p01 = a0 * b1;
    let p10 = a1 * b0;
    let p11 = a1 * b1;
    let kk = k * k;
    let x = a1 * k;
    let y = b1 * k;
    assert((x + a0) * (y + b0) == x * y + x * b0 + a0 * y + a0 * b0) by (nonlinear_arith);
    assert(x * y == p11 * kk) by (nonlinear_arith)
        requires
            x == a1 * k,
            y == b1 * k,
            p11 == a1 * b1,
            kk == k * k,
    ;
    assert(x * b0 == p10 * k) by (nonlinear_arith)
        requires
            x == a1 * k,
            p10 == a1 * b0,
    ;
    assert(a0 * y == p01 * k) by (nonlinear_arith)
        requires
            y == b1 * k,
            p01 == a0 * b1,
    ;
    assert((p11 + t1 + u1) * kk == p11 * kk + t1 * kk + u1 * kk) by (nonlinear_arith);
    assert(t1 * kk == (t1 * k) * k) by (nonlinear_arith)
        requires
            kk == k * k,
    ;
    assert(u1 * kk == (u1 * k) * k) by (nonlinear_arith)
        requires
            kk == k * k,
    ;
    assert(p01 * k == (t1 * k) * k + t0 * k - d0 * k) by (nonlinear_arith)
        requires
            p01 == t1 * k + t0 - d0,
    ;
    assert(p10 * k == (u1 * k) * k + u0 * k - t0 * k) by (nonlinear_arith)
        requires
            p10 == u1 * k + u0 - t0,
    ;
}

} // verus!
