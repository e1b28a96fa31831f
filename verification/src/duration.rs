use vstd::prelude::*;

verus! {

/// The largest span a `Duration` can hold, in nanoseconds: `u64::MAX` whole
/// seconds plus 999_999_999 nanoseconds.
pub const MAX_NANOS: u128 = 18_446_744_073_709_551_615_999_999_999;

pub const NANOS_PER_SEC: u128 = 1_000_000_000;

pub const NANOS_PER_MILLI: u128 = 1_000_000;

/// A span of time with nanosecond precision, covering the same range as the
/// standard library's `Duration`. Its view is the span in nanoseconds.
#[derive(Debug, Clone, Copy, PartialEq, Eq, Structural)]
pub struct Duration {
    nanos: u128,
}

impl View for Duration {
    type V = nat;

    closed spec fn view(&self) -> nat {
        self.nanos as nat
    }
}

impl Duration {
    #[verifier::type_invariant]
    spec fn in_range(self) -> bool {
        self.nanos <= MAX_NANOS
    }

    /// A duration of the given number of nanoseconds.
    pub fn from_nanos(nanos: u64) -> (d: Duration)
        ensures
            d@ == nanos,
    {
        Duration { nanos: nanos as u128 }
    }

    /// A duration of the given number of milliseconds.
    pub fn from_millis(millis: u64) -> (d: Duration)
        ensures
            d@ == millis * NANOS_PER_MILLI,
    {
        Duration { nanos: (millis as u128) * NANOS_PER_MILLI }
    }

    /// A duration of the given number of whole seconds.
    pub fn from_secs(secs: u64) -> (d: Duration)
        ensures
            d@ == secs * NANOS_PER_SEC,
    {
        Duration { nanos: (secs as u128) * NANOS_PER_SEC }
    }

    /// A duration of `secs` whole seconds and `subsec_nanos` nanoseconds.
    pub fn from_parts(secs: u64, subsec_nanos: u32) -> (d: Duration)
        requires
            subsec_nanos < NANOS_PER_SEC,
        ensures
            d@ == secs * NANOS_PER_SEC + subsec_nanos,
    {
        Duration { nanos: (secs as u128) * NANOS_PER_SEC + (subsec_nanos as u128) }
    }

    /// The empty duration.
    pub fn zero() -> (d: Duration)
        ensures
            d@ == 0,
    {
        Duration { nanos: 0 }
    }

    /// The longest duration there is.
    pub fn max_value() -> (d: Duration)
        ensures
            d@ == MAX_NANOS,
    {
        Duration { nanos: MAX_NANOS }
    }

    /// The span in nanoseconds; it never exceeds `MAX_NANOS`.
    pub fn as_nanos(&self) -> (n: u128)
        ensures
            n == self@,
            n <= MAX_NANOS,
    {
        proof {
            use_type_invariant(self);
        }
        self.nanos
    }

    /// The span in whole milliseconds (rounded down).
    pub fn as_millis(&self) -> (n: u128)
        ensures
            n == self@ / (NANOS_PER_MILLI as nat),
    {
        self.nanos / NANOS_PER_MILLI
    }

    /// The number of whole seconds in the span.
    pub fn as_secs(&self) -> (n: u64)
        ensures
            n == self@ / (NANOS_PER_SEC as nat),
    {
        proof {
            use_type_invariant(self);
        }
        (self.nanos / NANOS_PER_SEC) as u64
    }

    /// The nanoseconds beyond the whole seconds.
    pub fn subsec_nanos(&self) -> (n: u32)
        ensures
            n == self@ % (NANOS_PER_SEC as nat),
    {
        (self.nanos % NANOS_PER_SEC) as u32
    }

    /// The shorter of two durations.
    pub fn min(self, other: Duration) -> (d: Duration)
        ensures
            d@ == if self@ <= other@ { self@ } else { other@ },
    {
        if self.nanos <= other.nanos { self } else { other }
    }

    /// The longer of two durations.
    pub fn max(self, other: Duration) -> (d: Duration)
        ensures
            d@ == if self@ >= other@ { self@ } else { other@ },
    {
        if self.nanos >= other.nanos { self } else { other }
    }

    /// The sum of two durations, or the longest duration where the sum does
    /// not fit.
    pub fn saturating_add(self, other: Duration) -> (d: Duration)
        ensures
            d@ == if self@ + other@ <= MAX_NANOS { self@ + other@ } else { MAX_NANOS as nat },
            d@ >= self@,
            d@ >= other@,
    {
        proof {
            use_type_invariant(self);
            use_type_invariant(other);
        }
        if self.nanos <= MAX_NANOS - other.nanos {
            Duration { nanos: self.nanos + other.nanos }
        } else {
            Duration { nanos: MAX_NANOS }
        }
    }

    /// The duration multiplied by `factor`, or `None` where the product does
    /// not fit.
    pub fn checked_mul(self, factor: u32) -> (d: Option<Duration>)
        ensures
            self@ * factor <= MAX_NANOS ==> d is Some && d->0@ == self@ * factor,
            self@ * factor > MAX_NANOS ==> d is None,
    {
        proof {
            use_type_invariant(self);
        }
        if factor == 0 {
            assert(self@ * factor == 0) by (nonlinear_arith)
                requires
                    factor == 0,
            ;
            return Some(Duration { nanos: 0 });
        }
        if self.nanos <= MAX_NANOS / (factor as u128) {
            proof {
                lemma_mul_bound(self.nanos as int, factor as int, MAX_NANOS as int);
            }
            Some(Duration { nanos: self.nanos * (factor as u128) })
        } else {
            proof {
                lemma_mul_exceeds(self.nanos as int, factor as int, MAX_NANOS as int);
            }
            None
        }
    }
}

proof fn lemma_mul_bound(a: int, f: int, m: int)
    requires
        f > 0,
        m >= 0,
        0 <= a <= m / f,
    ensures
        a * f <= m,
{
    assert(a * f <= (m / f) * f) by (nonlinear_arith)
        requires
            0 <= a <= m / f,
            f > 0,
    ;
    assert((m / f) * f <= m) by (nonlinear_arith)
        requires
            f > 0,
            m >= 0,
    ;
}

proof fn lemma_mul_exceeds(a: int, f: int, m: int)
    requires
        f > 0,
        m >= 0,
        a > m / f,
    ensures
        a * f > m,
{
    assert(a >= m / f + 1);
    assert(a * f >= (m / f + 1) * f) by (nonlinear_arith)
        requires
            a >= m / f + 1,
            f > 0,
    ;
    assert((m / f + 1) * f > m) by (nonlinear_arith)
        requires
            f > 0,
            m >= 0,
    ;
}

} // verus!
