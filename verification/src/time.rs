//! Points on the UTC time line and signed spans between them, both counted in
//! whole nanoseconds.

use vstd::prelude::*;

verus! {

pub const NANOS_PER_MICRO: i128 = 1_000;

pub const NANOS_PER_MILLI: i128 = 1_000_000;

pub const NANOS_PER_SEC: i128 = 1_000_000_000;

/// Every `Duration` lies in `-span_limit() <= d@ < span_limit()`: 2^63 seconds,
/// so that its whole seconds always fit in 64 bits.
pub open spec fn span_limit() -> int {
    9_223_372_036_854_775_808_000_000_000
}

/// The quotient `a / b` rounded toward zero, for a positive divisor.
pub open spec fn div_toward_zero(a: int, b: int) -> int
    recommends
        b > 0,
{
    if a >= 0 {
        a / b
    } else {
        -((-a) / b)
    }
}

/// A signed span of time. Its view is the span in nanoseconds.
#[derive(Clone, Copy, Debug, PartialEq, Eq, PartialOrd, Ord, Hash)]
pub struct Duration {
    nanos: i128,
}

impl View for Duration {
    type V = int;

    closed spec fn view(&self) -> int {
        self.nanos as int
    }
}

/// Seconds and microseconds in the shape that the clock-adjustment calls of
/// the operating system take: `tv_usec` is never negative.
#[derive(Clone, Copy, Debug, PartialEq, Eq, Structural)]
pub struct TimeVal {
    pub tv_sec: i64,
    pub tv_usec: i64,
}

impl Duration {
    #[verifier::type_invariant]
    spec fn within_limit(self) -> bool {
        -span_limit() <= self.nanos < span_limit()
    }

    /// Two spans of as many nanoseconds are one span.
    pub proof fn lemma_equal_by_view(self, other: Duration)
        requires
            self@ == other@,
        ensures
            self == other,
    {
    }

    /// The span of `nanos` nanoseconds, for a count inside the limit.
    pub(crate) fn from_total_nanoseconds(nanos: i128) -> (d: Duration)
        requires
            -span_limit() <= nanos < span_limit(),
        ensures
            d@ == nanos,
    {
        Duration { nanos }
    }

    pub fn zero() -> (d: Duration)
        ensures
            d@ == 0,
    {
        Duration { nanos: 0 }
    }

    pub fn nanoseconds(nanos: i64) -> (d: Duration)
        ensures
            d@ == nanos,
    {
        Duration { nanos: nanos as i128 }
    }

    pub fn microseconds(micros: i64) -> (d: Duration)
        ensures
            d@ == micros * 1_000,
    {
        Duration { nanos: micros as i128 * NANOS_PER_MICRO }
    }

    pub fn milliseconds(millis: i64) -> (d: Duration)
        ensures
            d@ == millis * 1_000_000,
    {
        Duration { nanos: millis as i128 * NANOS_PER_MILLI }
    }

    pub fn seconds(seconds: i64) -> (d: Duration)
        ensures
            d@ == seconds * 1_000_000_000,
    {
        Duration { nanos: seconds as i128 * NANOS_PER_SEC }
    }

    /// The whole span in nanoseconds.
    pub fn total_nanoseconds(&self) -> (nanos: i128)
        ensures
            nanos == self@,
            -span_limit() <= nanos < span_limit(),
    {
        proof {
            use_type_invariant(self);
        }
        self.nanos
    }

    /// The span in nanoseconds, where 64 bits hold it.
    pub fn num_nanoseconds(&self) -> (nanos: Option<i64>)
        ensures
            nanos == if i64::MIN <= self@ <= i64::MAX {
                Some(self@ as i64)
            } else {
                None
            },
    {
        let n = self.total_nanoseconds();
        if n < i64::MIN as i128 || n > i64::MAX as i128 {
            None
        } else {
            Some(n as i64)
        }
    }

    /// The whole microseconds of the span, rounded toward zero, where 64 bits
    /// hold them.
    pub fn num_microseconds(&self) -> (micros: Option<i64>)
        ensures
            micros == if i64::MIN <= div_toward_zero(self@, 1_000) <= i64::MAX {
                Some(div_toward_zero(self@, 1_000) as i64)
            } else {
                None
            },
    {
        let q = self.total_nanoseconds() / NANOS_PER_MICRO;
        if q < i64::MIN as i128 || q > i64::MAX as i128 {
            None
        } else {
            Some(q as i64)
        }
    }

    /// The whole milliseconds of the span, rounded toward zero.
    pub fn num_milliseconds(&self) -> (millis: i128)
        ensures
            millis == div_toward_zero(self@, 1_000_000),
    {
        self.total_nanoseconds() / NANOS_PER_MILLI
    }

    /// The whole seconds of the span, rounded toward zero.
    pub fn num_seconds(&self) -> (seconds: i64)
        ensures
            seconds == div_toward_zero(self@, 1_000_000_000),
    {
        let q = self.total_nanoseconds() / NANOS_PER_SEC;
        q as i64
    }

    /// Splits the span into seconds and microseconds for the operating
    /// system's clock adjustment.
    ///
    /// The seconds are the whole seconds of the span rounded toward negative
    /// infinity, and the microseconds are the whole microseconds of what is
    /// left above them, so that `tv_usec` lies in `[0, 1_000_000)` for a
    /// negative span too. Together they are the whole microseconds of the
    /// span, rounded toward negative infinity.
    pub fn timeval(&self) -> (tv: TimeVal)
        ensures
            tv.tv_sec == self@ / 1_000_000_000,
            tv.tv_usec == self@ % 1_000_000_000 / 1_000,
            0 <= tv.tv_usec < 1_000_000,
            tv.tv_sec * 1_000_000 + tv.tv_usec == self@ / 1_000,
    {
        let nanos = self.total_nanoseconds();
        let mut seconds: i128 = nanos / NANOS_PER_SEC;
        // -1 s < residue < 1 s, with the sign of the span
        let mut residue: i128 = nanos - seconds * NANOS_PER_SEC;
        if residue < 0 {
            seconds -= 1;
            residue += NANOS_PER_SEC;
        }
        let micros: i128 = residue / NANOS_PER_MICRO;
        TimeVal { tv_sec: seconds as i64, tv_usec: micros as i64 }
    }
}

/// A point on the UTC time line. Its view is the number of nanoseconds since
/// 1970-01-01T00:00:00Z, negative before it.
#[derive(Clone, Copy, Debug, PartialEq, Eq, Structural, PartialOrd, Ord, Hash)]
pub struct Instant {
    pub unix_nanos: i64,
}

impl View for Instant {
    type V = int;

    open spec fn view(&self) -> int {
        self.unix_nanos as int
    }
}

impl Instant {
    pub fn from_unix_nanos(unix_nanos: i64) -> (t: Instant)
        ensures
            t@ == unix_nanos,
    {
        Instant { unix_nanos }
    }

    /// The whole seconds since the Unix epoch, rounded toward negative
    /// infinity.
    pub fn timestamp(&self) -> (seconds: i64)
        ensures
            seconds == self@ / 1_000_000_000,
    {
        let q = self.unix_nanos / 1_000_000_000;
        if self.unix_nanos < 0 && q * 1_000_000_000 != self.unix_nanos {
            q - 1
        } else {
            q
        }
    }

    /// The nanoseconds past the last whole second.
    pub fn timestamp_subsec_nanos(&self) -> (nanos: u32)
        ensures
            nanos == self@ % 1_000_000_000,
    {
        let r = self.unix_nanos % 1_000_000_000;
        if r < 0 {
            (r + 1_000_000_000) as u32
        } else {
            r as u32
        }
    }

    /// The span from `earlier` to `self`, negative where `self` is the earlier
    /// of the two.
    pub fn since(&self, earlier: Instant) -> (d: Duration)
        ensures
            d@ == self@ - earlier@,
    {
        Duration::from_total_nanoseconds(self.unix_nanos as i128 - earlier.unix_nanos as i128)
    }
}

} // verus!
