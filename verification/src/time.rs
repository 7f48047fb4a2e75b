//! Plain-value time types: a span of time and a reading of the monotonic clock.
//!
//! Both hold whole seconds and the nanoseconds past them, the nanoseconds always
//! below one second. Their views count nanoseconds.
use vstd::prelude::*;

verus! {

/// Nanoseconds in one second.
pub const NANOS_PER_SEC: u32 = 1_000_000_000;

/// The number of nanoseconds in one second, as a mathematical integer.
pub open spec fn nanos_per_sec() -> int {
    1_000_000_000
}

/// The longest span a `Duration` can hold, in nanoseconds.
pub open spec fn max_duration_nanos() -> int {
    u64::MAX as int * nanos_per_sec() + (nanos_per_sec() - 1)
}

/// The latest instant, in nanoseconds from the clock's origin.
pub open spec fn max_instant_nanos() -> int {
    i64::MAX as int * nanos_per_sec() + (nanos_per_sec() - 1)
}

/// A span of time.
#[derive(Clone, Copy, Debug, PartialEq, Eq, Hash, PartialOrd, Ord)]
pub struct Duration {
    secs: u64,
    nanos: u32,
}

/// A reading of the monotonic clock: the time elapsed since the clock's
/// (unspecified) origin, which may lie before or after it.
#[derive(Clone, Copy, Debug, PartialEq, Eq, Hash, PartialOrd, Ord)]
pub struct Instant {
    secs: i64,
    nanos: u32,
}

impl View for Duration {
    type V = int;

    closed spec fn view(&self) -> int {
        self.secs as int * nanos_per_sec() + self.nanos as int
    }
}

impl View for Instant {
    type V = int;

    closed spec fn view(&self) -> int {
        self.secs as int * nanos_per_sec() + self.nanos as int
    }
}

impl Duration {
    /// The nanoseconds are below one second.
    pub closed spec fn wf(self) -> bool {
        self.nanos < NANOS_PER_SEC
    }

    /// Two well-formed durations of the same length are the same value.
    pub proof fn lemma_view_injective(self, other: Duration)
        requires
            self.wf(),
            other.wf(),
            self@ == other@,
        ensures
            self == other,
    {
        assert(self.secs == other.secs) by (nonlinear_arith)
            requires
                self.secs as int * 1_000_000_000 + self.nanos as int == other.secs as int
                    * 1_000_000_000 + other.nanos as int,
                self.nanos < 1_000_000_000,
                other.nanos < 1_000_000_000,
        ;
    }

    /// A span is never negative, and never longer than the longest one.
    pub proof fn lemma_view_bounds(self)
        requires
            self.wf(),
        ensures
            0 <= self@ <= max_duration_nanos(),
    {
    }

    /// Splits a count of nanoseconds into seconds and nanoseconds.
    proof fn lemma_split(secs: u64, nanos: u32)
        requires
            nanos < NANOS_PER_SEC,
        ensures
            (secs as int * nanos_per_sec() + nanos as int) / nanos_per_sec() == secs as int,
            (secs as int * nanos_per_sec() + nanos as int) % nanos_per_sec() == nanos as int,
    {
        assert((secs as int * 1_000_000_000 + nanos as int) / 1_000_000_000 == secs as int
            && (secs as int * 1_000_000_000 + nanos as int) % 1_000_000_000 == nanos as int)
            by (nonlinear_arith)
            requires
                nanos < 1_000_000_000,
        ;
    }

    /// A span of `secs` seconds and `nanos` nanoseconds; whole seconds among the
    /// nanoseconds carry into the seconds.
    pub fn new(secs: u64, nanos: u32) -> (r: Duration)
        requires
            secs + nanos / NANOS_PER_SEC <= u64::MAX,
        ensures
            r.wf(),
            r@ == secs as int * nanos_per_sec() + nanos as int,
    {
        let carry: u64 = (nanos / NANOS_PER_SEC) as u64;
        let rest: u32 = nanos % NANOS_PER_SEC;
        assert(carry * 1_000_000_000 + rest == nanos) by (nonlinear_arith)
            requires
                carry == nanos / 1_000_000_000,
                rest == nanos % 1_000_000_000,
        ;
        Duration { secs: secs + carry, nanos: rest }
    }

    /// A span of the given seconds.
    pub fn from_secs(secs: u64) -> (r: Duration)
        ensures
            r.wf(),
            r@ == secs as int * nanos_per_sec(),
    {
        Duration { secs, nanos: 0 }
    }

    /// A span of the given milliseconds.
    pub fn from_millis(millis: u64) -> (r: Duration)
        ensures
            r.wf(),
            r@ == millis as int * 1_000_000,
    {
        let secs: u64 = millis / 1000;
        let rest: u64 = millis % 1000;
        let nanos: u32 = (rest * 1_000_000) as u32;
        assert(secs as int * 1_000_000_000 + rest * 1_000_000 == millis as int * 1_000_000)
            by (nonlinear_arith)
            requires
                secs == millis / 1000,
                rest == millis % 1000,
        ;
        Duration { secs, nanos }
    }

    /// The empty span.
    pub fn zero() -> (r: Duration)
        ensures
            r.wf(),
            r@ == 0,
    {
        Duration { secs: 0, nanos: 0 }
    }

    /// The longest span.
    pub closed spec fn maximum_spec() -> Duration {
        Duration { secs: u64::MAX, nanos: (NANOS_PER_SEC - 1) as u32 }
    }

    /// The longest span.
    pub fn maximum() -> (r: Duration)
        ensures
            r.wf(),
            r@ == max_duration_nanos(),
            r == Duration::maximum_spec(),
    {
        Duration { secs: u64::MAX, nanos: NANOS_PER_SEC - 1 }
    }

    /// The whole seconds of the span.
    pub fn as_secs(&self) -> (r: u64)
        requires
            self.wf(),
        ensures
            r == self@ / nanos_per_sec(),
    {
        proof {
            Self::lemma_split(self.secs, self.nanos);
        }
        self.secs
    }

    /// The nanoseconds past the whole seconds.
    pub fn subsec_nanos(&self) -> (r: u32)
        requires
            self.wf(),
        ensures
            r == self@ % nanos_per_sec(),
            r < NANOS_PER_SEC,
    {
        proof {
            Self::lemma_split(self.secs, self.nanos);
        }
        self.nanos
    }
}

impl Instant {
    /// The nanoseconds are below one second.
    pub closed spec fn wf(self) -> bool {
        self.nanos < NANOS_PER_SEC
    }

    /// Two well-formed instants at the same time are the same value.
    pub proof fn lemma_view_injective(self, other: Instant)
        requires
            self.wf(),
            other.wf(),
            self@ == other@,
        ensures
            self == other,
    {
        assert(self.secs == other.secs) by (nonlinear_arith)
            requires
                self.secs as int * 1_000_000_000 + self.nanos as int == other.secs as int
                    * 1_000_000_000 + other.nanos as int,
                self.nanos < 1_000_000_000,
                other.nanos < 1_000_000_000,
        ;
    }

    /// The instant that lies the given seconds and nanoseconds from the clock's origin.
    pub fn new(secs: i64, nanos: u32) -> (r: Instant)
        requires
            nanos < NANOS_PER_SEC,
        ensures
            r.wf(),
            r@ == secs as int * nanos_per_sec() + nanos as int,
    {
        Instant { secs, nanos }
    }

    /// The whole seconds from the clock's origin (rounded towards the past).
    pub fn secs(&self) -> (r: i64)
        requires
            self.wf(),
        ensures
            r == self@ / nanos_per_sec(),
    {
        assert((self.secs as int * 1_000_000_000 + self.nanos as int) / 1_000_000_000
            == self.secs as int) by (nonlinear_arith)
            requires
                self.nanos < 1_000_000_000,
        ;
        self.secs
    }

    /// The nanoseconds past the whole seconds.
    pub fn subsec_nanos(&self) -> (r: u32)
        requires
            self.wf(),
        ensures
            r == self@ % nanos_per_sec(),
            r < NANOS_PER_SEC,
    {
        assert((self.secs as int * 1_000_000_000 + self.nanos as int) % 1_000_000_000
            == self.nanos as int) by (nonlinear_arith)
            requires
                self.nanos < 1_000_000_000,
        ;
        self.nanos
    }

    /// Does `self` lie strictly after `other`?
    pub fn is_after(&self, other: &Instant) -> (r: bool)
        requires
            self.wf(),
            other.wf(),
        ensures
            r == (self@ > other@),
    {
        proof {
            Self::lemma_order(*self, *other);
            Self::lemma_order(*other, *self);
        }
        self.secs > other.secs || (self.secs == other.secs && self.nanos > other.nanos)
    }

    /// Does `self` lie at or after `other`?
    pub fn is_not_before(&self, other: &Instant) -> (r: bool)
        requires
            self.wf(),
            other.wf(),
        ensures
            r == (self@ >= other@),
    {
        let before = other.is_after(self);
        !before
    }

    /// Instants order as their (seconds, nanoseconds) pairs do.
    proof fn lemma_order(a: Instant, b: Instant)
        requires
            a.wf(),
            b.wf(),
        ensures
            (a@ > b@) == (a.secs > b.secs || (a.secs == b.secs && a.nanos > b.nanos)),
    {
        assert((a.secs as int * 1_000_000_000 + a.nanos as int > b.secs as int * 1_000_000_000
            + b.nanos as int) == (a.secs > b.secs || (a.secs == b.secs && a.nanos > b.nanos)))
            by (nonlinear_arith)
            requires
                a.nanos < 1_000_000_000,
                b.nanos < 1_000_000_000,
        ;
    }

    /// The instant `duration` after `self`, unless it lies beyond the latest instant.
    pub fn checked_add(&self, duration: Duration) -> (r: Option<Instant>)
        requires
            self.wf(),
            duration.wf(),
        ensures
            r.is_some() == (self@ + duration@ <= max_instant_nanos()),
            r matches Some(t) ==> t.wf() && t@ == self@ + duration@,
    {
        let total_nanos: u32 = self.nanos + duration.nanos;
        let (carry, nanos): (i128, u32) = if total_nanos >= NANOS_PER_SEC {
            (1, total_nanos - NANOS_PER_SEC)
        } else {
            (0, total_nanos)
        };
        let secs: i128 = self.secs as i128 + duration.secs as i128 + carry;
        if secs > i64::MAX as i128 {
            assert(self@ + duration@ > max_instant_nanos()) by (nonlinear_arith)
                requires
                    secs > i64::MAX,
                    secs == self.secs + duration.secs + carry,
                    self@ == self.secs * 1_000_000_000 + self.nanos,
                    duration@ == duration.secs * 1_000_000_000 + duration.nanos,
                    self.nanos + duration.nanos == carry * 1_000_000_000 + nanos,
                    0 <= nanos < 1_000_000_000,
            ;
            None
        } else {
            let t = Instant { secs: secs as i64, nanos };
            assert(t@ == self@ + duration@ && t@ <= max_instant_nanos()) by (nonlinear_arith)
                requires
                    secs <= i64::MAX,
                    secs == self.secs + duration.secs + carry,
                    t.secs == secs,
                    t.nanos == nanos,
                    t@ == t.secs * 1_000_000_000 + t.nanos,
                    self@ == self.secs * 1_000_000_000 + self.nanos,
                    duration@ == duration.secs * 1_000_000_000 + duration.nanos,
                    self.nanos + duration.nanos == carry * 1_000_000_000 + nanos,
                    0 <= nanos < 1_000_000_000,
            ;
            Some(t)
        }
    }

    /// The span from `earlier` to `self`, or the empty span where `earlier`
    /// lies after `self`.
    pub fn duration_since(&self, earlier: &Instant) -> (r: Duration)
        requires
            self.wf(),
            earlier.wf(),
        ensures
            r.wf(),
            r@ == (if self@ >= earlier@ {
                self@ - earlier@
            } else {
                0
            }),
    {
        let later = self.is_not_before(earlier);
        if !later {
            return Duration::zero();
        }
        let (borrow, nanos): (i128, u32) = if self.nanos >= earlier.nanos {
            (0, self.nanos - earlier.nanos)
        } else {
            (1, self.nanos + NANOS_PER_SEC - earlier.nanos)
        };
        let secs: i128 = self.secs as i128 - earlier.secs as i128 - borrow;
        assert(secs * 1_000_000_000 + nanos == self@ - earlier@);
        assert(0 <= secs <= u64::MAX);
        Duration { secs: secs as u64, nanos }
    }
}

} // verus!
