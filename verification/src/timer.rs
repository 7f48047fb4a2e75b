//! Timers that fire once or periodically, woken through a tick-based time driver.
//!
//! A timer holds the instant at which it fires next (none: it never fires), the
//! period after which it fires again, and the waker of the task that waits on it.
//! Each operation works at a `TickClock`: a reading of the clock, paired with the
//! time driver's tick count at that time, which maps instants to driver ticks. A
//! timer whose instant has no tick never fires; an armed timer's waker is
//! scheduled at its instant's tick.
use vstd::prelude::*;

use core::task::Waker;

use crate::platform::{DriverNow, driver_now, driver_tick_hz, tick_hz};
use crate::task::{
    KeptWaker, Scheduled, WakeCheck, answered_same, clone_waker, is_check_of, schedule_wake,
    scheduled_tick, scheduled_waker, will_wake,
};
use crate::time::{Duration, Instant, max_duration_nanos, max_instant_nanos, nanos_per_sec};

verus! {

/// The tick rates that the time driver's features can select.
pub open spec fn valid_tick_hz(hz: u64) -> bool {
    1 <= hz <= 5_242_880_000
}

/// The ticks in a span of `nanos` nanoseconds at `hz` ticks per second: the whole
/// seconds times the rate, plus the ticks in the remaining nanoseconds rounded
/// down; none where that does not fit in a `u64`.
pub open spec fn duration_ticks_spec(nanos: int, hz: int) -> Option<u64> {
    let t = (nanos / nanos_per_sec()) * hz + (nanos % nanos_per_sec()) * hz / nanos_per_sec();
    if t <= u64::MAX {
        Some(t as u64)
    } else {
        None
    }
}

/// The tick at which `instant` falls, where `now` is the instant at which the
/// driver's tick count was `now_ticks`: later instants add their ticks (none on
/// overflow), earlier ones subtract them (stopping at zero).
pub open spec fn tick_at_spec(instant: int, now: int, now_ticks: u64, hz: u64) -> Option<u64> {
    if instant >= now {
        match duration_ticks_spec(instant - now, hz as int) {
            Some(d) => if now_ticks + d <= u64::MAX {
                Some((now_ticks + d) as u64)
            } else {
                None
            },
            None => None,
        }
    } else {
        match duration_ticks_spec(now - instant, hz as int) {
            Some(d) => Some(
                if now_ticks >= d {
                    (now_ticks - d) as u64
                } else {
                    0
                },
            ),
            None => None,
        }
    }
}

/// An instant not later than `now`, and less than 3_518_437_207 seconds before
/// it, gets a tick whatever the driver's tick count and tick rate: a timer set
/// for it is always armed.
pub proof fn lemma_recent_instant_schedules(instant: int, now: int, now_ticks: u64, hz: u64)
    requires
        instant <= now,
        now - instant < 3_518_437_207 * nanos_per_sec(),
        valid_tick_hz(hz),
    ensures
        tick_at_spec(instant, now, now_ticks, hz) is Some,
{
    let d = if instant >= now {
        instant - now
    } else {
        now - instant
    };
    let secs = d / nanos_per_sec();
    let rest = d % nanos_per_sec();
    assert(0 <= secs <= 3_518_437_206);
    assert(0 <= rest < nanos_per_sec());
    assert(rest * hz / nanos_per_sec() <= hz) by (nonlinear_arith)
        requires
            0 <= rest < 1_000_000_000,
            1 <= hz,
    ;
    assert(secs * hz + hz <= 3_518_437_207 * 5_242_880_000) by (nonlinear_arith)
        requires
            0 <= secs <= 3_518_437_206,
            1 <= hz <= 5_242_880_000,
    ;
    let total = secs * hz + rest * hz / nanos_per_sec();
    assert(total <= u64::MAX);
    assert(duration_ticks_spec(d, hz as int) == Some(total as u64));
    if instant >= now {
        assert(d == 0);
        assert(secs == 0 && rest == 0);
        assert(secs * hz + rest * hz / 1_000_000_000 == 0) by (nonlinear_arith)
            requires
                secs == 0,
                rest == 0,
        ;
    }
}

/// The ticks in a span are those of the whole span times the rate, rounded down.
proof fn lemma_duration_ticks_floor(nanos: int, hz: int)
    requires
        nanos >= 0,
        hz >= 1,
    ensures
        (nanos / nanos_per_sec()) * hz + (nanos % nanos_per_sec()) * hz / nanos_per_sec() == (nanos
            * hz) / nanos_per_sec(),
{
    let q = nanos / nanos_per_sec();
    let r = nanos % nanos_per_sec();
    assert(nanos == q * 1_000_000_000 + r && 0 <= r < 1_000_000_000);
    assert(nanos * hz == (q * hz) * 1_000_000_000 + r * hz) by (nonlinear_arith)
        requires
            nanos == q * 1_000_000_000 + r,
    ;
    assert(((q * hz) * 1_000_000_000 + r * hz) / 1_000_000_000 == q * hz + (r * hz) / 1_000_000_000)
        by {
        vstd::arithmetic::div_mod::lemma_fundamental_div_mod_converse(
            (q * hz) * 1_000_000_000 + r * hz,
            1_000_000_000,
            q * hz + (r * hz) / 1_000_000_000,
            (r * hz) % 1_000_000_000,
        );
    }
}

/// Longer spans have at least as many ticks.
proof fn lemma_duration_ticks_monotone(d1: int, d2: int, hz: int)
    requires
        0 <= d1 <= d2,
        1 <= hz,
        duration_ticks_spec(d1, hz) is Some,
        duration_ticks_spec(d2, hz) is Some,
    ensures
        duration_ticks_spec(d1, hz).unwrap() <= duration_ticks_spec(d2, hz).unwrap(),
{
    lemma_duration_ticks_floor(d1, hz);
    lemma_duration_ticks_floor(d2, hz);
    assert(d1 * hz <= d2 * hz) by (nonlinear_arith)
        requires
            0 <= d1 <= d2,
            1 <= hz,
    ;
    vstd::arithmetic::div_mod::lemma_div_is_ordered(d1 * hz, d2 * hz, 1_000_000_000);
}

/// The tick mapping keeps the order of instants: of two instants that both get
/// a tick at the same clock reading, the earlier one's tick is not later.
pub proof fn law_tick_monotone(a: int, b: int, now: int, now_ticks: u64, hz: u64)
    requires
        a <= b,
        valid_tick_hz(hz),
        tick_at_spec(a, now, now_ticks, hz) is Some,
        tick_at_spec(b, now, now_ticks, hz) is Some,
    ensures
        tick_at_spec(a, now, now_ticks, hz).unwrap() <= tick_at_spec(b, now, now_ticks, hz).unwrap(),
{
    if a >= now {
        lemma_duration_ticks_monotone(a - now, b - now, hz as int);
    } else if b < now {
        lemma_duration_ticks_monotone(now - b, now - a, hz as int);
    }
}

/// A timer `set` at the reading `made` to fire `span` later fires, if ever, at
/// that instant: while polls leave its instant as it was (as pending polls do),
/// it is due (a poll reports it) only at a reading not earlier. It never fires
/// before `span` has passed.
pub proof fn law_never_early(
    set: Timer,
    made: TickClock,
    span: Duration,
    period: Duration,
    waker: Option<Waker>,
    t: Timer,
    polled: TickClock,
)
    requires
        set.is_set_after(made, span, period, waker),
        t.deadline() == set.deadline(),
        t.is_due(polled.now_spec()),
    ensures
        t.deadline().unwrap()@ == made.now_spec()@ + span@,
        polled.now_spec()@ >= made.now_spec()@ + span@,
{
}

/// A timer set, at a clock reading, for an instant not later than the reading
/// (and less than 3_518_437_207 seconds before it) is due at that reading: its
/// first poll there fires.
pub proof fn law_recent_timer_is_due(
    t: Timer,
    clock: TickClock,
    start: int,
    period: Duration,
    waker: Option<Waker>,
)
    requires
        clock.wf(),
        t.is_set_for(clock, start, period, waker),
        start <= clock.now_spec()@,
        clock.now_spec()@ - start < 3_518_437_207 * nanos_per_sec(),
    ensures
        t.is_due(clock.now_spec()),
{
    lemma_recent_instant_schedules(start, clock.now_spec()@, clock.ticks_spec(), clock.hz_spec());
}

/// The ticks in `duration` at `tick_hz` ticks per second.
pub fn duration_ticks(duration: &Duration, tick_hz: u64) -> (r: Option<u64>)
    requires
        duration.wf(),
        valid_tick_hz(tick_hz),
    ensures
        r == duration_ticks_spec(duration@, tick_hz as int),
{
    let secs: u128 = duration.as_secs() as u128;
    let nanos: u128 = duration.subsec_nanos() as u128;
    let hz: u128 = tick_hz as u128;
    assert(secs * hz <= 0xffff_ffff_ffff_ffff * 5_242_880_000) by (nonlinear_arith)
        requires
            0 <= secs <= 0xffff_ffff_ffff_ffff,
            0 <= hz <= 5_242_880_000,
    ;
    assert(nanos * hz <= 1_000_000_000 * 5_242_880_000) by (nonlinear_arith)
        requires
            0 <= nanos < 1_000_000_000,
            0 <= hz <= 5_242_880_000,
    ;
    let ticks: u128 = secs * hz + nanos * hz / 1_000_000_000;
    if ticks <= u64::MAX as u128 {
        Some(ticks as u64)
    } else {
        None
    }
}

/// The tick at which `instant` falls, where `now` is the instant at which the
/// driver's tick count was `now_ticks`.
pub fn tick_at(instant: &Instant, now: &Instant, now_ticks: u64, tick_hz: u64) -> (r: Option<u64>)
    requires
        instant.wf(),
        now.wf(),
        valid_tick_hz(tick_hz),
    ensures
        r == tick_at_spec(instant@, now@, now_ticks, tick_hz),
{
    if instant.is_not_before(now) {
        match duration_ticks(&instant.duration_since(now), tick_hz) {
            Some(d) => now_ticks.checked_add(d),
            None => None,
        }
    } else {
        match duration_ticks(&now.duration_since(instant), tick_hz) {
            Some(d) => Some(now_ticks.saturating_sub(d)),
            None => None,
        }
    }
}

/// Where a clock's tick count comes from: given by the caller, or read from the
/// time driver.
enum TickCount {
    Given(u64),
    Read(DriverNow),
}

/// A reading of the clock together with the time driver's tick count at that
/// time, and the driver's tick rate: what maps instants to driver ticks.
pub struct TickClock {
    now: Instant,
    ticks: TickCount,
    tick_hz: u64,
}

impl TickClock {
    /// The instant of the reading.
    pub closed spec fn now_spec(self) -> Instant {
        self.now
    }

    /// The driver's tick count at that instant.
    pub closed spec fn ticks_spec(self) -> u64 {
        match self.ticks {
            TickCount::Given(t) => t,
            TickCount::Read(d) => d.ticks_spec(),
        }
    }

    /// The reading of the driver's tick count, where the count was read from it.
    pub closed spec fn reading(self) -> Option<DriverNow> {
        match self.ticks {
            TickCount::Given(_) => None,
            TickCount::Read(d) => Some(d),
        }
    }

    /// The driver's ticks per second.
    pub closed spec fn hz_spec(self) -> u64 {
        self.tick_hz
    }

    /// The instant is well formed and the tick rate one that the driver can have.
    pub open spec fn wf(self) -> bool {
        self.now_spec().wf() && valid_tick_hz(self.hz_spec())
    }

    /// The tick at which `instant` falls, if any.
    pub open spec fn tick_spec(self, instant: int) -> Option<u64> {
        tick_at_spec(instant, self.now_spec()@, self.ticks_spec(), self.hz_spec())
    }

    /// The reading `now`, at which the driver counted `ticks` at `tick_hz`.
    pub fn new(now: Instant, ticks: u64, tick_hz: u64) -> (r: TickClock)
        requires
            now.wf(),
            valid_tick_hz(tick_hz),
        ensures
            r.wf(),
            r.now_spec() == now,
            r.ticks_spec() == ticks,
            r.hz_spec() == tick_hz,
            r.reading() is None,
    {
        TickClock { now, ticks: TickCount::Given(ticks), tick_hz }
    }

    /// Pairs the reading `now` with the driver's tick count, read at this call,
    /// and the driver's tick rate. The count depends on the time: the clock holds
    /// the reading it was paired with.
    pub fn read(now: Instant) -> (r: TickClock)
        requires
            now.wf(),
        ensures
            r.wf(),
            r.now_spec() == now,
            r.reading() is Some,
            r.ticks_spec() == r.reading().unwrap().ticks_spec(),
            r.hz_spec() == driver_tick_hz(),
    {
        TickClock { now, ticks: TickCount::Read(driver_now()), tick_hz: tick_hz() }
    }

    /// The instant of the reading.
    pub fn now(&self) -> (r: Instant)
        ensures
            r == self.now_spec(),
    {
        self.now
    }

    /// The driver's tick count at the clock's instant.
    pub fn ticks(&self) -> (r: u64)
        ensures
            r == self.ticks_spec(),
    {
        match &self.ticks {
            TickCount::Given(t) => *t,
            TickCount::Read(d) => d.ticks(),
        }
    }

    /// The driver tick at which `instant` falls, if any.
    pub fn tick(&self, instant: &Instant) -> (r: Option<u64>)
        requires
            self.wf(),
            instant.wf(),
        ensures
            r == self.tick_spec(instant@),
    {
        tick_at(instant, &self.now, self.ticks(), self.tick_hz)
    }
}

/// A clock maps its own instant to its tick count, and an instant `span` later
/// to that count plus the ticks in `span` (none past the largest count). For a
/// clock read from the driver, that count is the one the driver reported.
pub proof fn law_clock_ticks_from_its_count(clock: TickClock, span: Duration)
    requires
        clock.wf(),
        span.wf(),
        duration_ticks_spec(span@, clock.hz_spec() as int) is Some,
    ensures
        clock.tick_spec(clock.now_spec()@) == Some(clock.ticks_spec()),
        clock.reading() matches Some(d) ==> clock.tick_spec(clock.now_spec()@) == Some(
            d.ticks_spec(),
        ),
        ({
            let d = duration_ticks_spec(span@, clock.hz_spec() as int).unwrap();
            clock.tick_spec(clock.now_spec()@ + span@) == (if clock.ticks_spec() + d <= u64::MAX {
                Some((clock.ticks_spec() + d) as u64)
            } else {
                None
            })
        }),
{
    span.lemma_view_bounds();
    let hz = clock.hz_spec() as int;
    assert((0int / nanos_per_sec()) * hz + (0int % nanos_per_sec()) * hz / nanos_per_sec() == 0)
        by (nonlinear_arith);
    assert(duration_ticks_spec(0, hz) == Some(0u64));
}

/// What a poll of a timer gives: the instant at which it fired, if it did; the
/// evidence that a waker was scheduled to be woken (with its tick and waker), if
/// one was; and, where the timer was waiting with a waker kept, what
/// `Waker::will_wake` answered for that waker and the polling one.
pub struct Polled {
    pub fired: Option<Instant>,
    pub scheduled: Option<Scheduled>,
    pub compared: Option<WakeCheck>,
}

/// A future or stream that emits timed events.
pub struct Timer {
    when: Option<Instant>,
    period: Duration,
    waker: Option<KeptWaker>,
}

impl Timer {
    /// The instant at which the timer fires next, if any.
    pub closed spec fn deadline(self) -> Option<Instant> {
        self.when
    }

    /// The period after which the timer fires again.
    pub closed spec fn period_of(self) -> Duration {
        self.period
    }

    /// The waker of the task that waits on the timer, if any.
    pub closed spec fn waker_of(self) -> Option<Waker> {
        match self.waker {
            Some(k) => Some(k.waker_spec()),
            None => None,
        }
    }

    /// The waker from which the kept one was made (itself, or the one it
    /// clones), if one is kept.
    pub closed spec fn waker_source(self) -> Option<Waker> {
        match self.waker {
            Some(k) => Some(k.source()),
            None => None,
        }
    }

    /// The instants and the period are well formed.
    pub open spec fn wf(self) -> bool {
        &&& self.period_of().wf()
        &&& (self.deadline() matches Some(w) ==> w.wf())
    }

    /// The timer has an instant, and it is not later than `now`.
    pub open spec fn is_due(self, now: Instant) -> bool {
        self.deadline() matches Some(w) && w@ <= now@
    }

    /// The timer has an instant, and it is later than `now`.
    pub open spec fn is_waiting(self, now: Instant) -> bool {
        self.deadline() matches Some(w) && w@ > now@
    }

    /// The state of a timer that never fires: no instant, the longest period,
    /// no waker.
    pub open spec fn is_never(self) -> bool {
        self.is_disarmed(None)
    }

    /// The state of a timer that does not fire, with the longest period, and
    /// `waker` kept.
    pub open spec fn is_disarmed(self, waker: Option<Waker>) -> bool {
        &&& self.deadline() is None
        &&& self.period_of()@ == max_duration_nanos()
        &&& self.waker_of() == waker
    }

    /// The state of a timer set to fire at the instant `start` (in nanoseconds)
    /// and every `period` after it, with `waker` kept, where `clock` gives that
    /// instant a tick; else a timer that does not fire, with `waker` kept.
    pub open spec fn is_set_for(
        self,
        clock: TickClock,
        start: int,
        period: Duration,
        waker: Option<Waker>,
    ) -> bool {
        if clock.tick_spec(start) is Some {
            &&& self.deadline() is Some
            &&& self.deadline().unwrap()@ == start
            &&& self.period_of() == period
            &&& self.waker_of() == waker
        } else {
            self.is_disarmed(waker)
        }
    }

    /// The state of a timer set to fire `span` after the clock's instant (and
    /// every `period` after it): not firing, with `waker` kept, where that lies
    /// beyond the latest instant.
    pub open spec fn is_set_after(
        self,
        clock: TickClock,
        span: Duration,
        period: Duration,
        waker: Option<Waker>,
    ) -> bool {
        let start = clock.now_spec()@ + span@;
        if start <= max_instant_nanos() {
            self.is_set_for(clock, start, period, waker)
        } else {
            self.is_disarmed(waker)
        }
    }

    /// The tick at which a timer set for the instant `start` (in nanoseconds)
    /// schedules `waker`: the instant's tick, where it has one and there is a
    /// waker; else none, and nothing is scheduled.
    pub open spec fn scheduled_for(clock: TickClock, start: int, waker: Option<Waker>) -> Option<
        u64,
    > {
        if waker is Some {
            clock.tick_spec(start)
        } else {
            None
        }
    }

    /// The tick at which a timer set `span` after the clock's instant schedules
    /// `waker`; none where that instant lies beyond the latest one.
    pub open spec fn scheduled_after(clock: TickClock, span: Duration, waker: Option<Waker>) -> Option<
        u64,
    > {
        let start = clock.now_spec()@ + span@;
        if start <= max_instant_nanos() {
            Self::scheduled_for(clock, start, waker)
        } else {
            None
        }
    }

    /// Creates a timer that will never fire.
    pub fn never() -> (r: Timer)
        ensures
            r.wf(),
            r.is_never(),
    {
        Timer { when: None, period: Duration::maximum(), waker: None }
    }

    /// Creates a timer that emits an event once, `duration` after the clock's
    /// instant.
    pub fn after(clock: &TickClock, duration: Duration) -> (r: Timer)
        requires
            clock.wf(),
            duration.wf(),
        ensures
            r.wf(),
            r.is_set_after(*clock, duration, Duration::maximum_spec(), None),
    {
        match clock.now().checked_add(duration) {
            Some(start) => Timer::interval_at(clock, start, Duration::maximum()),
            None => Timer::never(),
        }
    }

    /// Creates a timer that emits an event once at `instant`.
    pub fn at(clock: &TickClock, instant: Instant) -> (r: Timer)
        requires
            clock.wf(),
            instant.wf(),
        ensures
            r.wf(),
            r.is_set_for(*clock, instant@, Duration::maximum_spec(), None),
    {
        Timer::interval_at(clock, instant, Duration::maximum())
    }

    /// Creates a timer that emits events periodically, first `period` after the
    /// clock's instant.
    pub fn interval(clock: &TickClock, period: Duration) -> (r: Timer)
        requires
            clock.wf(),
            period.wf(),
        ensures
            r.wf(),
            r.is_set_after(*clock, period, period, None),
    {
        match clock.now().checked_add(period) {
            Some(start) => Timer::interval_at(clock, start, period),
            None => Timer::never(),
        }
    }

    /// Creates a timer that emits events periodically, starting at `start`.
    pub fn interval_at(clock: &TickClock, start: Instant, period: Duration) -> (r: Timer)
        requires
            clock.wf(),
            start.wf(),
            period.wf(),
        ensures
            r.wf(),
            r.is_set_for(*clock, start@, period, None),
    {
        if clock.tick(&start).is_some() {
            Timer { when: Some(start), period, waker: None }
        } else {
            Timer::never()
        }
    }

    /// Indicates whether or not this timer will ever fire.
    pub fn will_fire(&self) -> (r: bool)
        ensures
            r == self.deadline() is Some,
    {
        self.when.is_some()
    }

    /// The instant at which the timer fires next, if any.
    pub fn when(&self) -> (r: Option<Instant>)
        ensures
            r == self.deadline(),
    {
        self.when
    }

    /// The period after which the timer fires again.
    pub fn period(&self) -> (r: Duration)
        ensures
            r == self.period_of(),
    {
        self.period
    }

    /// Sets the timer to emit an event once, `duration` after the clock's instant.
    /// Returns the evidence that the kept waker was scheduled, and at which tick, if it was.
    ///
    ///
    /// Unlike a new timer, it keeps the waker of the task that polls it, also
    /// where the instant lies beyond the latest one.
    pub fn set_after(&mut self, clock: &TickClock, duration: Duration) -> (scheduled: Option<Scheduled>)
        requires
            old(self).wf(),
            clock.wf(),
            duration.wf(),
        ensures
            final(self).wf(),
            final(self).is_set_after(*clock, duration, Duration::maximum_spec(), old(self).waker_of()),
            scheduled_tick(scheduled) == Self::scheduled_after(*clock, duration, old(self).waker_of()),
            scheduled is Some ==> scheduled_waker(scheduled) == old(self).waker_of(),
    {
        match clock.now().checked_add(duration) {
            Some(instant) => self.set_at(clock, instant),
            None => {
                self.disarm();
                None
            },
        }
    }

    /// Sets the timer to emit an event once at `instant`.
    /// Returns the evidence that the kept waker was scheduled, and at which tick, if it was.
    ///
    ///
    /// Unlike a new timer, it keeps the waker of the task that polls it, also
    /// where the instant has no tick; where the timer is armed, that waker is
    /// scheduled to be woken at the instant's tick.
    pub fn set_at(&mut self, clock: &TickClock, instant: Instant) -> (scheduled: Option<Scheduled>)
        requires
            old(self).wf(),
            clock.wf(),
            instant.wf(),
        ensures
            final(self).wf(),
            final(self).is_set_for(*clock, instant@, Duration::maximum_spec(), old(self).waker_of()),
            scheduled_tick(scheduled) == Self::scheduled_for(*clock, instant@, old(self).waker_of()),
            scheduled is Some ==> scheduled_waker(scheduled) == old(self).waker_of(),
    {
        self.set_interval_at(clock, instant, Duration::maximum())
    }

    /// Sets the timer to emit events periodically, first `period` after the
    /// clock's instant. Returns the evidence that the kept waker was scheduled, and
    /// at which tick, if it was.
    ///
    /// Unlike a new timer, it keeps the waker of the task that polls it, also
    /// where the first instant lies beyond the latest one.
    pub fn set_interval(&mut self, clock: &TickClock, period: Duration) -> (scheduled: Option<Scheduled>)
        requires
            old(self).wf(),
            clock.wf(),
            period.wf(),
        ensures
            final(self).wf(),
            final(self).is_set_after(*clock, period, period, old(self).waker_of()),
            scheduled_tick(scheduled) == Self::scheduled_after(*clock, period, old(self).waker_of()),
            scheduled is Some ==> scheduled_waker(scheduled) == old(self).waker_of(),
    {
        match clock.now().checked_add(period) {
            Some(instant) => self.set_interval_at(clock, instant, period),
            None => {
                self.disarm();
                None
            },
        }
    }

    /// Sets the timer to emit events periodically, starting at `start`.
    /// Returns the evidence that the kept waker was scheduled, and at which tick, if it was.
    ///
    ///
    /// Unlike a new timer, it keeps the waker of the task that polls it, also
    /// where the start has no tick; where the timer is armed, that waker is
    /// scheduled to be woken at the start's tick.
    pub fn set_interval_at(&mut self, clock: &TickClock, start: Instant, period: Duration) -> (scheduled:
        Option<Scheduled>)
        requires
            old(self).wf(),
            clock.wf(),
            start.wf(),
            period.wf(),
        ensures
            final(self).wf(),
            final(self).is_set_for(*clock, start@, period, old(self).waker_of()),
            scheduled_tick(scheduled) == Self::scheduled_for(*clock, start@, old(self).waker_of()),
            scheduled is Some ==> scheduled_waker(scheduled) == old(self).waker_of(),
    {
        match clock.tick(&start) {
            Some(t) => {
                self.when = Some(start);
                self.period = period;
                match &self.waker {
                    Some(kept) => Some(schedule_wake(t, kept.waker())),
                    None => None,
                }
            },
            None => {
                self.disarm();
                None
            },
        }
    }

    /// Stops the timer from firing, keeping the waker of the task that polls it.
    fn disarm(&mut self)
        requires
            old(self).wf(),
        ensures
            final(self).wf(),
            final(self).is_disarmed(old(self).waker_of()),
    {
        self.when = None;
        self.period = Duration::maximum();
    }

    fn set_never(&mut self)
        ensures
            final(self).wf(),
            final(self).is_never(),
    {
        self.when = None;
        self.waker = None;
        self.period = Duration::maximum();
    }

    /// What a poll leaves of a timer that is not due yet at the clock's instant,
    /// and the tick at which it scheduled the polling task's waker: where the
    /// timer's instant has a tick, it keeps its instant and period and holds a
    /// waker; either it keeps its old waker and schedules nothing, or it takes the
    /// polling one and schedules it at that tick (always, where it had none).
    /// Where the instant has no tick, it never fires and schedules nothing.
    pub open spec fn is_pending(old: Timer, new: Timer, clock: TickClock, scheduled: Option<u64>) -> bool {
        let tick = clock.tick_spec(old.deadline().unwrap()@);
        if tick is Some {
            &&& new.deadline() == old.deadline()
            &&& new.period_of() == old.period_of()
            &&& new.waker_of() is Some
            &&& (scheduled is None ==> new.waker_of() == old.waker_of())
            &&& (scheduled is Some ==> scheduled == tick)
            &&& (old.waker_of() is None ==> scheduled == tick)
        } else {
            new.is_never() && scheduled is None
        }
    }

    /// What `pend` leaves of a timer that is not due yet: where its instant has a
    /// tick, it keeps its instant and period; `polling` replaces the kept waker and
    /// is scheduled at that tick, unless a waker is kept and `same_task` says that
    /// it wakes the same task, where the waker stays and nothing is scheduled.
    /// Where the instant has no tick, the timer never fires and nothing is
    /// scheduled.
    pub open spec fn is_pended(
        old: Timer,
        new: Timer,
        clock: TickClock,
        polling: Waker,
        same_task: bool,
        scheduled: Option<u64>,
    ) -> bool {
        let tick = clock.tick_spec(old.deadline().unwrap()@);
        if tick is Some {
            &&& new.deadline() == old.deadline()
            &&& new.period_of() == old.period_of()
            &&& if old.waker_of() is None || !same_task {
                new.waker_of() == Some(polling) && scheduled == tick
            } else {
                new.waker_of() == old.waker_of() && scheduled is None
            }
        } else {
            new.is_never() && scheduled is None
        }
    }

    /// Arranges for the task whose waker is `polling` to be woken when a timer
    /// that is not due yet at the clock's instant fires. `same_task` is whether
    /// the waker kept now wakes the same task as `polling` (what
    /// `Waker::will_wake` answers). Returns the evidence that `polling` was
    /// scheduled, and at which tick, if it was.
    pub fn pend(&mut self, clock: &TickClock, polling: Waker, same_task: bool) -> (scheduled: Option<
        Scheduled,
    >)
        requires
            old(self).wf(),
            clock.wf(),
            old(self).is_waiting(clock.now_spec()),
        ensures
            final(self).wf(),
            Self::is_pended(*old(self), *final(self), *clock, polling, same_task, scheduled_tick(scheduled)),
            scheduled is Some ==> scheduled_waker(scheduled) == Some(polling),
    {
        let when = match self.when {
            Some(w) => w,
            None => return None,
        };
        match clock.tick(&when) {
            Some(t) => {
                let keep = match &self.waker {
                    Some(_) => same_task,
                    None => false,
                };
                if keep {
                    None
                } else {
                    let scheduled = schedule_wake(t, &polling);
                    self.waker = Some(KeptWaker::own(polling));
                    Some(scheduled)
                }
            },
            None => {
                self.set_never();
                None
            },
        }
    }

    /// What a poll on behalf of the task whose waker is `waker` leaves of a timer
    /// that is not due yet at the clock's instant, where `compared` is what the
    /// poll asked `Waker::will_wake` and `scheduled` what it handed the timer
    /// queue. Where the timer's instant has a tick, the kept waker, if any, is
    /// compared with `waker`. Where they were found to wake the same task, the
    /// timer stays as it was and nothing is scheduled; else the timer keeps its
    /// instant and period, holds a waker made from `waker`, and `waker` is
    /// scheduled at that tick. Where the instant has no tick, the timer never
    /// fires, and nothing is compared or scheduled.
    pub open spec fn is_polled(
        old: Timer,
        new: Timer,
        clock: TickClock,
        waker: Waker,
        compared: Option<WakeCheck>,
        scheduled: Option<Scheduled>,
    ) -> bool {
        let tick = clock.tick_spec(old.deadline().unwrap()@);
        if tick is Some {
            &&& is_check_of(compared, old.waker_of(), waker)
            &&& if answered_same(compared) {
                new == old && scheduled is None
            } else {
                &&& new.deadline() == old.deadline()
                &&& new.period_of() == old.period_of()
                &&& new.waker_source() == Some(waker)
                &&& scheduled_tick(scheduled) == tick
                &&& scheduled_waker(scheduled) == Some(waker)
            }
        } else {
            new.is_never() && scheduled is None && compared is None
        }
    }

    /// Checks the timer at the clock's instant on behalf of the task whose waker
    /// is `waker`: the instant at which it fired, if it is due. Where it is not due
    /// yet, a clone of the task's waker is kept and the waker scheduled for the
    /// timer's tick, unless the waker kept before wakes the same task.
    fn fired_at(&mut self, clock: &TickClock, waker: &Waker) -> (r: Polled)
        requires
            old(self).wf(),
            clock.wf(),
        ensures
            final(self).wf(),
            old(self).deadline() is None ==> (r.fired is None && r.scheduled is None
                && r.compared is None) && *final(self) == *old(self),
            old(self).is_due(clock.now_spec()) ==> (r.fired == old(self).deadline()
                && r.scheduled is None && r.compared is None) && *final(self) == *old(self),
            old(self).is_waiting(clock.now_spec()) ==> (r.fired is None) && Self::is_pending(
                *old(self),
                *final(self),
                *clock,
                scheduled_tick(r.scheduled),
            ) && Self::is_polled(*old(self), *final(self), *clock, *waker, r.compared, r.scheduled),
    {
        let when = match self.when {
            Some(w) => w,
            None => return Polled { fired: None, scheduled: None, compared: None },
        };
        if when.is_after(&clock.now()) {
            match clock.tick(&when) {
                Some(t) => {
                    let compared = match &self.waker {
                        Some(kept) => Some(will_wake(kept.waker(), waker)),
                        None => None,
                    };
                    let keep = match &compared {
                        Some(c) => c.is_same_task(),
                        None => false,
                    };
                    if keep {
                        Polled { fired: None, scheduled: None, compared }
                    } else {
                        self.waker = Some(clone_waker(waker));
                        let scheduled = schedule_wake(t, waker);
                        Polled { fired: None, scheduled: Some(scheduled), compared }
                    }
                },
                None => {
                    self.set_never();
                    Polled { fired: None, scheduled: None, compared: None }
                },
            }
        } else {
            Polled { fired: Some(when), scheduled: None, compared: None }
        }
    }

    /// Polls the timer as a future at the clock's instant, on behalf of the task
    /// whose waker is `waker`: the instant at which it fired (after which it never
    /// fires again), or none while it is not due; the evidence that the task's
    /// waker was scheduled, if it was; and what the kept waker was found to be.
    pub fn poll(&mut self, clock: &TickClock, waker: &Waker) -> (r: Polled)
        requires
            old(self).wf(),
            clock.wf(),
        ensures
            final(self).wf(),
            old(self).deadline() is None ==> (r.fired is None && r.scheduled is None
                && r.compared is None) && *final(self) == *old(self),
            old(self).is_due(clock.now_spec()) ==> (r.fired == old(self).deadline()
                && r.scheduled is None && r.compared is None) && final(self).is_never(),
            old(self).is_waiting(clock.now_spec()) ==> (r.fired is None) && Self::is_pending(
                *old(self),
                *final(self),
                *clock,
                scheduled_tick(r.scheduled),
            ) && Self::is_polled(*old(self), *final(self), *clock, *waker, r.compared, r.scheduled),
            r.fired matches Some(w) ==> (w@ <= clock.now_spec()@ && old(self).deadline() == Some(w)),
    {
        let r = self.fired_at(clock, waker);
        if r.fired.is_some() {
            self.set_never();
        }
        r
    }

    /// Polls the timer as a stream at the clock's instant, on behalf of the task
    /// whose waker is `waker`: the instant at which it fired, after which it is set
    /// to fire one period later; or none while it is not due. Also the evidence
    /// that a waker was scheduled, with its tick: the task's while the timer is
    /// pending, the kept one where the timer was set to fire again; and what the
    /// kept waker was found to be while the timer is pending.
    pub fn poll_next(&mut self, clock: &TickClock, waker: &Waker) -> (r: Polled)
        requires
            old(self).wf(),
            clock.wf(),
        ensures
            final(self).wf(),
            old(self).deadline() is None ==> (r.fired is None && r.scheduled is None
                && r.compared is None) && *final(self) == *old(self),
            old(self).is_due(clock.now_spec()) ==> r.fired == old(self).deadline()
                && r.compared is None
                && Self::is_rearmed(*old(self), *final(self), *clock)
                && scheduled_tick(r.scheduled) == Self::rearm_scheduled(*old(self), *clock)
                && (r.scheduled is Some ==> scheduled_waker(r.scheduled) == old(self).waker_of()),
            old(self).is_waiting(clock.now_spec()) ==> (r.fired is None) && Self::is_pending(
                *old(self),
                *final(self),
                *clock,
                scheduled_tick(r.scheduled),
            ) && Self::is_polled(*old(self), *final(self), *clock, *waker, r.compared, r.scheduled),
            r.fired matches Some(w) ==> (w@ <= clock.now_spec()@ && old(self).deadline() == Some(w)),
    {
        let r = self.fired_at(clock, waker);
        let when = match r.fired {
            Some(w) => w,
            None => return r,
        };
        let period = self.period;
        let scheduled = match when.checked_add(period) {
            Some(next) => self.set_interval_at(clock, next, period),
            None => {
                self.set_never();
                None
            },
        };
        Polled { fired: Some(when), scheduled, compared: None }
    }

    /// The tick at which firing as a stream schedules the kept waker: that of the
    /// instant one period after the one at which the timer fired.
    pub open spec fn rearm_scheduled(old: Timer, clock: TickClock) -> Option<u64> {
        let next = old.deadline().unwrap()@ + old.period_of()@;
        if next <= max_instant_nanos() {
            Self::scheduled_for(clock, next, old.waker_of())
        } else {
            None
        }
    }

    /// What firing as a stream leaves of a timer: set to fire one period after
    /// the instant at which it fired, keeping its period and waker (or never,
    /// where that lies beyond the latest instant or has no tick).
    pub open spec fn is_rearmed(old: Timer, new: Timer, clock: TickClock) -> bool {
        let next = old.deadline().unwrap()@ + old.period_of()@;
        if next <= max_instant_nanos() {
            new.is_set_for(clock, next, old.period_of(), old.waker_of())
        } else {
            new.is_never()
        }
    }
}


/// A poll of a waiting timer whose instant has a tick, made on behalf of the
/// task whose waker is `waker` (`new` and `r` being what `poll` or `poll_next`
/// leaves and gives): the kept waker, if any, is what was compared with `waker`.
/// Where none was kept, or `Waker::will_wake` did not find it to wake the same
/// task, the timer then holds a waker made from `waker`, and `waker` itself is
/// scheduled at the tick of the timer's instant, which stays. Where it found the
/// same task, nothing changes and nothing is scheduled.
pub proof fn law_poll_wakes_the_poller(
    old: Timer,
    new: Timer,
    clock: TickClock,
    waker: Waker,
    r: Polled,
)
    requires
        old.is_waiting(clock.now_spec()),
        clock.tick_spec(old.deadline().unwrap()@) is Some,
        Timer::is_polled(old, new, clock, waker, r.compared, r.scheduled),
    ensures
        old.waker_of() is None ==> r.compared is None,
        old.waker_of() matches Some(k) ==> (r.compared matches Some(c) && c.kept() == k
            && c.polling() == waker),
        (old.waker_of() is None || (r.compared matches Some(c) && !c.same_task())) ==> ({
            &&& new.deadline() == old.deadline()
            &&& new.waker_source() == Some(waker)
            &&& r.scheduled matches Some(s)
            &&& s.waker_spec() == waker
            &&& Some(s.tick_spec()) == clock.tick_spec(old.deadline().unwrap()@)
        }),
        (r.compared matches Some(c) && c.same_task()) ==> (new == old && r.scheduled is None),
{
}

/// A timer made to fire `span` after a clock reading, polled at that reading
/// (with `span` not zero, so that it waits), schedules the polling task's waker
/// at the clock's tick count plus the ticks in `span`, where that fits.
pub proof fn law_first_poll_schedules_span_later(
    t: Timer,
    clock: TickClock,
    span: Duration,
    period: Duration,
    new: Timer,
    waker: Waker,
    r: Polled,
)
    requires
        clock.wf(),
        span.wf(),
        span@ > 0,
        clock.now_spec()@ + span@ <= max_instant_nanos(),
        t.is_set_after(clock, span, period, None),
        duration_ticks_spec(span@, clock.hz_spec() as int) matches Some(d) && clock.ticks_spec() + d
            <= u64::MAX,
        Timer::is_polled(t, new, clock, waker, r.compared, r.scheduled),
    ensures
        r.scheduled matches Some(s) && s.waker_spec() == waker && s.tick_spec()
            == clock.ticks_spec() + duration_ticks_spec(span@, clock.hz_spec() as int).unwrap(),
        new.waker_source() == Some(waker),
{
    law_clock_ticks_from_its_count(clock, span);
}

} // verus!
