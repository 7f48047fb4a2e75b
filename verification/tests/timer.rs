use std::sync::atomic::{AtomicUsize, Ordering};
use std::sync::Arc;
use std::task::{Wake, Waker};

use async_io_mini::time::{Duration, Instant};
use async_io_mini::timer::{duration_ticks, tick_at, TickClock, Timer};

/// Brings in the std time driver and timer queue that the timer schedules on.
fn time_driver() {
    let _ = embassy_time::Instant::now();
}

/// A reading at `now`, where the driver counted 1_000 ticks at a million per second.
fn clock(now: Instant) -> TickClock {
    TickClock::new(now, 1_000, 1_000_000)
}

struct Counter(AtomicUsize);

impl Wake for Counter {
    fn wake(self: Arc<Self>) {
        self.0.fetch_add(1, Ordering::SeqCst);
    }
}

#[test]
fn duration_ticks_whole_and_fractional_seconds() {
    assert_eq!(duration_ticks(&Duration::from_secs(2), 1_000_000), Some(2_000_000));
    assert_eq!(duration_ticks(&Duration::from_millis(1_500), 1_000_000), Some(1_500_000));
    assert_eq!(duration_ticks(&Duration::new(0, 999_999_999), 32_768), Some(32_767));
    assert_eq!(duration_ticks(&Duration::new(1, 1), 1), Some(1));
}

#[test]
fn duration_ticks_overflow() {
    assert_eq!(duration_ticks(&Duration::maximum(), 1_000_000), None);
    assert_eq!(duration_ticks(&Duration::maximum(), 1), Some(u64::MAX));
    assert_eq!(duration_ticks(&Duration::from_secs(u64::MAX / 1000 + 1), 1000), None);
}

#[test]
fn tick_at_later_instant_adds() {
    let now = Instant::new(100, 0);
    let later = Instant::new(101, 250_000_000);
    assert_eq!(tick_at(&later, &now, 5_000, 1_000), Some(6_250));
    assert_eq!(tick_at(&now, &now, 5_000, 1_000), Some(5_000));
}

#[test]
fn tick_at_earlier_instant_subtracts_and_saturates() {
    let now = Instant::new(100, 0);
    let earlier = Instant::new(98, 0);
    assert_eq!(tick_at(&earlier, &now, 5_000, 1_000), Some(3_000));
    assert_eq!(tick_at(&earlier, &now, 1_000, 1_000), Some(0));
}

#[test]
fn tick_at_overflow_is_none() {
    let now = Instant::new(0, 0);
    let later = Instant::new(1, 0);
    assert_eq!(tick_at(&later, &now, u64::MAX - 10, 1_000), None);
    assert_eq!(tick_at(&later, &now, u64::MAX - 1_000, 1_000), Some(u64::MAX));
    let far = Instant::new(i64::MIN, 0);
    assert_eq!(tick_at(&far, &Instant::new(i64::MAX, 0), 7, 5_242_880_000), None);
}

#[test]
fn never_does_not_fire() {
    let t = Timer::never();
    assert!(!t.will_fire());
    assert_eq!(t.period(), Duration::maximum());
    assert_eq!(t.when(), None);
}

#[test]
fn after_a_second_will_fire() {
    time_driver();
    let now = Instant::new(1_000, 0);
    let t = Timer::after(&clock(now), Duration::from_secs(1));
    assert!(t.will_fire());
    assert_eq!(t.when(), Some(Instant::new(1_001, 0)));
    assert_eq!(t.period(), Duration::maximum());
}

#[test]
fn after_maximum_never_fires() {
    time_driver();
    let now = Instant::new(1_000, 0);
    assert!(!Timer::after(&clock(now), Duration::maximum()).will_fire());
}

#[test]
fn at_now_will_fire() {
    time_driver();
    let now = Instant::new(-5, 123);
    let t = Timer::at(&clock(now), now);
    assert!(t.will_fire());
    assert_eq!(t.when(), Some(now));
}

#[test]
fn at_far_past_never_fires() {
    time_driver();
    let now = Instant::new(i64::MAX, 0);
    let t = Timer::at(&clock(now), Instant::new(i64::MIN, 0));
    assert!(!t.will_fire());
}

#[test]
fn interval_and_interval_at() {
    time_driver();
    let now = Instant::new(50, 0);
    let t = Timer::interval(&clock(now), Duration::from_secs(2));
    assert_eq!(t.when(), Some(Instant::new(52, 0)));
    assert_eq!(t.period(), Duration::from_secs(2));
    let u = Timer::interval_at(&clock(now), Instant::new(40, 0), Duration::from_millis(10));
    assert_eq!(u.when(), Some(Instant::new(40, 0)));
    assert_eq!(u.period(), Duration::from_millis(10));
}

#[test]
fn after_timer_fires_once() {
    time_driver();
    let waker = Waker::noop();
    let start = Instant::new(10, 0);
    let mut t = Timer::after(&clock(start), Duration::from_secs(1));
    assert_eq!(t.poll(&clock(Instant::new(10, 500_000_000)), waker).fired, None);
    assert!(t.will_fire());
    assert_eq!(t.poll(&clock(Instant::new(11, 0)), waker).fired, Some(Instant::new(11, 0)));
    assert!(!t.will_fire());
    assert_eq!(t.poll(&clock(Instant::new(20, 0)), waker).fired, None);
}

#[test]
fn interval_timer_fires_periodically() {
    time_driver();
    let waker = Waker::noop();
    let start = Instant::new(0, 0);
    let mut t = Timer::interval(&clock(start), Duration::from_secs(1));
    assert!(t.will_fire());
    assert_eq!(t.poll_next(&clock(Instant::new(1, 0)), waker).fired, Some(Instant::new(1, 0)));
    assert!(t.will_fire());
    assert_eq!(t.when(), Some(Instant::new(2, 0)));
    assert_eq!(t.poll_next(&clock(Instant::new(1, 500)), waker).fired, None);
    assert_eq!(t.poll_next(&clock(Instant::new(5, 0)), waker).fired, Some(Instant::new(2, 0)));
    assert_eq!(t.when(), Some(Instant::new(3, 0)));
}

#[test]
fn once_timer_as_stream_stops_at_the_end_of_time() {
    time_driver();
    let waker = Waker::noop();
    let now = Instant::new(3, 0);
    let mut t = Timer::at(&clock(now), now);
    assert_eq!(t.poll_next(&clock(now), waker).fired, Some(now));
    assert!(!t.will_fire());
}

#[test]
fn set_after_overflow_never_fires() {
    time_driver();
    let now = Instant::new(1, 0);
    let mut t = Timer::after(&clock(now), Duration::from_secs(1));
    t.set_after(&clock(now), Duration::maximum());
    assert!(!t.will_fire());
    assert_eq!(t.period(), Duration::maximum());
}

#[test]
fn set_at_and_set_interval() {
    time_driver();
    let now = Instant::new(1, 0);
    let mut t = Timer::never();
    t.set_at(&clock(now), Instant::new(7, 0));
    assert_eq!(t.when(), Some(Instant::new(7, 0)));
    assert_eq!(t.period(), Duration::maximum());
    t.set_interval(&clock(now), Duration::from_millis(250));
    assert_eq!(t.when(), Some(Instant::new(1, 250_000_000)));
    assert_eq!(t.period(), Duration::from_millis(250));
    t.set_interval_at(&clock(now), Instant::new(4, 0), Duration::from_secs(3));
    assert_eq!(t.when(), Some(Instant::new(4, 0)));
    assert_eq!(t.period(), Duration::from_secs(3));
    t.set_after(&clock(now), Duration::from_secs(2));
    assert_eq!(t.when(), Some(Instant::new(3, 0)));
    assert_eq!(t.period(), Duration::maximum());
}

#[test]
fn pending_poll_keeps_the_waker_and_reset_keeps_it_too() {
    time_driver();
    let counter = Arc::new(Counter(AtomicUsize::new(0)));
    let waker = Waker::from(counter.clone());
    let now = Instant::new(0, 0);
    let mut t = Timer::after(&clock(now), Duration::from_secs(3600));
    assert_eq!(t.poll(&clock(now), &waker).fired, None);
    t.set_after(&clock(now), Duration::from_secs(7200));
    assert!(t.will_fire());
    assert_eq!(t.poll(&clock(Instant::new(7200, 0)), &waker).fired, Some(Instant::new(7200, 0)));
    assert!(!t.will_fire());
    assert_eq!(counter.0.load(Ordering::SeqCst), 0);
}

#[test]
fn after_is_refused_where_the_drivers_ticks_would_overflow() {
    let now = Instant::new(10, 0);
    let late = TickClock::new(now, u64::MAX - 10, 1_000_000);
    let t = Timer::after(&late, Duration::from_secs(1));
    assert!(!t.will_fire());
    assert_eq!(t.period(), Duration::maximum());
    let past = Timer::at(&late, Instant::new(9, 0));
    assert_eq!(past.when(), Some(Instant::new(9, 0)));
}

#[test]
fn tick_clock_maps_instants_to_ticks() {
    let c = TickClock::new(Instant::new(20, 0), 500, 100);
    assert_eq!(c.now(), Instant::new(20, 0));
    assert_eq!(c.tick(&Instant::new(21, 500_000_000)), Some(650));
    assert_eq!(c.tick(&Instant::new(15, 0)), Some(0));
    assert_eq!(c.tick(&Instant::new(19, 990_000_000)), Some(499));
}

#[test]
fn tick_clock_read_pairs_the_reading_with_the_driver() {
    time_driver();
    let now = Instant::new(42, 7);
    let c = TickClock::read(now);
    assert_eq!(c.now(), now);
    assert!(Timer::at(&c, now).will_fire());
    assert!(Timer::at(&c, Instant::new(41, 0)).will_fire());
}

#[test]
fn poll_of_a_timer_whose_tick_is_refused_never_fires() {
    time_driver();
    let waker = Waker::noop();
    let mut t = Timer::after(&clock(Instant::new(0, 0)), Duration::from_secs(10));
    assert!(t.will_fire());
    let late = TickClock::new(Instant::new(1, 0), u64::MAX, 1_000_000);
    assert_eq!(t.poll(&late, waker).fired, None);
    assert!(!t.will_fire());
}

#[test]
fn timer_for_a_passed_instant_fires_at_the_first_poll() {
    let now = Instant::new(30, 0);
    let mut t = Timer::at(&clock(now), Instant::new(29, 0));
    assert_eq!(t.poll(&clock(now), Waker::noop()).fired, Some(Instant::new(29, 0)));
    assert!(!t.will_fire());
}

#[test]
fn reset_to_the_longest_span_keeps_the_polling_waker() {
    time_driver();
    let counter = Arc::new(Counter(AtomicUsize::new(0)));
    let waker = Waker::from(counter.clone());
    let now = Instant::new(100, 0);
    let mut t = Timer::after(&TickClock::read(now), Duration::from_secs(3600));
    assert_eq!(t.poll(&TickClock::read(now), &waker).fired, None);
    t.set_after(&TickClock::read(now), Duration::maximum());
    assert!(!t.will_fire());
    assert_eq!(t.period(), Duration::maximum());
    // Re-arming for a passed instant has the queue wake the kept waker at once.
    t.set_at(&TickClock::read(now), Instant::new(99, 0));
    assert!(t.will_fire());
    assert!(counter.0.load(Ordering::SeqCst) > 0);
}

#[test]
fn reset_at_an_instant_without_a_tick_keeps_the_polling_waker() {
    time_driver();
    let counter = Arc::new(Counter(AtomicUsize::new(0)));
    let waker = Waker::from(counter.clone());
    let now = Instant::new(100, 0);
    let mut t = Timer::after(&TickClock::read(now), Duration::from_secs(3600));
    assert_eq!(t.poll(&TickClock::read(now), &waker).fired, None);
    t.set_interval_at(&TickClock::read(now), Instant::new(i64::MAX, 0), Duration::from_secs(1));
    assert!(!t.will_fire());
    t.set_at(&TickClock::read(now), Instant::new(99, 0));
    assert!(counter.0.load(Ordering::SeqCst) > 0);
}

#[test]
fn pending_poll_schedules_the_deadlines_tick_once_per_task() {
    time_driver();
    let (_a, a) = {
        let counter = Arc::new(Counter(AtomicUsize::new(0)));
        let waker = Waker::from(counter.clone());
        (counter, waker)
    };
    let (_b, b) = {
        let counter = Arc::new(Counter(AtomicUsize::new(0)));
        let waker = Waker::from(counter.clone());
        (counter, waker)
    };
    let now = Instant::new(10, 0);
    let mut t = Timer::after(&clock(now), Duration::from_secs(2));
    let first = t.poll(&clock(now), &a);
    assert_eq!(first.fired, None);
    assert_eq!(first.scheduled.map(|s| s.tick()), Some(1_000 + 2_000_000));
    let again = t.poll(&clock(now), &a);
    assert_eq!(again.scheduled.map(|s| s.tick()), None);
    let other = t.poll(&clock(Instant::new(11, 0)), &b);
    assert_eq!(other.scheduled.map(|s| s.tick()), Some(1_000 + 1_000_000));
    let fired = t.poll(&clock(Instant::new(12, 0)), &b);
    assert_eq!(fired.fired, Some(Instant::new(12, 0)));
    assert_eq!(fired.scheduled.map(|s| s.tick()), None);
}

#[test]
fn setters_report_the_tick_of_the_kept_waker() {
    time_driver();
    let now = Instant::new(10, 0);
    let mut bare = Timer::never();
    assert_eq!(
        bare.set_at(&clock(now), Instant::new(11, 0)).map(|s| s.tick()), None);
    let mut t = Timer::after(&clock(now), Duration::from_secs(100));
    t.poll(&clock(now), Waker::noop());
    assert_eq!(
        t.set_at(&clock(now), Instant::new(11, 0)).map(|s| s.tick()), Some(1_000 + 1_000_000));
    assert_eq!(
        t.set_after(&clock(now), Duration::from_millis(500)).map(|s| s.tick()), Some(1_000 + 500_000));
    assert_eq!(
        t.set_interval(&clock(now), Duration::from_secs(3)).map(|s| s.tick()), Some(1_000 + 3_000_000));
    assert_eq!(
        t.set_interval_at(&clock(now), Instant::new(9, 0), Duration::from_secs(1)).map(|s| s.tick()),
        Some(0)
    );
    assert_eq!(
        t.set_after(&clock(now), Duration::maximum()).map(|s| s.tick()), None);
    assert_eq!(
        t.set_interval_at(&clock(now), Instant::new(i64::MAX, 0), Duration::from_secs(1)).map(|s| s.tick()), None);
}

#[test]
fn stream_rearm_schedules_the_next_tick() {
    time_driver();
    let start = Instant::new(0, 0);
    let mut t = Timer::interval(&clock(start), Duration::from_secs(1));
    assert_eq!(t.poll_next(&clock(start), Waker::noop()).scheduled.map(|s| s.tick()), Some(1_000 + 1_000_000));
    let fired = t.poll_next(&clock(Instant::new(1, 0)), Waker::noop());
    assert_eq!(fired.fired, Some(Instant::new(1, 0)));
    assert_eq!(fired.scheduled.map(|s| s.tick()), Some(1_000 + 1_000_000));
}

#[test]
fn ticks_keep_the_order_of_instants() {
    let now = Instant::new(100, 0);
    let instants = [
        Instant::new(97, 0),
        Instant::new(99, 999_999_999),
        Instant::new(100, 0),
        Instant::new(100, 1),
        Instant::new(103, 500_000_000),
    ];
    let ticks: Vec<u64> = instants.iter().map(|i| tick_at(i, &now, 2_000, 1_000).unwrap()).collect();
    assert_eq!(ticks, vec![0, 2_000, 2_000, 2_000, 5_500]);
    assert!(ticks.windows(2).all(|w| w[0] <= w[1]));
}

#[test]
fn pend_replaces_the_waker_unless_it_is_the_same_task() {
    let (_a, a) = {
        let counter = Arc::new(Counter(AtomicUsize::new(0)));
        let waker = Waker::from(counter.clone());
        (counter, waker)
    };
    time_driver();
    let now = Instant::new(10, 0);
    let mut t = Timer::after(&clock(now), Duration::from_secs(1));
    assert_eq!(t.pend(&clock(now), a.clone(), true).map(|s| s.tick()), Some(1_001_000));
    assert_eq!(t.pend(&clock(now), a.clone(), true).map(|s| s.tick()), None);
    assert_eq!(t.pend(&clock(now), Waker::noop().clone(), false).map(|s| s.tick()), Some(1_001_000));
    let late = TickClock::new(now, u64::MAX, 1_000_000);
    assert!(t.pend(&late, a.clone(), false).is_none());
    assert!(!t.will_fire());
}
