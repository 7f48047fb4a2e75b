use std::sync::atomic::{AtomicUsize, Ordering};
use std::sync::Arc;
use std::task::{Wake, Waker};

use async_io_mini::reactor::{ErrorKind, Event, Fds, Registrations, MAX_REGISTRATIONS};

struct Counter(AtomicUsize);

impl Wake for Counter {
    fn wake(self: Arc<Self>) {
        self.0.fetch_add(1, Ordering::SeqCst);
    }
}

fn counting_waker() -> (Arc<Counter>, Waker) {
    let counter = Arc::new(Counter(AtomicUsize::new(0)));
    let waker = Waker::from(counter.clone());
    (counter, waker)
}

#[test]
fn register_refuses_bad_descriptors() {
    let mut regs = Registrations::new();
    assert_eq!(regs.register(-1), Err(ErrorKind::InvalidInput));
    assert_eq!(regs.register(libc::FD_SETSIZE as i32), Err(ErrorKind::OutOfMemory));
    assert_eq!(regs.register(3), Ok(()));
    assert_eq!(regs.register(3), Err(ErrorKind::InvalidInput));
    assert_eq!(regs.len(), 1);
}

#[test]
fn register_refuses_the_notification_descriptor() {
    let mut regs = Registrations::new();
    regs.attach_notification(9);
    assert_eq!(regs.event_fd(), Some(9));
    assert_eq!(regs.register(9), Err(ErrorKind::InvalidInput));
    assert_eq!(regs.detach_notification(), Some(9));
    assert_eq!(regs.event_fd(), None);
    assert_eq!(regs.register(9), Ok(()));
}

#[test]
fn register_refuses_beyond_capacity() {
    let mut regs = Registrations::new();
    for fd in 0..MAX_REGISTRATIONS as i32 {
        assert_eq!(regs.register(fd), Ok(()));
    }
    assert_eq!(regs.register(100), Err(ErrorKind::OutOfMemory));
    assert_eq!(regs.len(), MAX_REGISTRATIONS);
    assert_eq!(regs.deregister(5), Ok(()));
    assert_eq!(regs.register(100), Ok(()));
}

#[test]
fn deregister_unknown_is_not_found() {
    let mut regs = Registrations::new();
    assert_eq!(regs.deregister(4), Err(ErrorKind::NotFound));
    regs.register(4).unwrap();
    assert_eq!(regs.deregister(4), Ok(()));
    assert_eq!(regs.deregister(4), Err(ErrorKind::NotFound));
    assert_eq!(regs.len(), 0);
}

#[test]
fn register_then_deregister_restores() {
    let mut regs = Registrations::new();
    regs.register(1).unwrap();
    regs.register(2).unwrap();
    regs.register(7).unwrap();
    regs.deregister(7).unwrap();
    assert_eq!(regs.len(), 2);
    let mut fds = Fds::new();
    assert_eq!(regs.set_fds(&mut fds), Some(2));
}

#[test]
fn deregister_moves_the_last_into_place() {
    let mut regs = Registrations::new();
    regs.register(10).unwrap();
    regs.register(11).unwrap();
    regs.register(12).unwrap();
    regs.deregister(10).unwrap();
    assert_eq!(regs.len(), 2);
    assert_eq!(regs.fetch(12, Event::Read), Ok(false));
    assert_eq!(regs.fetch(11, Event::Read), Ok(false));
    assert_eq!(regs.fetch(10, Event::Read), Err(ErrorKind::NotFound));
}

#[test]
fn fetch_unknown_is_not_found() {
    let mut regs = Registrations::new();
    assert_eq!(regs.fetch(3, Event::Write), Err(ErrorKind::NotFound));
    assert!(matches!(regs.set(3, Event::Write, Waker::noop().clone()), Err(ErrorKind::NotFound)));
    assert!(matches!(regs.fetch_or_set(3, Event::Write, Waker::noop().clone()), Err(ErrorKind::NotFound)));
}

#[test]
fn set_fds_collects_waiting_directions_and_the_largest_descriptor() {
    let mut regs = Registrations::new();
    let mut fds = Fds::new();
    assert_eq!(regs.set_fds(&mut fds), None);
    regs.register(4).unwrap();
    regs.register(8).unwrap();
    regs.attach_notification(6);
    regs.set(4, Event::Read, Waker::noop().clone()).unwrap();
    regs.set(8, Event::Write, Waker::noop().clone()).unwrap();
    assert_eq!(regs.set_fds(&mut fds), Some(8));
    assert!(fds.is_set(6, Event::Read));
    assert!(fds.is_set(4, Event::Read));
    assert!(!fds.is_set(4, Event::Write));
    assert!(fds.is_set(8, Event::Write));
    assert!(!fds.is_set(8, Event::Read));
    assert_eq!(fds.fds(Event::Write), &[8]);
}

#[test]
fn set_fds_counts_descriptors_nobody_waits_on() {
    let mut regs = Registrations::new();
    regs.register(30).unwrap();
    regs.attach_notification(5);
    let mut fds = Fds::new();
    assert_eq!(regs.set_fds(&mut fds), Some(30));
    assert!(!fds.is_set(30, Event::Read));
    assert_eq!(fds.fds(Event::Read), &[5]);
}

#[test]
fn update_events_records_readiness_and_wakes() {
    let mut regs = Registrations::new();
    regs.register(3).unwrap();
    regs.register(4).unwrap();
    let (counter, waker) = counting_waker();
    assert!(matches!(regs.fetch_or_set(3, Event::Read, waker.clone()), Ok((false, None))));
    assert!(matches!(regs.fetch_or_set(4, Event::Write, waker.clone()), Ok((false, None))));
    let mut reported = Fds::new();
    reported.set(3, Event::Read);
    let taken = regs.update_events(&reported);
    assert_eq!(taken.len(), 1);
    assert!(taken[0].will_wake(&waker));
    for w in taken {
        w.wake();
    }
    assert_eq!(counter.0.load(Ordering::SeqCst), 1);
    assert_eq!(regs.fetch(3, Event::Read), Ok(true));
    assert_eq!(regs.fetch(3, Event::Read), Ok(false));
    assert_eq!(regs.fetch(4, Event::Write), Ok(false));
    let mut fds = Fds::new();
    regs.set_fds(&mut fds);
    assert!(!fds.is_set(3, Event::Read));
    assert!(fds.is_set(4, Event::Write));
}

#[test]
fn fetch_or_set_reports_readiness_without_waiting() {
    let mut regs = Registrations::new();
    regs.register(3).unwrap();
    let mut reported = Fds::new();
    reported.set(3, Event::Write);
    assert_eq!(regs.update_events(&reported).len(), 0);
    let (counter, waker) = counting_waker();
    assert!(matches!(regs.fetch_or_set(3, Event::Write, waker.clone()), Ok((true, None))));
    assert!(matches!(regs.fetch_or_set(3, Event::Write, waker.clone()), Ok((false, None))));
    assert_eq!(counter.0.load(Ordering::SeqCst), 0);
}

#[test]
fn set_hands_back_a_displaced_waker_of_another_task() {
    let mut regs = Registrations::new();
    regs.register(3).unwrap();
    let (_first, first_waker) = counting_waker();
    let (_second, second_waker) = counting_waker();
    assert!(matches!(regs.set(3, Event::Read, first_waker.clone()), Ok(None)));
    assert!(matches!(regs.set(3, Event::Read, first_waker.clone()), Ok(None)));
    let displaced = regs.set(3, Event::Read, second_waker.clone()).unwrap().unwrap();
    assert!(displaced.will_wake(&first_waker));
    assert!(!displaced.will_wake(&second_waker));
    assert!(matches!(regs.set(3, Event::Write, second_waker.clone()), Ok(None)));
}

#[test]
fn update_events_hands_back_wakers_in_registration_order() {
    let mut regs = Registrations::new();
    regs.register(5).unwrap();
    regs.register(6).unwrap();
    let (_a, a) = counting_waker();
    let (_b, b) = counting_waker();
    let (_c, c) = counting_waker();
    regs.set(5, Event::Write, a.clone()).unwrap();
    regs.set(6, Event::Read, b.clone()).unwrap();
    regs.set(6, Event::Write, c.clone()).unwrap();
    let mut reported = Fds::new();
    reported.set(6, Event::Write);
    reported.set(6, Event::Read);
    reported.set(5, Event::Write);
    let taken = regs.update_events(&reported);
    assert_eq!(taken.len(), 3);
    assert!(taken[0].will_wake(&a));
    assert!(taken[1].will_wake(&b));
    assert!(taken[2].will_wake(&c));
    assert_eq!(regs.update_events(&reported).len(), 0);
}

#[test]
fn fds_zero_and_set() {
    let mut fds = Fds::new();
    fds.set(2, Event::Read);
    fds.set(2, Event::Read);
    assert_eq!(fds.fds(Event::Read), &[2]);
    assert!(!fds.is_set(2, Event::Write));
    fds.zero();
    assert!(!fds.is_set(2, Event::Read));
}

#[test]
fn fds_hold_every_registration_and_the_notification() {
    let mut regs = Registrations::new();
    for fd in 0..MAX_REGISTRATIONS as i32 {
        regs.register(fd).unwrap();
        regs.set(fd, Event::Read, Waker::noop().clone()).unwrap();
    }
    regs.attach_notification(500);
    let mut fds = Fds::new();
    assert_eq!(regs.set_fds(&mut fds), Some(500));
    assert_eq!(fds.fds(Event::Read).len(), async_io_mini::reactor::FD_CAPACITY);
    assert!(fds.is_set(500, Event::Read));
    assert!(fds.is_set(19, Event::Read));
    assert!(!fds.set(7_000, Event::Read));
    assert!(fds.set(7, Event::Read));
    assert!(!fds.is_set(7_000, Event::Read));
    assert_eq!(fds.fds(Event::Read).len(), async_io_mini::reactor::FD_CAPACITY);
}

#[test]
fn arm_wakes_the_displaced_waker_unless_it_is_the_same_task() {
    let mut regs = Registrations::new();
    regs.register(3).unwrap();
    let (_a, a) = counting_waker();
    let (_b, b) = counting_waker();
    assert!(matches!(regs.arm(3, Event::Read, a.clone(), false), Ok(None)));
    assert!(matches!(regs.arm(3, Event::Read, b.clone(), true), Ok(None)));
    let displaced = regs.arm(3, Event::Read, a.clone(), false).unwrap().unwrap();
    assert!(displaced.will_wake(&b));
    assert!(matches!(regs.arm(9, Event::Read, a.clone(), false), Err(ErrorKind::NotFound)));
    let taken = {
        let mut reported = Fds::new();
        reported.set(3, Event::Read);
        regs.update_events(&reported)
    };
    assert_eq!(taken.len(), 1);
    assert!(taken[0].will_wake(&a));
}
