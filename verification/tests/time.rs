use async_io_mini::time::{Duration, Instant};

#[test]
fn duration_from_secs_and_millis() {
    let d = Duration::from_secs(3);
    assert_eq!(d.as_secs(), 3);
    assert_eq!(d.subsec_nanos(), 0);
    let m = Duration::from_millis(1_500);
    assert_eq!(m.as_secs(), 1);
    assert_eq!(m.subsec_nanos(), 500_000_000);
}

#[test]
fn duration_new_carries_nanos() {
    let d = Duration::new(1, 2_500_000_000);
    assert_eq!(d.as_secs(), 3);
    assert_eq!(d.subsec_nanos(), 500_000_000);
}

#[test]
fn duration_maximum_and_zero() {
    let max = Duration::maximum();
    assert_eq!(max.as_secs(), u64::MAX);
    assert_eq!(max.subsec_nanos(), 999_999_999);
    assert_eq!(Duration::zero().as_secs(), 0);
}

#[test]
fn instant_checked_add_carries() {
    let t = Instant::new(10, 700_000_000);
    let u = t.checked_add(Duration::from_millis(500)).unwrap();
    assert_eq!(u.secs(), 11);
    assert_eq!(u.subsec_nanos(), 200_000_000);
}

#[test]
fn instant_checked_add_overflows_to_none() {
    let t = Instant::new(i64::MAX, 0);
    assert!(t.checked_add(Duration::from_secs(1)).is_none());
    assert!(t.checked_add(Duration::from_millis(999)).is_some());
    assert!(Instant::new(0, 1).checked_add(Duration::maximum()).is_none());
}

#[test]
fn instant_checked_add_from_negative() {
    let t = Instant::new(-2, 500_000_000);
    let u = t.checked_add(Duration::from_secs(3)).unwrap();
    assert_eq!(u.secs(), 1);
    assert_eq!(u.subsec_nanos(), 500_000_000);
}

#[test]
fn instant_duration_since_and_saturation() {
    let a = Instant::new(5, 100_000_000);
    let b = Instant::new(3, 900_000_000);
    let d = a.duration_since(&b);
    assert_eq!(d.as_secs(), 1);
    assert_eq!(d.subsec_nanos(), 200_000_000);
    let back = b.duration_since(&a);
    assert_eq!(back, Duration::zero());
}

#[test]
fn instant_duration_since_spans_the_whole_range() {
    let a = Instant::new(i64::MAX, 999_999_999);
    let b = Instant::new(i64::MIN, 0);
    let d = a.duration_since(&b);
    assert_eq!(d.as_secs(), u64::MAX);
    assert_eq!(d.subsec_nanos(), 999_999_999);
}

#[test]
fn instant_order() {
    let a = Instant::new(1, 5);
    let b = Instant::new(1, 6);
    assert!(b.is_after(&a));
    assert!(!a.is_after(&b));
    assert!(!a.is_after(&a));
    assert!(a.is_not_before(&a));
    assert!(!a.is_not_before(&b));
    assert!(Instant::new(0, 0).is_after(&Instant::new(-1, 999_999_999)));
}
