use sidecar_proxy::time::Duration;

#[test]
fn duration_from_parts() {
    let d = Duration::new(3, 500_000_000).expect("in range");
    assert_eq!(d.as_secs(), 3);
    assert_eq!(d.subsec_nanos(), 500_000_000);
    assert_eq!(d.as_nanos(), 3_500_000_000);
}

#[test]
fn duration_carries_nanoseconds_over() {
    let d = Duration::new(1, 2_500_000_000).expect("in range");
    assert_eq!(d.as_secs(), 3);
    assert_eq!(d.subsec_nanos(), 500_000_000);
    assert_eq!(d, Duration::new(3, 500_000_000).expect("in range"));
}

#[test]
fn duration_new_overflows_only_at_the_end() {
    assert_eq!(Duration::new(u64::MAX, 1_000_000_000), None);
    let longest = Duration::new(u64::MAX, 999_999_999).expect("in range");
    assert_eq!(longest.as_secs(), u64::MAX);
    assert_eq!(longest.subsec_nanos(), 999_999_999);
    assert!(Duration::new(u64::MAX - 4, 4_294_967_295).is_some());
    assert_eq!(Duration::new(u64::MAX - 3, 4_294_967_295), None);
}

#[test]
fn duration_constructors_agree() {
    assert_eq!(Duration::from_secs(2), Duration::from_millis(2000));
    assert_eq!(Duration::from_millis(1500), Duration::new(1, 500_000_000).expect("in range"));
    assert_eq!(Duration::from_nanos(1_000_000_001), Duration::new(1, 1).expect("in range"));
    assert_eq!(Duration::zero(), Duration::from_secs(0));
    assert_eq!(Duration::from_millis(u64::MAX).as_secs(), u64::MAX / 1000);
    assert_eq!(Duration::from_millis(u64::MAX).subsec_nanos(), 615_000_000);
}

#[test]
fn duration_division_rounds_down() {
    assert_eq!(Duration::from_secs(10).checked_div(4), Some(Duration::from_millis(2500)));
    assert_eq!(Duration::from_nanos(7).checked_div(2), Some(Duration::from_nanos(3)));
    assert_eq!(Duration::from_secs(1).checked_div(3), Some(Duration::from_nanos(333_333_333)));
    assert_eq!(Duration::zero().checked_div(5), Some(Duration::zero()));
    let longest = Duration::new(u64::MAX, 999_999_999).expect("in range");
    assert_eq!(longest.checked_div(1), Some(longest));
}

#[test]
fn duration_division_by_zero() {
    assert_eq!(Duration::from_secs(10).checked_div(0), None);
    assert_eq!(Duration::zero().checked_div(0), None);
}

#[test]
fn duration_reaches_the_end_of_a_span() {
    let start = Duration::from_secs(10);
    let span = Duration::from_secs(5);
    assert!(!Duration::from_millis(14_999).reaches(&start, &span));
    assert!(Duration::from_secs(15).reaches(&start, &span));
    assert!(Duration::from_secs(16).reaches(&start, &span));
    let longest = Duration::new(u64::MAX, 999_999_999).expect("in range");
    assert!(!longest.reaches(&longest, &Duration::from_nanos(1)));
    assert!(longest.reaches(&longest, &Duration::zero()));
}
