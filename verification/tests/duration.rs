use jaeb::duration::Duration;

#[test]
fn duration_constructors_agree() {
    assert_eq!(Duration::from_secs(2).as_nanos(), 2_000_000_000);
    assert_eq!(Duration::from_millis(1500).as_secs(), 1);
    assert_eq!(Duration::from_millis(1500).subsec_nanos(), 500_000_000);
    assert_eq!(Duration::from_micros(3).as_nanos(), 3_000);
    assert_eq!(Duration::new(1, 2_000_000_001).as_nanos(), 3_000_000_001);
    assert!(Duration::zero().is_zero());
}

#[test]
fn duration_saturating_arithmetic() {
    let max = Duration::max_value();
    assert_eq!(max.saturating_add(Duration::from_nanos(1)), max);
    assert_eq!(Duration::from_secs(1).saturating_sub(Duration::from_secs(2)), Duration::zero());
    assert_eq!(Duration::from_millis(3).saturating_mul(4).as_millis(), 12);
    assert_eq!(Duration::from_secs(u64::MAX).saturating_mul(2), max);
}

#[test]
fn duration_ordering() {
    let a = Duration::from_millis(1);
    let b = Duration::from_micros(1001);
    assert!(a.lt(&b));
    assert!(a.le(&a));
    assert!(!b.le(&a));
    assert_eq!(a.min(b), a);
}
