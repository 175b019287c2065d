use krustlet::backoff::ExponentialBackoffStrategy;

#[test]
fn waits_double_up_to_the_cap() {
    let mut policy = ExponentialBackoffStrategy::new(10_000, 300_000);
    let waits: Vec<u64> = (0..8).map(|_| policy.wait()).collect();
    assert_eq!(
        waits,
        vec![10_000, 20_000, 40_000, 80_000, 160_000, 300_000, 300_000, 300_000]
    );
}

#[test]
fn waits_never_shrink_between_resets() {
    let mut policy = ExponentialBackoffStrategy::new(3, 1000);
    let mut last = 0;
    for _ in 0..40 {
        let w = policy.wait();
        assert!(w >= last);
        assert!(w <= 1000);
        last = w;
    }
    assert_eq!(last, 1000);
}

#[test]
fn reset_starts_over_at_the_base() {
    let mut policy = ExponentialBackoffStrategy::new(5, 100);
    assert_eq!(policy.wait(), 5);
    assert_eq!(policy.wait(), 10);
    assert_eq!(policy.wait(), 20);
    policy.reset();
    assert_eq!(policy.wait(), 5);
    assert_eq!(policy.wait(), 10);
}

#[test]
fn a_base_over_the_cap_waits_the_cap() {
    let mut policy = ExponentialBackoffStrategy::new(500, 100);
    assert_eq!(policy.wait(), 100);
    assert_eq!(policy.wait(), 100);
}

#[test]
fn a_zero_base_never_waits() {
    let mut policy = ExponentialBackoffStrategy::new(0, 100);
    assert_eq!(policy.wait(), 0);
    assert_eq!(policy.wait(), 0);
    assert_eq!(policy.delay_at(u32::MAX), 0);
}

#[test]
fn huge_values_do_not_overflow() {
    let policy = ExponentialBackoffStrategy::new(u64::MAX / 2 + 1, u64::MAX);
    assert_eq!(policy.delay_at(0), u64::MAX / 2 + 1);
    assert_eq!(policy.delay_at(1), u64::MAX);
    assert_eq!(policy.delay_at(63), u64::MAX);
    assert_eq!(policy.delay_at(u32::MAX), u64::MAX);
    let one = ExponentialBackoffStrategy::new(1, u64::MAX);
    assert_eq!(one.delay_at(63), 1u64 << 63);
    assert_eq!(one.delay_at(64), u64::MAX);
}

#[test]
fn delay_at_does_not_count() {
    let mut policy = ExponentialBackoffStrategy::new(2, 64);
    assert_eq!(policy.delay_at(3), 16);
    assert_eq!(policy.delay_at(5), 64);
    assert_eq!(policy.delay_at(6), 64);
    assert_eq!(policy.wait(), 2);
}
