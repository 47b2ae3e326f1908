use surf_governor::{Quota, QuotaError};

#[test]
fn per_second_divides_one_second() {
    let q = Quota::per_second(30).unwrap();
    assert_eq!(q.burst_size(), 30);
    assert_eq!(q.replenish_interval(), 33_333_333);
}

#[test]
fn per_minute_divides_one_minute() {
    let q = Quota::per_minute(7).unwrap();
    assert_eq!(q.burst_size(), 7);
    assert_eq!(q.replenish_interval(), 8_571_428_571);
}

#[test]
fn per_hour_divides_one_hour() {
    let q = Quota::per_hour(1).unwrap();
    assert_eq!(q.burst_size(), 1);
    assert_eq!(q.replenish_interval(), 3_600_000_000_000);
}

#[test]
fn zero_count_is_refused() {
    assert_eq!(Quota::per_second(0), Err(QuotaError::InvalidCount));
    assert_eq!(Quota::per_minute(0), Err(QuotaError::InvalidCount));
    assert_eq!(Quota::per_hour(0), Err(QuotaError::InvalidCount));
}

#[test]
fn count_beyond_u32_is_refused() {
    assert_eq!(Quota::per_second(1 << 32), Err(QuotaError::InvalidCount));
    assert!(Quota::per_minute(u32::MAX as u64).is_ok());
    assert!(Quota::per_hour(u32::MAX as u64).is_ok());
}

#[test]
fn per_second_count_giving_zero_interval_is_refused() {
    assert_eq!(Quota::per_second(1_000_000_001), Err(QuotaError::ZeroInterval));
    assert_eq!(Quota::per_second(u32::MAX as u64), Err(QuotaError::ZeroInterval));
    let q = Quota::per_second(1_000_000_000).unwrap();
    assert_eq!(q.replenish_interval(), 1);
}

#[test]
fn zero_period_is_refused() {
    assert_eq!(Quota::with_period(0), Err(QuotaError::ZeroInterval));
}

#[test]
fn period_gives_burst_of_one() {
    let q = Quota::with_period(250).unwrap();
    assert_eq!(q.burst_size(), 1);
    assert_eq!(q.replenish_interval(), 250);
}

#[test]
fn allow_burst_keeps_interval() {
    let q = Quota::with_period(100).unwrap();
    let b = q.allow_burst(5).unwrap();
    assert_eq!(b.burst_size(), 5);
    assert_eq!(b.replenish_interval(), 100);
    assert_eq!(q.allow_burst(0), Err(QuotaError::InvalidCount));
}
