use surf_governor::limiter::gcra;
use surf_governor::{Decision, Quota, RateLimiter};

fn burst_quota(burst: u32, interval: u64) -> Quota {
    Quota::with_period(interval).unwrap().allow_burst(burst).unwrap()
}

#[test]
fn gcra_exact_values() {
    let q = burst_quota(3, 100);
    assert_eq!(gcra(&q, None, 1_000), (Decision::Admit, 1_100));
    assert_eq!(gcra(&q, Some(1_200), 1_000), (Decision::Admit, 1_300));
    assert_eq!(gcra(&q, Some(1_300), 1_000), (Decision::Deny { wait: 100 }, 1_400));
    assert_eq!(gcra(&q, Some(500), 1_000), (Decision::Admit, 1_100));
}

#[test]
fn gcra_saturates_at_largest_time() {
    let q = burst_quota(1, 100);
    assert_eq!(gcra(&q, None, u64::MAX - 10), (Decision::Admit, u64::MAX));
}

#[test]
fn burst_then_deny_at_one_instant() {
    let mut l = RateLimiter::new(burst_quota(4, 250));
    for _ in 0..4 {
        assert_eq!(l.check("a", 10_000), Decision::Admit);
    }
    assert_eq!(l.check("a", 10_000), Decision::Deny { wait: 250 });
    assert_eq!(l.check("a", 10_000), Decision::Deny { wait: 250 });
    assert_eq!(l.tat_of("a"), Some(11_000));
}

#[test]
fn spacing_below_interval_is_denied() {
    let mut l = RateLimiter::new(Quota::with_period(100).unwrap());
    assert_eq!(l.check("k", 1_000), Decision::Admit);
    assert_eq!(l.check("k", 1_040), Decision::Deny { wait: 60 });
}

#[test]
fn spacing_of_interval_is_admitted() {
    let mut l = RateLimiter::new(Quota::with_period(100).unwrap());
    assert_eq!(l.check("k", 1_000), Decision::Admit);
    assert_eq!(l.check("k", 1_100), Decision::Admit);
    assert_eq!(l.check("k", 1_350), Decision::Admit);
}

#[test]
fn denied_check_takes_no_capacity() {
    let mut l = RateLimiter::new(Quota::with_period(100).unwrap());
    assert_eq!(l.check("k", 0), Decision::Admit);
    assert_eq!(l.tat_of("k"), Some(100));
    assert_eq!(l.check("k", 50), Decision::Deny { wait: 50 });
    assert_eq!(l.tat_of("k"), Some(100));
    assert_eq!(l.check("k", 100), Decision::Admit);
}

#[test]
fn keys_are_independent() {
    let mut l = RateLimiter::new(burst_quota(2, 1_000));
    assert_eq!(l.check("a", 5), Decision::Admit);
    assert_eq!(l.check("a", 5), Decision::Admit);
    assert_eq!(l.check("a", 5), Decision::Deny { wait: 1_000 });
    assert_eq!(l.check("b", 5), Decision::Admit);
    assert_eq!(l.check("b", 5), Decision::Admit);
    assert_eq!(l.tat_of("c"), None);
}

#[test]
fn replay_gives_same_decisions() {
    let q = burst_quota(2, 300);
    let times = [0u64, 10, 20, 30, 400, 410, 900, 901, 902];
    let mut first = RateLimiter::new(q);
    let mut second = RateLimiter::new(q);
    second.check("other", 0);
    second.check("another", 5);
    let a: Vec<Decision> = times.iter().map(|&t| first.check("key", t)).collect();
    let b: Vec<Decision> = times.iter().map(|&t| second.check("key", t)).collect();
    assert_eq!(a, b);
    assert_eq!(a[2], Decision::Deny { wait: 280 });
}

#[test]
fn billion_per_second_spaces_by_one_nanosecond() {
    let mut l = RateLimiter::new(Quota::per_second(1_000_000_000).unwrap().allow_burst(1).unwrap());
    assert_eq!(l.check("k", 0), Decision::Admit);
    assert_eq!(l.check("k", 0), Decision::Deny { wait: 1 });
    assert_eq!(l.check("k", 1), Decision::Admit);
}

#[test]
fn same_instant_burst_admits_exactly_burst() {
    let mut l = RateLimiter::new(burst_quota(8, 10));
    let admitted = (0..20).filter(|_| l.check("race", 77) == Decision::Admit).count();
    assert_eq!(admitted, 8);
}
