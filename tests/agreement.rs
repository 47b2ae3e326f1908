use governor::clock::{Clock, FakeRelativeClock};
use std::num::NonZeroU32;
use std::time::Duration;
use surf_governor::{Decision, Quota, RateLimiter};

type Outside = governor::RateLimiter<
    String,
    governor::state::keyed::DashMapStateStore<String>,
    FakeRelativeClock,
    governor::middleware::NoOpMiddleware<governor::nanos::Nanos>,
>;

// Runs the same checks through governor's keyed limiter on a fake clock and
// through this crate's limiter, and compares every decision.
fn compare(ours: Quota, theirs: governor::Quota, events: &[(&str, u64)]) {
    let clock = FakeRelativeClock::default();
    let outside: Outside = governor::RateLimiter::dashmap_with_clock(theirs, clock.clone());
    let mut limiter = RateLimiter::new(ours);
    let mut at: u64 = 0;
    for &(key, now) in events {
        clock.advance(Duration::from_nanos(now - at));
        at = now;
        let expected = match outside.check_key(&key.to_string()) {
            Ok(()) => Decision::Admit,
            Err(nu) => Decision::Deny {
                wait: nu.wait_time_from(clock.now()).as_nanos() as u64,
            },
        };
        assert_eq!(limiter.check(key, now), expected, "key {key} at {now}");
    }
}

fn nz(n: u32) -> NonZeroU32 {
    NonZeroU32::new(n).unwrap()
}

#[test]
fn agrees_with_governor_per_second() {
    let events: Vec<(&str, u64)> = (0..40u64)
        .map(|i| (if i % 3 == 0 { "b" } else { "a" }, i * 10_000_000))
        .collect();
    compare(
        Quota::per_second(5).unwrap(),
        governor::Quota::per_second(nz(5)),
        &events,
    );
}

#[test]
fn agrees_with_governor_on_bursts() {
    let mut events: Vec<(&str, u64)> = vec![("h", 100); 12];
    events.extend([("h", 150), ("h", 399), ("h", 400), ("h", 401), ("g", 401), ("h", 5_000)]);
    compare(
        Quota::with_period(100).unwrap().allow_burst(4).unwrap(),
        governor::Quota::with_period(Duration::from_nanos(100))
            .unwrap()
            .allow_burst(nz(4)),
        &events,
    );
}

#[test]
fn agrees_with_governor_per_hour() {
    let events = [("x", 0), ("x", 0), ("x", 0), ("x", 1_000_000_000), ("x", 1_200_000_000_000)];
    compare(
        Quota::per_hour(3).unwrap(),
        governor::Quota::per_hour(nz(3)),
        &events,
    );
}
