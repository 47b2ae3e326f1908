//! The decision step of a rate-limiting request middleware: each request is
//! keyed by its target host and either forwarded unchanged or answered with
//! "too many requests" and a retry hint in whole seconds.
use crate::limiter::{gcra_decision, lookup, step, Decision, RateLimiter};
use crate::quota::{
    valid_count, Quota, QuotaError, NANOS_PER_HOUR, NANOS_PER_MINUTE, NANOS_PER_SECOND,
};
use vstd::prelude::*;

verus! {

/// What the middleware does with one request.
#[derive(Debug, Clone, Copy, PartialEq, Eq, Structural)]
pub enum Verdict {
    /// Hand the request to the next stage and return its response as it is.
    Forward,
    /// Answer with status 429 and a `Retry-After` of this many seconds.
    Reject { retry_after_secs: u64 },
}

/// A wait in nanoseconds as whole seconds, rounded down.
pub fn retry_after_secs(wait_nanos: u64) -> (r: u64)
    ensures
        r == wait_nanos / NANOS_PER_SECOND,
{
    wait_nanos / NANOS_PER_SECOND
}

/// The verdict that follows from a limiter's decision.
pub open spec fn verdict_of(d: Decision) -> Verdict {
    match d {
        Decision::Admit => Verdict::Forward,
        Decision::Deny { wait } => Verdict::Reject { retry_after_secs: wait / NANOS_PER_SECOND },
    }
}

/// Rate limiting keyed by the host a request is sent to. Once a host's quota
/// is spent, its requests are answered with status 429 and a `Retry-After`
/// hint until capacity comes back.
pub struct GovernorMiddleware {
    limiter: RateLimiter,
}

impl GovernorMiddleware {
    /// The limiter the verdicts come from.
    pub closed spec fn limiter(self) -> RateLimiter {
        self.limiter
    }

    /// The limiter is well formed.
    pub open spec fn wf(self) -> bool {
        self.limiter().wf()
    }

    /// Whether `m` is a fresh middleware under `q`.
    pub open spec fn fresh_under(m: GovernorMiddleware, q: Quota) -> bool {
        &&& m.wf()
        &&& m.limiter().quota() == q
        &&& m.limiter().tats() == Map::<Seq<char>, u64>::empty()
    }

    /// A middleware under `quota` that has seen no host.
    pub fn new(quota: Quota) -> (r: GovernorMiddleware)
        ensures
            Self::fresh_under(r, quota),
    {
        GovernorMiddleware { limiter: RateLimiter::new(quota) }
    }

    /// One request per `period_nanos` nanoseconds for each host; `None` for a
    /// zero period.
    pub fn with_period(period_nanos: u64) -> (r: Option<GovernorMiddleware>)
        ensures
            period_nanos == 0 <==> r is None,
            r matches Some(m) ==> Self::fresh_under(m, m.limiter().quota())
                && m.limiter().quota().spec_burst_size() == 1
                && m.limiter().quota().spec_replenish_interval() == period_nanos,
    {
        match Quota::with_period(period_nanos) {
            Ok(q) => Some(Self::new(q)),
            Err(_) => None,
        }
    }

    /// `times` requests every second for each host; a count above the
    /// nanoseconds in a second is refused, as its interval would be zero.
    pub fn per_second(times: u64) -> (r: Result<GovernorMiddleware, QuotaError>)
        ensures
            valid_count(times) && times <= NANOS_PER_SECOND <==> r is Ok,
            !valid_count(times) ==> r matches Err(QuotaError::InvalidCount),
            valid_count(times) && times > NANOS_PER_SECOND ==> r matches Err(
                QuotaError::ZeroInterval,
            ),
            r matches Ok(m) ==> Self::fresh_under(m, m.limiter().quota())
                && m.limiter().quota().spec_burst_size() == times
                && m.limiter().quota().spec_replenish_interval() == NANOS_PER_SECOND / times,
    {
        match Quota::per_second(times) {
            Ok(q) => Ok(Self::new(q)),
            Err(e) => Err(e),
        }
    }

    /// `times` requests every minute for each host.
    pub fn per_minute(times: u64) -> (r: Result<GovernorMiddleware, QuotaError>)
        ensures
            valid_count(times) <==> r is Ok,
            !valid_count(times) ==> r matches Err(QuotaError::InvalidCount),
            r matches Ok(m) ==> Self::fresh_under(m, m.limiter().quota())
                && m.limiter().quota().spec_burst_size() == times
                && m.limiter().quota().spec_replenish_interval() == NANOS_PER_MINUTE / times,
    {
        match Quota::per_minute(times) {
            Ok(q) => Ok(Self::new(q)),
            Err(e) => Err(e),
        }
    }

    /// `times` requests every hour for each host.
    pub fn per_hour(times: u64) -> (r: Result<GovernorMiddleware, QuotaError>)
        ensures
            valid_count(times) <==> r is Ok,
            !valid_count(times) ==> r matches Err(QuotaError::InvalidCount),
            r matches Ok(m) ==> Self::fresh_under(m, m.limiter().quota())
                && m.limiter().quota().spec_burst_size() == times
                && m.limiter().quota().spec_replenish_interval() == NANOS_PER_HOUR / times,
    {
        match Quota::per_hour(times) {
            Ok(q) => Ok(Self::new(q)),
            Err(e) => Err(e),
        }
    }

    /// Decides a request to `host` at `now` (nanoseconds on the caller's
    /// clock). A request without a host is forwarded and counted nowhere; any
    /// other is checked against its host's quota.
    pub fn handle(&mut self, host: Option<&str>, now: u64) -> (r: Verdict)
        requires
            old(self).wf(),
        ensures
            final(self).wf(),
            final(self).limiter().quota() == old(self).limiter().quota(),
            host is None ==> r == Verdict::Forward && final(self).limiter().tats()
                == old(self).limiter().tats(),
            host matches Some(h) ==> r == verdict_of(
                gcra_decision(
                    old(self).limiter().quota(),
                    lookup(old(self).limiter().tats(), h@),
                    now,
                ),
            ) && final(self).limiter().tats() == step(
                old(self).limiter().quota(),
                old(self).limiter().tats(),
                h@,
                now,
            ).1,
    {
        match host {
            None => Verdict::Forward,
            Some(h) => match self.limiter.check(h, now) {
                Decision::Admit => Verdict::Forward,
                Decision::Deny { wait } => Verdict::Reject { retry_after_secs: retry_after_secs(wait) },
            },
        }
    }
}

} // verus!
