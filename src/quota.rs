//! Rate-limiting quotas: a burst size and the interval in which one unit of
//! capacity is replenished, with time counted in nanoseconds.
use vstd::prelude::*;

verus! {

/// Nanoseconds in one second.
pub const NANOS_PER_SECOND: u64 = 1_000_000_000;

/// Nanoseconds in one minute.
pub const NANOS_PER_MINUTE: u64 = 60_000_000_000;

/// Nanoseconds in one hour.
pub const NANOS_PER_HOUR: u64 = 3_600_000_000_000;

/// Why a quota could not be built.
#[derive(Debug, Clone, Copy, PartialEq, Eq, Structural)]
pub enum QuotaError {
    /// The count is zero or does not fit a positive 32-bit integer.
    InvalidCount,
    /// The replenish interval would be zero nanoseconds.
    ZeroInterval,
}

/// An immutable rate-limiting quota: at most `burst_size` cells at once, and
/// one more cell every `replenish_interval` nanoseconds.
#[derive(Debug, Clone, Copy, PartialEq, Eq, Structural)]
pub struct Quota {
    burst_size: u32,
    replenish_interval: u64,
}

/// Relies on governor::Quota::per_second and its accessors: the burst is the
/// given count and the interval is one second divided by it, rounded down.
#[verifier::external_body]
fn governor_per_second(times: u32) -> (r: (u32, u64))
    requires
        times >= 1,
    ensures
        r.0 == times,
        r.1 == NANOS_PER_SECOND / times as u64,
{
    let q = governor::Quota::per_second(std::num::NonZeroU32::new(times).unwrap());
    (q.burst_size().get(), q.replenish_interval().as_nanos() as u64)
}

/// Relies on governor::Quota::per_minute and its accessors: the burst is the
/// given count and the interval is one minute divided by it, rounded down.
#[verifier::external_body]
fn governor_per_minute(times: u32) -> (r: (u32, u64))
    requires
        times >= 1,
    ensures
        r.0 == times,
        r.1 == NANOS_PER_MINUTE / times as u64,
{
    let q = governor::Quota::per_minute(std::num::NonZeroU32::new(times).unwrap());
    (q.burst_size().get(), q.replenish_interval().as_nanos() as u64)
}

/// Relies on governor::Quota::per_hour and its accessors: the burst is the
/// given count and the interval is one hour divided by it, rounded down.
#[verifier::external_body]
fn governor_per_hour(times: u32) -> (r: (u32, u64))
    requires
        times >= 1,
    ensures
        r.0 == times,
        r.1 == NANOS_PER_HOUR / times as u64,
{
    let q = governor::Quota::per_hour(std::num::NonZeroU32::new(times).unwrap());
    (q.burst_size().get(), q.replenish_interval().as_nanos() as u64)
}

/// Relies on governor::Quota::with_period and its accessors: no quota for a
/// zero period, else a burst of one and the period as the interval.
#[verifier::external_body]
fn governor_with_period(period_nanos: u64) -> (r: Option<(u32, u64)>)
    ensures
        period_nanos == 0 <==> r is None,
        r matches Some(p) ==> p.0 == 1 && p.1 == period_nanos,
{
    governor::Quota::with_period(std::time::Duration::from_nanos(period_nanos)).map(
        |q| (q.burst_size().get(), q.replenish_interval().as_nanos() as u64),
    )
}

proof fn lemma_quotient_positive(x: int, y: int)
    requires
        1 <= y <= x,
    ensures
        x / y >= 1,
{
    assert(x / y >= 1) by (nonlinear_arith)
        requires
            1 <= y <= x,
    ;
}

/// Whether a requested count is a valid burst size: positive and within `u32`.
pub open spec fn valid_count(times: u64) -> bool {
    1 <= times <= u32::MAX
}

impl Quota {
    #[verifier::type_invariant]
    pub open spec fn well_formed(self) -> bool {
        self.wf()
    }

    /// The largest number of cells admitted at one instant.
    pub closed spec fn spec_burst_size(self) -> nat {
        self.burst_size as nat
    }

    /// The nanoseconds in which one cell is replenished, as configured.
    pub closed spec fn spec_replenish_interval(self) -> nat {
        self.replenish_interval as nat
    }

    /// Every quota has a positive burst size and a positive interval.
    pub open spec fn wf(self) -> bool {
        &&& self.spec_burst_size() >= 1
        &&& self.spec_replenish_interval() >= 1
    }

    /// The spacing of cells in nanoseconds: the replenish interval.
    pub open spec fn increment(self) -> nat {
        self.spec_replenish_interval()
    }

    /// How far ahead of the steady rate a burst may run: one increment for
    /// each cell of the burst beyond the first.
    pub open spec fn tau(self) -> nat {
        self.increment() * (self.spec_burst_size() - 1) as nat
    }

    /// The largest number of cells admitted at one instant.
    pub fn burst_size(&self) -> (r: u32)
        ensures
            r == self.spec_burst_size(),
    {
        self.burst_size
    }

    /// The nanoseconds in which one cell is replenished.
    pub fn replenish_interval(&self) -> (r: u64)
        ensures
            r == self.spec_replenish_interval(),
    {
        self.replenish_interval
    }

    /// A quota of `times` cells every second: the burst is `times` and one
    /// cell comes back every second divided by `times`. A count above the
    /// nanoseconds in a second would give a zero interval and is refused.
    pub fn per_second(times: u64) -> (r: Result<Quota, QuotaError>)
        ensures
            valid_count(times) && times <= NANOS_PER_SECOND <==> r is Ok,
            !valid_count(times) ==> r == Err::<Quota, QuotaError>(QuotaError::InvalidCount),
            valid_count(times) && times > NANOS_PER_SECOND ==> r == Err::<Quota, QuotaError>(
                QuotaError::ZeroInterval,
            ),
            r matches Ok(q) ==> q.wf() && q.spec_burst_size() == times
                && q.spec_replenish_interval() == NANOS_PER_SECOND / times,
    {
        if times == 0 || times > u32::MAX as u64 {
            return Err(QuotaError::InvalidCount);
        }
        if times > NANOS_PER_SECOND {
            return Err(QuotaError::ZeroInterval);
        }
        let (burst_size, replenish_interval) = governor_per_second(times as u32);
        proof {
            lemma_quotient_positive(NANOS_PER_SECOND as int, times as int);
        }
        Ok(Quota { burst_size, replenish_interval })
    }

    /// A quota of `times` cells every minute.
    pub fn per_minute(times: u64) -> (r: Result<Quota, QuotaError>)
        ensures
            valid_count(times) <==> r is Ok,
            !valid_count(times) ==> r == Err::<Quota, QuotaError>(QuotaError::InvalidCount),
            r matches Ok(q) ==> q.wf() && q.spec_burst_size() == times
                && q.spec_replenish_interval() == NANOS_PER_MINUTE / times,
    {
        if times == 0 || times > u32::MAX as u64 {
            return Err(QuotaError::InvalidCount);
        }
        let (burst_size, replenish_interval) = governor_per_minute(times as u32);
        proof {
            lemma_quotient_positive(NANOS_PER_MINUTE as int, times as int);
        }
        Ok(Quota { burst_size, replenish_interval })
    }

    /// A quota of `times` cells every hour.
    pub fn per_hour(times: u64) -> (r: Result<Quota, QuotaError>)
        ensures
            valid_count(times) <==> r is Ok,
            !valid_count(times) ==> r == Err::<Quota, QuotaError>(QuotaError::InvalidCount),
            r matches Ok(q) ==> q.wf() && q.spec_burst_size() == times
                && q.spec_replenish_interval() == NANOS_PER_HOUR / times,
    {
        if times == 0 || times > u32::MAX as u64 {
            return Err(QuotaError::InvalidCount);
        }
        let (burst_size, replenish_interval) = governor_per_hour(times as u32);
        proof {
            lemma_quotient_positive(NANOS_PER_HOUR as int, times as int);
        }
        Ok(Quota { burst_size, replenish_interval })
    }

    /// A quota of one cell every `period_nanos` nanoseconds; a zero period is
    /// refused.
    pub fn with_period(period_nanos: u64) -> (r: Result<Quota, QuotaError>)
        ensures
            period_nanos != 0 <==> r is Ok,
            period_nanos == 0 ==> r == Err::<Quota, QuotaError>(QuotaError::ZeroInterval),
            r matches Ok(q) ==> q.wf() && q.spec_burst_size() == 1
                && q.spec_replenish_interval() == period_nanos,
    {
        match governor_with_period(period_nanos) {
            None => Err(QuotaError::ZeroInterval),
            Some((burst_size, replenish_interval)) => Ok(Quota { burst_size, replenish_interval }),
        }
    }

    /// The same replenish interval with a burst of `burst_size` cells; a zero
    /// burst is refused.
    pub fn allow_burst(self, burst_size: u32) -> (r: Result<Quota, QuotaError>)
        ensures
            burst_size != 0 <==> r is Ok,
            burst_size == 0 ==> r == Err::<Quota, QuotaError>(QuotaError::InvalidCount),
            r matches Ok(q) ==> q.wf() && q.spec_burst_size() == burst_size
                && q.spec_replenish_interval() == self.spec_replenish_interval(),
    {
        proof {
            use_type_invariant(&self);
        }
        if burst_size == 0 {
            return Err(QuotaError::InvalidCount);
        }
        Ok(Quota { burst_size, replenish_interval: self.replenish_interval })
    }
}

} // verus!
