//! What the limiter guarantees across several checks, proved over the same
//! spec functions that `RateLimiter::check` is specified with.
use crate::limiter::{base_tat, gcra_decision, gcra_next, lookup, run, step, Decision};
use crate::middleware::{verdict_of, Verdict};
use crate::quota::{Quota, NANOS_PER_SECOND};
use vstd::prelude::*;

verus! {

/// `n` checks, all at the instant `now`.
pub open spec fn same_instant(n: nat, now: u64) -> Seq<u64> {
    Seq::new(n, |i: int| now)
}

/// `n` admissions followed by one denial with the given wait.
pub open spec fn admits_then_deny(n: nat, wait: u64) -> Seq<Decision> {
    Seq::new(n, |i: int| Decision::Admit).push(Decision::Deny { wait })
}

proof fn lemma_burst_from(q: Quota, tats: Map<Seq<char>, u64>, key: Seq<char>, now: u64, j: nat)
    requires
        q.wf(),
        j <= q.spec_burst_size(),
        base_tat(lookup(tats, key), now) == now + j * q.increment(),
        now + q.spec_burst_size() * q.increment() <= u64::MAX,
    ensures
        run(q, tats, key, same_instant((q.spec_burst_size() - j + 1) as nat, now)).0
            == admits_then_deny((q.spec_burst_size() - j) as nat, q.increment() as u64),
    decreases q.spec_burst_size() - j,
{
    let n = q.spec_burst_size();
    let inc = q.increment();
    let times = same_instant((n - j + 1) as nat, now);
    let tat = lookup(tats, key);
    assert(q.tau() == inc * (n - 1) as nat);
    assert(n * inc == (n - 1) as nat * inc + inc) by (nonlinear_arith)
        requires n >= 1;
    assert(inc * (n - 1) as nat == (n - 1) as nat * inc) by (nonlinear_arith);
    assert(times.subrange(1, times.len() as int) =~= same_instant((n - j) as nat, now));
    if j == n {
        assert(gcra_decision(q, tat, now) == Decision::Deny { wait: inc as u64 });
        assert(run(q, tats, key, same_instant(0, now)).0 =~= Seq::<Decision>::empty());
        assert(run(q, tats, key, times).0 =~= admits_then_deny(0, inc as u64));
    } else {
        assert(j * inc <= (n - 1) as nat * inc) by (nonlinear_arith)
            requires j <= n - 1;
        assert((j + 1) * inc == j * inc + inc) by (nonlinear_arith);
        assert((j + 1) * inc <= n * inc) by (nonlinear_arith)
            requires j + 1 <= n;
        assert(gcra_decision(q, tat, now) == Decision::Admit);
        assert(gcra_next(q, tat, now) == now + (j + 1) * inc);
        let next = step(q, tats, key, now).1;
        assert(lookup(next, key) == Some((now + (j + 1) * inc) as u64));
        lemma_burst_from(q, next, key, now, j + 1);
        assert(admits_then_deny((n - j) as nat, inc as u64) =~= seq![Decision::Admit]
            + admits_then_deny((n - j - 1) as nat, inc as u64));
    }
}

/// Burst admission: for a key not seen yet, `burst_size` checks at one
/// instant are all admitted, and one more at that instant is denied with a
/// wait of exactly one increment (the replenish interval).
pub proof fn lemma_burst_admission(q: Quota, tats: Map<Seq<char>, u64>, key: Seq<char>, now: u64)
    requires
        q.wf(),
        !tats.contains_key(key),
        now + q.spec_burst_size() * q.increment() <= u64::MAX,
    ensures
        run(q, tats, key, same_instant(q.spec_burst_size() + 1, now)).0
            == admits_then_deny(q.spec_burst_size(), q.increment() as u64),
{
    assert(0 * q.increment() == 0);
    lemma_burst_from(q, tats, key, now, 0);
}

/// Steady-state spacing: with a burst of one, a key not seen yet is admitted
/// at `t0`; a second check at `t1` is denied with a wait of the increment less
/// the time elapsed when less than an increment has passed, and admitted
/// otherwise.
pub proof fn lemma_steady_spacing(
    q: Quota,
    tats: Map<Seq<char>, u64>,
    key: Seq<char>,
    t0: u64,
    t1: u64,
)
    requires
        q.wf(),
        q.spec_burst_size() == 1,
        !tats.contains_key(key),
        t0 <= t1,
        t0 + q.increment() <= u64::MAX,
    ensures
        step(q, tats, key, t0).0 == Decision::Admit,
        step(q, step(q, tats, key, t0).1, key, t1).0 == (if t1 - t0 < q.increment() {
            Decision::Deny { wait: (q.increment() - (t1 - t0)) as u64 }
        } else {
            Decision::Admit
        }),
{
    assert(q.tau() == 0) by {
        assert(q.increment() * 0 == 0);
    }
}

/// Key independence: checks of one key, whatever they decide, leave another
/// key's TAT, and so every later decision for it, as they were.
pub proof fn lemma_key_independence(
    q: Quota,
    tats: Map<Seq<char>, u64>,
    a: Seq<char>,
    b: Seq<char>,
    times: Seq<u64>,
    now: u64,
)
    requires
        a != b,
    ensures
        lookup(run(q, tats, a, times).1, b) == lookup(tats, b),
        step(q, run(q, tats, a, times).1, b, now).0 == step(q, tats, b, now).0,
    decreases times.len(),
{
    if times.len() > 0 {
        let next = step(q, tats, a, times[0]).1;
        assert(lookup(next, b) == lookup(tats, b));
        lemma_key_independence(q, next, a, b, times.subrange(1, times.len() as int), now);
    }
}

/// Determinism under replay: the decisions for a key depend only on the
/// quota, that key's TAT and the instants checked, so two limiters that agree
/// on the key (two fresh ones, say) decide a sequence of checks alike, however
/// many other keys either one tracks.
pub proof fn lemma_replay_deterministic(
    q: Quota,
    tats1: Map<Seq<char>, u64>,
    tats2: Map<Seq<char>, u64>,
    key: Seq<char>,
    times: Seq<u64>,
)
    requires
        lookup(tats1, key) == lookup(tats2, key),
    ensures
        run(q, tats1, key, times).0 == run(q, tats2, key, times).0,
        lookup(run(q, tats1, key, times).1, key) == lookup(run(q, tats2, key, times).1, key),
    decreases times.len(),
{
    if times.len() > 0 {
        let n1 = step(q, tats1, key, times[0]).1;
        let n2 = step(q, tats2, key, times[0]).1;
        assert(lookup(n1, key) == lookup(n2, key));
        lemma_replay_deterministic(q, n1, n2, key, times.subrange(1, times.len() as int));
    }
}

/// The verdicts of the middleware for requests to `host` at each instant of
/// `times` in turn.
pub open spec fn verdicts(
    q: Quota,
    tats: Map<Seq<char>, u64>,
    host: Seq<char>,
    times: Seq<u64>,
) -> Seq<Verdict> {
    run(q, tats, host, times).0.map_values(|d: Decision| verdict_of(d))
}

/// Burst admission at the middleware: for a host not seen yet,
/// `burst_size` requests at one instant are forwarded, and one more at that
/// instant is rejected with a retry hint of the increment in whole seconds.
pub proof fn lemma_middleware_burst(q: Quota, tats: Map<Seq<char>, u64>, host: Seq<char>, now: u64)
    requires
        q.wf(),
        !tats.contains_key(host),
        now + q.spec_burst_size() * q.increment() <= u64::MAX,
    ensures
        verdicts(q, tats, host, same_instant(q.spec_burst_size() + 1, now)) =~= Seq::new(
            q.spec_burst_size(),
            |i: int| Verdict::Forward,
        ).push(Verdict::Reject { retry_after_secs: (q.increment() as u64) / NANOS_PER_SECOND }),
{
    lemma_burst_admission(q, tats, host, now);
}

/// Steady spacing at the middleware: with a burst of one, a host not seen
/// yet is forwarded at `t0`; a request at `t1` is rejected with the rest of
/// the interval in whole seconds when less than an interval has passed, and
/// forwarded otherwise.
pub proof fn lemma_middleware_spacing(
    q: Quota,
    tats: Map<Seq<char>, u64>,
    host: Seq<char>,
    t0: u64,
    t1: u64,
)
    requires
        q.wf(),
        q.spec_burst_size() == 1,
        !tats.contains_key(host),
        t0 <= t1,
        t0 + q.increment() <= u64::MAX,
    ensures
        verdict_of(step(q, tats, host, t0).0) == Verdict::Forward,
        verdict_of(step(q, step(q, tats, host, t0).1, host, t1).0) == (if t1 - t0
            < q.increment() {
            Verdict::Reject {
                retry_after_secs: ((q.increment() - (t1 - t0)) as u64) / NANOS_PER_SECOND,
            }
        } else {
            Verdict::Forward
        }),
{
    lemma_steady_spacing(q, tats, host, t0, t1);
}

/// Determinism under replay at the middleware: two middlewares under one
/// quota that agree on a host give the same verdicts for the same instants,
/// whatever other hosts either one has seen.
pub proof fn lemma_middleware_replay(
    q: Quota,
    tats1: Map<Seq<char>, u64>,
    tats2: Map<Seq<char>, u64>,
    host: Seq<char>,
    times: Seq<u64>,
)
    requires
        lookup(tats1, host) == lookup(tats2, host),
    ensures
        verdicts(q, tats1, host, times) == verdicts(q, tats2, host, times),
{
    lemma_replay_deterministic(q, tats1, tats2, host, times);
}

} // verus!
