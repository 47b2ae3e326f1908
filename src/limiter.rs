//! A keyed rate limiter following the generic cell rate algorithm (GCRA):
//! each key keeps the theoretical arrival time (TAT) of its next cell, and
//! every key is limited on its own.
use crate::quota::Quota;
use vstd::prelude::*;

verus! {

/// The outcome of one check.
#[derive(Debug, Clone, Copy, PartialEq, Eq, Structural)]
pub enum Decision {
    /// The cell conforms and its capacity has been taken.
    Admit,
    /// The cell does not conform; `wait` nanoseconds must pass before one will.
    Deny { wait: u64 },
}

/// The TAT stored for `key`, if it has been seen.
pub open spec fn lookup(tats: Map<Seq<char>, u64>, key: Seq<char>) -> Option<u64> {
    if tats.contains_key(key) {
        Some(tats[key])
    } else {
        None
    }
}

/// The TAT a check works from: the stored one, or the present instant for a
/// key that has not been seen, which then has its whole burst available.
pub open spec fn base_tat(tat: Option<u64>, now: u64) -> nat {
    match tat {
        Some(t) => t as nat,
        None => now as nat,
    }
}

/// The decision of a check at `now`: admit when `now` has reached
/// `tat - tau`, else deny and report how far away that instant is.
pub open spec fn gcra_decision(q: Quota, tat: Option<u64>, now: u64) -> Decision {
    let allow_at = base_tat(tat, now) - q.tau();
    if now >= allow_at {
        Decision::Admit
    } else {
        Decision::Deny { wait: (allow_at - now) as u64 }
    }
}

/// The TAT after an admitted cell: one increment past the later of the old
/// TAT and `now`, held at the largest timestamp.
pub open spec fn gcra_next(q: Quota, tat: Option<u64>, now: u64) -> u64 {
    let b = base_tat(tat, now);
    let start = if b > now { b } else { now as nat };
    let next = start + q.increment();
    if next > u64::MAX {
        u64::MAX
    } else {
        next as u64
    }
}

/// One check of `key` at `now` against the TATs `tats`: the decision, and the
/// TATs afterwards. A denied check leaves them as they were.
pub open spec fn step(q: Quota, tats: Map<Seq<char>, u64>, key: Seq<char>, now: u64) -> (
    Decision,
    Map<Seq<char>, u64>,
) {
    let tat = lookup(tats, key);
    let d = gcra_decision(q, tat, now);
    if d is Admit {
        (d, tats.insert(key, gcra_next(q, tat, now)))
    } else {
        (d, tats)
    }
}

/// Checks of `key` at each instant of `times` in turn: the decisions, and the
/// TATs afterwards.
pub open spec fn run(q: Quota, tats: Map<Seq<char>, u64>, key: Seq<char>, times: Seq<u64>) -> (
    Seq<Decision>,
    Map<Seq<char>, u64>,
)
    decreases times.len(),
{
    if times.len() == 0 {
        (Seq::empty(), tats)
    } else {
        let (d, next) = step(q, tats, key, times[0]);
        let (rest, last) = run(q, next, key, times.subrange(1, times.len() as int));
        (seq![d] + rest, last)
    }
}

/// One GCRA check on plain values: the decision for a key whose TAT is `tat`
/// (`None` for a key not seen yet) at `now`, and the TAT it has if admitted.
pub fn gcra(q: &Quota, tat: Option<u64>, now: u64) -> (r: (Decision, u64))
    ensures
        r.0 == gcra_decision(*q, tat, now),
        r.1 == gcra_next(*q, tat, now),
{
    proof {
        use_type_invariant(q);
    }
    let t: u128 = q.replenish_interval() as u128;
    let b: u128 = (q.burst_size() - 1) as u128;
    assert(t * b <= 0x1_0000_0000_0000_0000u128 * 0x1_0000_0000u128) by (nonlinear_arith)
        requires
            t <= 0x1_0000_0000_0000_0000u128,
            b <= 0x1_0000_0000u128,
    ;
    let tau: u128 = t * b;
    let base: u128 = match tat {
        Some(x) => x as u128,
        None => now as u128,
    };
    let start: u128 = if base > now as u128 {
        base
    } else {
        now as u128
    };
    let sum: u128 = start + t;
    let next: u64 = if sum > u64::MAX as u128 {
        u64::MAX
    } else {
        sum as u64
    };
    if now as u128 + tau >= base {
        (Decision::Admit, next)
    } else {
        (Decision::Deny { wait: (base - tau - now as u128) as u64 }, next)
    }
}

/// A keyed rate limiter: one TAT per key, all under one quota. Keys are made
/// on first use and never forgotten.
pub struct RateLimiter {
    quota: Quota,
    entries: Vec<(String, u64)>,
    tats: Ghost<Map<Seq<char>, u64>>,
}

impl RateLimiter {
    /// The quota every key is limited by.
    pub closed spec fn quota(self) -> Quota {
        self.quota
    }

    /// The TAT of every key seen so far.
    pub closed spec fn tats(self) -> Map<Seq<char>, u64> {
        self.tats@
    }

    /// The quota is well formed, and the stored entries hold each key once
    /// and agree with `tats`.
    pub open spec fn wf(self) -> bool {
        &&& self.quota().wf()
        &&& self.store_wf()
    }

    /// The stored entries hold each key once and agree with `tats`.
    pub closed spec fn store_wf(self) -> bool {
        &&& forall|i: int, j: int|
            0 <= i < j < self.entries@.len() ==> #[trigger] self.entries@[i].0@
                != #[trigger] self.entries@[j].0@
        &&& forall|i: int|
            0 <= i < self.entries@.len() ==> self.tats@.contains_key(#[trigger] self.entries@[i].0@)
                && self.tats@[self.entries@[i].0@] == self.entries@[i].1
        &&& forall|k: Seq<char>|
            #[trigger] self.tats@.contains_key(k) ==> exists|i: int|
                0 <= i < self.entries@.len() && #[trigger] self.entries@[i].0@ == k
    }

    /// A limiter under `quota` that has seen no key.
    pub fn new(quota: Quota) -> (r: RateLimiter)
        ensures
            r.wf(),
            r.quota() == quota,
            r.tats() == Map::<Seq<char>, u64>::empty(),
    {
        proof {
            use_type_invariant(&quota);
        }
        RateLimiter { quota, entries: Vec::new(), tats: Ghost(Map::empty()) }
    }

    /// The quota every key is limited by.
    pub fn get_quota(&self) -> (r: Quota)
        ensures
            r == self.quota(),
    {
        self.quota
    }

    /// The position of `key` among the entries, if it is there.
    fn find(&self, key: &String) -> (r: Option<usize>)
        requires
            self.wf(),
        ensures
            r is None <==> !self.tats().contains_key(key@),
            r matches Some(i) ==> i < self.entries@.len() && self.entries@[i as int].0@ == key@,
    {
        let mut i: usize = 0;
        while i < self.entries.len()
            invariant
                self.wf(),
                i <= self.entries@.len(),
                forall|j: int| 0 <= j < i ==> #[trigger] self.entries@[j].0@ != key@,
            decreases self.entries@.len() - i,
        {
            if self.entries[i].0 == *key {
                proof {
                    assert(self.tats@.contains_key(self.entries@[i as int].0@));
                }
                return Some(i);
            }
            i += 1;
        }
        proof {
            if self.tats@.contains_key(key@) {
                let j = choose|j: int| 0 <= j < self.entries@.len() && #[trigger] self.entries@[j].0@ == key@;
                assert(self.entries@[j].0@ != key@);
            }
        }
        None
    }

    /// The TAT stored for `key`, if it has been seen.
    pub fn tat_of(&self, key: &str) -> (r: Option<u64>)
        requires
            self.wf(),
        ensures
            r == lookup(self.tats(), key@),
    {
        let k = key.to_owned();
        match self.find(&k) {
            Some(i) => Some(self.entries[i].1),
            None => None,
        }
    }

    /// Checks one cell of `key` at `now` (nanoseconds on the caller's clock).
    /// An admitted cell moves the key's TAT on; a denied one changes nothing.
    pub fn check(&mut self, key: &str, now: u64) -> (r: Decision)
        requires
            old(self).wf(),
        ensures
            final(self).wf(),
            final(self).quota() == old(self).quota(),
            r == gcra_decision(old(self).quota(), lookup(old(self).tats(), key@), now),
            (r, final(self).tats()) == step(old(self).quota(), old(self).tats(), key@, now),
    {
        let k = key.to_owned();
        let pos = self.find(&k);
        let tat: Option<u64> = match pos {
            Some(i) => Some(self.entries[i].1),
            None => None,
        };
        let (d, next) = gcra(&self.quota, tat, now);
        if let Decision::Admit = d {
            let ghost old_tats = self.tats@;
            let ghost old_entries = self.entries@;
            match pos {
                Some(i) => {
                    self.entries.set(i, (k, next));
                },
                None => {
                    self.entries.push((k, next));
                },
            }
            self.tats = Ghost(old_tats.insert(key@, next));
            proof {
                assert forall|i: int|
                    0 <= i < self.entries@.len() implies self.tats@.contains_key(
                    #[trigger] self.entries@[i].0@,
                ) && self.tats@[self.entries@[i].0@] == self.entries@[i].1 by {
                    if self.entries@[i].0@ != key@ {
                        assert(self.entries@[i] == old_entries[i]);
                    }
                }
                assert forall|kk: Seq<char>| #[trigger] self.tats@.contains_key(kk) implies exists|
                    i: int,
                | 0 <= i < self.entries@.len() && #[trigger] self.entries@[i].0@ == kk by {
                    if kk == key@ {
                        match pos {
                            Some(i) => {
                                assert(self.entries@[i as int].0@ == kk);
                            },
                            None => {
                                assert(self.entries@[old_entries.len() as int].0@ == kk);
                            },
                        }
                    } else {
                        assert(old_tats.contains_key(kk));
                        let i = choose|i: int|
                            0 <= i < old_entries.len() && #[trigger] old_entries[i].0@ == kk;
                        assert(self.entries@[i].0@ == kk);
                    }
                }
            }
        }
        d
    }
}

} // verus!
