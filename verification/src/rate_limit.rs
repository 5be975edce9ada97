//! Sliding-window request throttling keyed by resolved client address.
//!
//! Two configured numbers (a per-minute rate and a burst allowance) collapse
//! into one effective cap, the larger of the two and at least one, enforced
//! over a fixed sixty-second trailing window: older timestamps are evicted
//! from the front of an address's queue, and a request is admitted only while
//! fewer than the cap remain.

use vstd::prelude::*;
use crate::errors::AppError;
use crate::net::IpAddress;

verus! {

/// The trailing window, in milliseconds: sixty seconds.
pub const WINDOW_MILLIS: u64 = 60000;

struct WindowEntry {
    addr: IpAddress,
    times: Vec<u64>,
}

/// Per-address sliding-window request counter.
pub struct RateLimiter {
    limit: u32,
    entries: Vec<WindowEntry>,
}

/// The effective cap: the larger of the two configured numbers, at least one.
pub open spec fn spec_cap(per_minute: u32, burst: u32) -> u32 {
    if burst >= per_minute && burst >= 1 {
        burst
    } else if per_minute >= 1 {
        per_minute
    } else {
        1
    }
}

/// The eviction threshold for a check at `now`: one window back, saturating
/// at zero.
pub open spec fn cutoff_spec(now: u64) -> u64 {
    if now >= WINDOW_MILLIS {
        (now - WINDOW_MILLIS) as u64
    } else {
        0
    }
}

/// Front-eviction of timestamps older than the threshold.
pub open spec fn evict_spec(times: Seq<u64>, cutoff: u64) -> Seq<u64>
    decreases times.len(),
{
    if times.len() > 0 && times[0] < cutoff {
        evict_spec(times.skip(1), cutoff)
    } else {
        times
    }
}

/// One admission decision: evict, then admit and record exactly when fewer
/// than `cap` timestamps remain.
pub open spec fn admit_spec(w: Seq<u64>, cap: u32, now: u64) -> (Seq<u64>, bool) {
    let kept = evict_spec(w, cutoff_spec(now));
    if kept.len() < cap {
        (kept.push(now), true)
    } else {
        (kept, false)
    }
}

/// The admission decisions of a run of checks for one address, oldest call
/// first: each call sees the window the previous one left, as
/// [`RateLimiter::check`] promises.
pub open spec fn run_model(w: Seq<u64>, cap: u32, times: Seq<u64>) -> Seq<bool>
    decreases times.len(),
{
    if times.len() == 0 {
        Seq::<bool>::empty()
    } else {
        seq![admit_spec(w, cap, times[0]).1] + run_model(
            admit_spec(w, cap, times[0]).0,
            cap,
            times.skip(1),
        )
    }
}

proof fn lemma_evict_le(times: Seq<u64>, cutoff: u64)
    ensures
        evict_spec(times, cutoff).len() <= times.len(),
    decreases times.len(),
{
    if times.len() > 0 && times[0] < cutoff {
        lemma_evict_le(times.skip(1), cutoff);
    }
}

/// Law: once every check has run through [`admit_spec`], an address's window
/// never holds more than the cap; with the recorded timestamps being exactly
/// the admitted requests not yet outside the window, no more than `cap`
/// requests are ever admitted against one window.
pub proof fn lemma_window_bounded(w: Seq<u64>, cap: u32, now: u64)
    requires
        w.len() <= cap,
    ensures
        admit_spec(w, cap, now).0.len() <= cap,
{
    lemma_evict_le(w, cutoff_spec(now));
}

/// The timestamps at or after the threshold, in order.
pub open spec fn recent_only(times: Seq<u64>, cutoff: u64) -> Seq<u64>
    decreases times.len(),
{
    if times.len() == 0 {
        Seq::<u64>::empty()
    } else if times[0] >= cutoff {
        seq![times[0]] + recent_only(times.skip(1), cutoff)
    } else {
        recent_only(times.skip(1), cutoff)
    }
}

proof fn lemma_recent_only_id(times: Seq<u64>, cutoff: u64)
    requires
        forall|k: int| 0 <= k < times.len() ==> #[trigger] times[k] >= cutoff,
    ensures
        recent_only(times, cutoff) == times,
    decreases times.len(),
{
    if times.len() > 0 {
        assert(forall|k: int|
            0 <= k < times.skip(1).len() ==> #[trigger] times.skip(1)[k] >= cutoff);
        lemma_recent_only_id(times.skip(1), cutoff);
        assert(recent_only(times, cutoff) =~= times);
    }
}

/// Law: on a queue kept in arrival order, front-eviction removes exactly the
/// timestamps older than the threshold — so an address's window holds
/// precisely its admitted requests still inside the trailing sixty seconds.
pub proof fn lemma_evict_exact(times: Seq<u64>, cutoff: u64)
    requires
        forall|a: int, b: int| 0 <= a <= b < times.len() ==> times[a] <= times[b],
    ensures
        evict_spec(times, cutoff) == recent_only(times, cutoff),
    decreases times.len(),
{
    if times.len() > 0 {
        assert(forall|a: int, b: int|
            0 <= a <= b < times.skip(1).len() ==> times.skip(1)[a] <= times.skip(1)[b]);
        if times[0] < cutoff {
            lemma_evict_exact(times.skip(1), cutoff);
        } else {
            assert(forall|k: int| 0 <= k < times.len() ==> #[trigger] times[k] >= cutoff);
            lemma_recent_only_id(times, cutoff);
        }
    }
}

proof fn lemma_run_fills_then_rejects(p: Seq<u64>, rest: Seq<u64>, cap: u32)
    requires
        cap >= 1,
        p.len() <= cap,
        p.len() + rest.len() == cap + 1,
        forall|a: int, b: int|
            0 <= a <= b < (p + rest).len() ==> (p + rest)[a] <= (p + rest)[b],
        (p + rest).last() <= (p + rest)[0] + WINDOW_MILLIS,
    ensures
        run_model(p, cap, rest) == Seq::new(rest.len(), |i: int| i < rest.len() - 1),
    decreases rest.len(),
{
    let combined = p + rest;
    let now = rest[0];
    let cutoff = cutoff_spec(now);
    assert(rest[0] == combined[p.len() as int]);
    if p.len() > 0 {
        assert(p[0] == combined[0]);
        assert(now <= combined.last());
        assert(p[0] >= cutoff);
    }
    assert(evict_spec(p, cutoff) == p);
    if rest.len() == 1 {
        assert(p.len() == cap);
        assert(admit_spec(p, cap, now).1 == false);
        assert(run_model(admit_spec(p, cap, now).0, cap, rest.skip(1)) =~= Seq::<bool>::empty());
        assert(run_model(p, cap, rest) =~= Seq::new(rest.len(), |i: int| i < rest.len() - 1));
    } else {
        assert(p.len() < cap);
        assert(admit_spec(p, cap, now).1 == true);
        let p2 = p.push(now);
        assert(admit_spec(p, cap, now).0 == p2);
        assert(p2 + rest.skip(1) =~= combined);
        lemma_run_fills_then_rejects(p2, rest.skip(1), cap);
        assert(run_model(p, cap, rest) =~= Seq::new(rest.len(), |i: int| i < rest.len() - 1));
    }
}

/// Law: for a fresh client address, any run of `cap + 1` requests whose
/// timestamps all lie within one sixty-second window admits every one of the
/// first `cap` and rejects the last.
pub proof fn lemma_window_cap_law(cap: u32, times: Seq<u64>)
    requires
        cap >= 1,
        times.len() == cap + 1,
        forall|a: int, b: int| 0 <= a <= b < times.len() ==> times[a] <= times[b],
        times.last() <= times[0] + WINDOW_MILLIS,
    ensures
        forall|i: int| 0 <= i < cap ==> run_model(Seq::<u64>::empty(), cap, times)[i] == true,
        run_model(Seq::<u64>::empty(), cap, times)[cap as int] == false,
{
    assert(Seq::<u64>::empty() + times =~= times);
    lemma_run_fills_then_rejects(Seq::<u64>::empty(), times, cap);
}

spec fn lookup(es: Seq<WindowEntry>, a: IpAddress) -> Option<Seq<u64>>
    decreases es.len(),
{
    if es.len() == 0 {
        None
    } else if es[0].addr == a {
        Some(es[0].times@)
    } else {
        lookup(es.skip(1), a)
    }
}

spec fn unique_addrs(es: Seq<WindowEntry>) -> bool {
    forall|i: int, j: int|
        0 <= i < j < es.len() ==> (#[trigger] es[i].addr) != (#[trigger] es[j].addr)
}

proof fn lemma_lookup_absent(es: Seq<WindowEntry>, a: IpAddress)
    requires
        forall|k: int| 0 <= k < es.len() ==> (#[trigger] es[k].addr) != a,
    ensures
        lookup(es, a) is None,
    decreases es.len(),
{
    if es.len() > 0 {
        assert(forall|k: int|
            0 <= k < es.skip(1).len() ==> (#[trigger] es.skip(1)[k]).addr != a);
        lemma_lookup_absent(es.skip(1), a);
    }
}

proof fn lemma_lookup_remove(es: Seq<WindowEntry>, i: int, a: IpAddress)
    requires
        0 <= i < es.len(),
        es[i].addr != a,
    ensures
        lookup(es.remove(i), a) == lookup(es, a),
    decreases es.len(),
{
    if i == 0 {
        assert(es.remove(0) =~= es.skip(1));
    } else {
        assert(es.remove(i)[0] == es[0]);
        assert(es.remove(i).skip(1) =~= es.skip(1).remove(i - 1));
        if es[0].addr == a {
            assert(es.remove(i).len() > 0);
        } else {
            lemma_lookup_remove(es.skip(1), i - 1, a);
        }
    }
}

proof fn lemma_lookup_present(es: Seq<WindowEntry>, i: int, a: IpAddress)
    requires
        0 <= i < es.len(),
        es[i].addr == a,
        forall|k: int| 0 <= k < i ==> (#[trigger] es[k].addr) != a,
    ensures
        lookup(es, a) == Some(es[i].times@),
    decreases es.len(),
{
    if i > 0 {
        assert(es.skip(1)[i - 1] == es[i]);
        assert(forall|k: int|
            0 <= k < i - 1 ==> (#[trigger] es.skip(1)[k]).addr != a);
        lemma_lookup_present(es.skip(1), i - 1, a);
    }
}

proof fn lemma_lookup_push(es: Seq<WindowEntry>, e: WindowEntry, a: IpAddress)
    ensures
        lookup(es.push(e), a) == {
            if lookup(es, a) is Some {
                lookup(es, a)
            } else if e.addr == a {
                Some(e.times@)
            } else {
                None
            }
        },
    decreases es.len(),
{
    if es.len() == 0 {
        assert(es.push(e)[0] == e);
        assert(es.push(e).skip(1) =~= Seq::<WindowEntry>::empty());
        if e.addr == a {
            assert(lookup(es.push(e), a) == Some(e.times@));
        } else {
            assert(lookup(Seq::<WindowEntry>::empty(), a) is None);
            assert(lookup(es.push(e), a) is None);
        }
    } else {
        assert(es.push(e)[0] == es[0]);
        assert(es.push(e).skip(1) =~= es.skip(1).push(e));
        lemma_lookup_push(es.skip(1), e, a);
        if es[0].addr == a {
            assert(lookup(es.push(e), a) == Some(es[0].times@));
            assert(lookup(es, a) == Some(es[0].times@));
        } else {
            assert(lookup(es.push(e), a) == lookup(es.skip(1).push(e), a));
            assert(lookup(es, a) == lookup(es.skip(1), a));
        }
    }
}

impl RateLimiter {
    /// The effective cap this limiter enforces.
    pub closed spec fn cap(self) -> u32 {
        self.limit
    }

    /// The recorded timestamps for one client address, oldest first.
    pub closed spec fn window(self, a: IpAddress) -> Seq<u64> {
        match lookup(self.entries@, a) {
            Some(w) => w,
            None => Seq::<u64>::empty(),
        }
    }

    /// Internal well-formedness: one queue per address, cap at least one.
    pub closed spec fn wf(self) -> bool {
        unique_addrs(self.entries@) && self.limit >= 1
    }

    /// A limiter with the effective cap `max(per_minute, burst, 1)` and no
    /// recorded requests.
    pub fn new(per_minute: u32, burst: u32) -> (r: RateLimiter)
        ensures
            r.wf(),
            r.cap() == spec_cap(per_minute, burst),
            forall|a: IpAddress| r.window(a) == Seq::<u64>::empty(),
    {
        let limit = if burst >= per_minute && burst >= 1 {
            burst
        } else if per_minute >= 1 {
            per_minute
        } else {
            1
        };
        let r = RateLimiter { limit, entries: Vec::new() };
        proof {
            assert(forall|a: IpAddress| lookup(r.entries@, a) is None);
        }
        r
    }

    /// One admission check for `addr` at time `now` (milliseconds on a
    /// monotonic clock): evicts timestamps older than the window from the
    /// front of the address's queue, then either records `now` and admits,
    /// or rejects with a throttling failure and records nothing. Queues of
    /// other addresses are untouched.
    pub fn check(&mut self, addr: IpAddress, now: u64) -> (r: Result<(), AppError>)
        requires
            old(self).wf(),
        ensures
            final(self).wf(),
            final(self).cap() == old(self).cap(),
            final(self).window(addr) == admit_spec(old(self).window(addr), old(self).cap(), now).0,
            r is Ok == admit_spec(old(self).window(addr), old(self).cap(), now).1,
            forall|a: IpAddress| a != addr ==> final(self).window(a) == old(self).window(a),
            r matches Err(e) ==> e == AppError::TooManyRequests,
    {
        let ghost es0 = self.entries@;
        let ghost limit0 = self.limit;
        let n = self.entries.len();
        let mut i: usize = 0;
        let mut idx: usize = n;
        while i < n
            invariant
                self.entries@ == es0,
                self.limit == limit0,
                n == es0.len(),
                i <= n,
                idx <= n,
                idx == n ==> forall|k: int| 0 <= k < i ==> (#[trigger] es0[k].addr) != addr,
                idx < n ==> es0[idx as int].addr == addr && forall|k: int|
                    0 <= k < idx ==> (#[trigger] es0[k].addr) != addr,
            decreases n - i,
        {
            if idx == n && self.entries[i].addr == addr {
                idx = i;
            }
            i += 1;
        }
        let mut entry = if idx < n {
            proof {
                lemma_lookup_present(es0, idx as int, addr);
            }
            let e = self.entries.remove(idx);
            proof {
                assert forall|a: IpAddress| a != es0[idx as int].addr implies lookup(
                    self.entries@,
                    a,
                ) == lookup(es0, a) by {
                    lemma_lookup_remove(es0, idx as int, a);
                }
                assert forall|k: int| 0 <= k < self.entries@.len() implies (
                #[trigger] self.entries@[k].addr) != addr by {
                    if k < idx {
                        assert(self.entries@[k] == es0[k]);
                    } else {
                        assert(self.entries@[k] == es0[k + 1]);
                    }
                }
                lemma_lookup_absent(self.entries@, addr);
            }
            e
        } else {
            proof {
                lemma_lookup_absent(es0, addr);
            }
            WindowEntry { addr, times: Vec::new() }
        };
        let ghost w0 = match lookup(es0, addr) {
            Some(w) => w,
            None => Seq::<u64>::empty(),
        };
        proof {
            assert(entry.times@ == w0);
            assert(entry.addr == addr);
            assert(unique_addrs(self.entries@)) by {
                if idx < n {
                    assert(forall|p: int, q: int|
                        0 <= p < q < self.entries@.len() ==> (
                        #[trigger] self.entries@[p].addr) != (#[trigger] self.entries@[q].addr))
                        by {
                        assert(forall|p: int|
                            0 <= p < self.entries@.len() ==> #[trigger] self.entries@[p]
                                == if p < idx {
                                es0[p]
                            } else {
                                es0[p + 1]
                            });
                    }
                }
            }
        }
        let cutoff = if now >= WINDOW_MILLIS {
            now - WINDOW_MILLIS
        } else {
            0
        };
        while entry.times.len() > 0 && entry.times[0] < cutoff
            invariant
                entry.addr == addr,
                cutoff == cutoff_spec(now),
                evict_spec(entry.times@, cutoff) == evict_spec(w0, cutoff),
            decreases entry.times@.len(),
        {
            let ghost before = entry.times@;
            entry.times.remove(0);
            proof {
                assert(entry.times@ =~= before.skip(1));
            }
        }
        proof {
            assert(evict_spec(entry.times@, cutoff) == entry.times@);
        }
        let admitted = entry.times.len() < self.limit as usize;
        if admitted {
            entry.times.push(now);
        }
        let ghost entry_final = entry;
        proof {
            lemma_lookup_push(self.entries@, entry_final, addr);
            assert forall|a: IpAddress| a != addr implies lookup(
                self.entries@.push(entry_final),
                a,
            ) == lookup(self.entries@, a) by {
                lemma_lookup_push(self.entries@, entry_final, a);
            }
        }
        self.entries.push(entry);
        proof {
            assert(unique_addrs(self.entries@)) by {
                assert(forall|p: int|
                    0 <= p < self.entries@.len() - 1 ==> (#[trigger] self.entries@[p].addr)
                        != addr);
            }
        }
        if admitted {
            Ok(())
        } else {
            Err(AppError::TooManyRequests)
        }
    }
}

} // verus!
