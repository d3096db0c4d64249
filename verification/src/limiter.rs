//! The rate limiter: when a call to an endpoint may go out.
//!
//! The limiter remembers, for each endpoint, when the last call to it went
//! out. A call that arrives too soon after the last one to its endpoint has
//! to sleep for the rest of the interval. Times are readings of a monotonic
//! clock: the time since an origin that the caller fixes.

use crate::time::Span;
use vstd::prelude::*;

verus! {

/// The least time between two calls to one endpoint, in milliseconds.
pub const MIN_INTERVAL_MILLIS: u64 = 1000;

/// How long a call has to sleep that arrives at `now`, where the last call
/// to its endpoint went out at `last` and calls must lie `interval` apart:
/// what is missing of the interval, and nothing after it has passed or where
/// there was no call before. All in nanoseconds.
pub open spec fn wait_nanos(last: Option<nat>, now: nat, interval: nat) -> nat {
    match last {
        Some(before) => {
            let elapsed = if now >= before {
                now - before
            } else {
                0
            };
            if elapsed < interval {
                (interval - elapsed) as nat
            } else {
                0
            }
        },
        None => 0,
    }
}

/// A call that arrives after the last call to its endpoint goes out, once
/// it has slept as told, no sooner than the interval after that call; and
/// where it arrived within the interval, exactly the interval after it.
pub proof fn lemma_calls_lie_apart(last: nat, now: nat, interval: nat)
    requires
        last <= now,
    ensures
        now + wait_nanos(Some(last), now, interval) >= last + interval,
        now - last < interval ==> now + wait_nanos(Some(last), now, interval) == last + interval,
        now - last >= interval ==> wait_nanos(Some(last), now, interval) == 0,
{
}

/// Whether no endpoint occurs twice.
spec fn distinct_endpoints(calls: Seq<(String, Span)>) -> bool {
    forall|i: int, j: int|
        0 <= i < j < calls.len() ==> (#[trigger] calls[i]).0@ != (#[trigger] calls[j]).0@
}

/// Whether `calls` holds `endpoint` at the index `at`.
spec fn holds_at(calls: Seq<(String, Span)>, endpoint: Seq<char>, at: int) -> bool {
    0 <= at < calls.len() && calls[at].0@ == endpoint
}

/// The time held for `endpoint`, in nanoseconds; `None` where none is held.
spec fn held_for(calls: Seq<(String, Span)>, endpoint: Seq<char>) -> Option<nat> {
    if exists|at: int| holds_at(calls, endpoint, at) {
        let at = choose|at: int| holds_at(calls, endpoint, at);
        Some(calls[at].1.as_nanos())
    } else {
        None
    }
}

/// Among distinct endpoints, one that is held at an index has the time at
/// that index.
proof fn lemma_held_at(calls: Seq<(String, Span)>, endpoint: Seq<char>, at: int)
    requires
        distinct_endpoints(calls),
        holds_at(calls, endpoint, at),
    ensures
        held_for(calls, endpoint) == Some(calls[at].1.as_nanos()),
{
    let chosen = choose|at: int| holds_at(calls, endpoint, at);
    if chosen < at {
        assert(calls[chosen].0@ != calls[at].0@);
    } else if at < chosen {
        assert(calls[at].0@ != calls[chosen].0@);
    }
}

/// Two lists of distinct endpoints hold the same time for an endpoint that
/// sits at the same indices in both, with the same times there.
proof fn lemma_held_alike(
    before: Seq<(String, Span)>,
    after: Seq<(String, Span)>,
    endpoint: Seq<char>,
)
    requires
        distinct_endpoints(before),
        distinct_endpoints(after),
        forall|at: int| holds_at(before, endpoint, at) <==> holds_at(after, endpoint, at),
        forall|at: int| holds_at(before, endpoint, at) ==> before[at].1 == after[at].1,
    ensures
        held_for(before, endpoint) == held_for(after, endpoint),
{
    if exists|at: int| holds_at(before, endpoint, at) {
        let at = choose|at: int| holds_at(before, endpoint, at);
        lemma_held_at(before, endpoint, at);
        lemma_held_at(after, endpoint, at);
    } else {
        assert(forall|at: int| !holds_at(after, endpoint, at));
    }
}

/// For each endpoint called so far, by its exact path, the time of the last
/// call to it.
#[derive(Debug)]
pub struct RateLimiter {
    last_call_time: Vec<(String, Span)>,
}

impl RateLimiter {
    #[verifier::type_invariant]
    spec fn well_formed(self) -> bool {
        distinct_endpoints(self.last_call_time@)
    }

    /// When the last call to `endpoint` went out, in nanoseconds on the
    /// caller's clock; `None` where there was none.
    pub closed spec fn last_call(self, endpoint: Seq<char>) -> Option<nat> {
        held_for(self.last_call_time@, endpoint)
    }

    /// The least time between two calls to `endpoint`, in nanoseconds: one
    /// second, whatever the endpoint.
    pub open spec fn interval_nanos(endpoint: Seq<char>) -> nat {
        MIN_INTERVAL_MILLIS as nat * 1_000_000
    }

    /// A limiter that has seen no call.
    pub fn new() -> (limiter: RateLimiter)
        ensures
            forall|endpoint: Seq<char>| limiter.last_call(endpoint) is None,
    {
        let limiter = RateLimiter { last_call_time: Vec::new() };
        assert forall|endpoint: Seq<char>| limiter.last_call(endpoint) is None by {
            assert(forall|at: int| !holds_at(limiter.last_call_time@, endpoint, at));
        }
        limiter
    }

    /// The least time between two calls to `endpoint`.
    pub fn min_interval(endpoint: &str) -> (interval: Span)
        ensures
            interval.as_nanos() == Self::interval_nanos(endpoint@),
    {
        Span::from_millis(MIN_INTERVAL_MILLIS)
    }

    /// Where `endpoint` is held, if it is.
    fn position(&self, endpoint: &String) -> (found: Option<usize>)
        ensures
            found matches Some(at) ==> holds_at(self.last_call_time@, endpoint@, at as int),
            found is None ==> forall|at: int| !holds_at(self.last_call_time@, endpoint@, at),
    {
        let mut i: usize = 0;
        while i < self.last_call_time.len()
            invariant
                i <= self.last_call_time.len(),
                forall|at: int| 0 <= at < i ==> !holds_at(self.last_call_time@, endpoint@, at),
            decreases self.last_call_time.len() - i,
        {
            if self.last_call_time[i].0 == *endpoint {
                return Some(i);
            }
            i += 1;
        }
        None
    }

    /// Decides how long a call to `endpoint` that arrives at `now` has to
    /// sleep before it goes out: where the last call to this endpoint lies
    /// less than the interval back, the rest of the interval; else nothing.
    /// The limiter is left as it is: the call is recorded by `record`, after
    /// the sleep.
    pub fn acquire(&self, endpoint: &str, now: Span) -> (wait: Span)
        ensures
            wait.as_nanos() == wait_nanos(
                self.last_call(endpoint@),
                now.as_nanos(),
                Self::interval_nanos(endpoint@),
            ),
    {
        proof {
            use_type_invariant(self);
        }
        let name = String::from_str(endpoint);
        match self.position(&name) {
            Some(at) => {
                proof {
                    lemma_held_at(self.last_call_time@, endpoint@, at as int);
                }
                let elapsed = now.saturating_sub(&self.last_call_time[at].1);
                Self::min_interval(endpoint).saturating_sub(&elapsed)
            },
            None => Span::zero(),
        }
    }

    /// Records that a call to `endpoint` goes out at `now`. Other endpoints
    /// keep their times.
    pub fn record(&mut self, endpoint: &str, now: Span)
        ensures
            final(self).last_call(endpoint@) == Some(now.as_nanos()),
            forall|other: Seq<char>|
                other != endpoint@ ==> final(self).last_call(other) == old(self).last_call(other),
    {
        proof {
            use_type_invariant(&*self);
        }
        let name = String::from_str(endpoint);
        let found = self.position(&name);
        let mut calls: Vec<(String, Span)> = Vec::new();
        core::mem::swap(&mut self.last_call_time, &mut calls);
        let ghost before = calls@;
        match found {
            Some(at) => {
                calls.set(at, (name, now));
                proof {
                    assert forall|i: int, j: int| 0 <= i < j < calls@.len() implies (
                    #[trigger] calls@[i]).0@ != (#[trigger] calls@[j]).0@ by {
                        assert(calls@[i].0@ == before[i].0@ && calls@[j].0@ == before[j].0@);
                    }
                    lemma_held_at(calls@, endpoint@, at as int);
                }
            },
            None => {
                calls.push((name, now));
                proof {
                    assert forall|i: int, j: int| 0 <= i < j < calls@.len() implies (
                    #[trigger] calls@[i]).0@ != (#[trigger] calls@[j]).0@ by {
                        assert(calls@[i] == before[i]);
                        if j == before.len() {
                            assert(!holds_at(before, endpoint@, i));
                        } else {
                            assert(calls@[j] == before[j]);
                        }
                    }
                    lemma_held_at(calls@, endpoint@, before.len() as int);
                }
            },
        }
        proof {
            assert forall|other: Seq<char>| other != endpoint@ implies held_for(calls@, other)
                == held_for(before, other) by {
                lemma_held_alike(before, calls@, other);
            }
        }
        core::mem::swap(&mut self.last_call_time, &mut calls);
    }
}

} // verus!
