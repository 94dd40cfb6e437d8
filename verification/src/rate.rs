//! The limit on the requests sent to one upstream within a window.
//!
//! The limiter counts, per upstream address, the requests routed to it since
//! the counters were last cleared. The caller clears them once per window, so
//! the window is fixed, not sliding. A limit of zero switches the limiter off.

use vstd::hash_map::StringHashMap;
use vstd::prelude::*;

verus! {

/// The length of the window, in seconds, after which the caller clears the counters.
pub const WINDOW_SECS: u64 = 60;

/// Whether a request may go to its upstream.
#[derive(Clone, Copy, Debug, PartialEq, Eq, Structural)]
pub enum RateDecision {
    Allowed,
    Rejected,
}

/// What a limiter holds: the limit, and the count of each upstream that has one.
pub struct RateView {
    pub max_per_minute: usize,
    pub counts: Map<Seq<char>, usize>,
}

impl RateView {
    /// The requests counted for `addr` in this window; none if it has no counter.
    pub open spec fn count(self, addr: Seq<char>) -> nat {
        if self.counts.contains_key(addr) {
            self.counts[addr] as nat
        } else {
            0
        }
    }

    /// The decision on one more request for `addr`: it is rejected once its
    /// count, this request included, is over the limit.
    pub open spec fn decide(self, addr: Seq<char>) -> RateDecision {
        if self.max_per_minute == 0 || self.count(addr) + 1 <= self.max_per_minute {
            RateDecision::Allowed
        } else {
            RateDecision::Rejected
        }
    }

    /// The limiter after one more request for `addr` was decided. The request
    /// counts whatever the decision was. A count that has reached `usize::MAX`
    /// stays there; such a count is over every limit.
    pub open spec fn record(self, addr: Seq<char>) -> RateView {
        if self.max_per_minute == 0 {
            self
        } else if self.count(addr) < usize::MAX {
            RateView { counts: self.counts.insert(addr, (self.count(addr) + 1) as usize), ..self }
        } else {
            RateView { counts: self.counts.insert(addr, usize::MAX), ..self }
        }
    }

    /// The limiter at the start of a window: the same limit, and no counter.
    pub open spec fn clear(self) -> RateView {
        RateView { counts: Map::empty(), ..self }
    }

    /// The limiter after `n` requests for `addr` were decided, one after the other.
    pub open spec fn record_many(self, addr: Seq<char>, n: nat) -> RateView
        decreases n,
    {
        if n == 0 {
            self
        } else {
            self.record_many(addr, (n - 1) as nat).record(addr)
        }
    }
}

/// The request counters of all upstreams, and the limit they are held to.
pub struct RateLimiter {
    max_per_minute: usize,
    counters: StringHashMap<usize>,
}

impl View for RateLimiter {
    type V = RateView;

    closed spec fn view(&self) -> RateView {
        RateView { max_per_minute: self.max_per_minute, counts: self.counters@ }
    }
}

impl RateLimiter {
    /// A limiter with the given limit per window (zero: no limit) and no counter.
    pub fn new(max_per_minute: usize) -> (limiter: RateLimiter)
        ensures
            limiter@ == (RateView { max_per_minute, counts: Map::empty() }),
    {
        RateLimiter { max_per_minute, counters: StringHashMap::new() }
    }

    /// The limit per window; zero if there is none.
    pub fn max_per_minute(&self) -> (max: usize)
        ensures
            max == self@.max_per_minute,
    {
        self.max_per_minute
    }

    /// The requests counted for `addr` in this window.
    pub fn count(&self, addr: &str) -> (count: usize)
        ensures
            count == self@.count(addr@),
    {
        match self.counters.get(addr) {
            Some(count) => *count,
            None => 0,
        }
    }

    /// Counts one more request for `addr` and decides whether it may go there.
    ///
    /// With a limit of zero every request is allowed and nothing is counted.
    pub fn check_and_increment(&mut self, addr: &str) -> (decision: RateDecision)
        ensures
            decision == old(self)@.decide(addr@),
            final(self)@ == old(self)@.record(addr@),
    {
        if self.max_per_minute == 0 {
            return RateDecision::Allowed;
        }
        let seen = self.count(addr);
        let counted = if seen < usize::MAX {
            seen + 1
        } else {
            seen
        };
        self.counters.insert(addr.to_owned(), counted);
        if seen < self.max_per_minute {
            RateDecision::Allowed
        } else {
            RateDecision::Rejected
        }
    }

    /// Starts a new window: forgets every counter.
    pub fn clear_all(&mut self)
        ensures
            final(self)@ == old(self)@.clear(),
    {
        self.counters.clear();
    }
}

/// Between two clearings no count goes down, and a request changes no count
/// but that of its own upstream.
pub proof fn lemma_counts_only_grow(limiter: RateView, addr: Seq<char>, other: Seq<char>)
    ensures
        limiter.record(addr).count(other) >= limiter.count(other),
        other != addr ==> limiter.record(addr).count(other) == limiter.count(other),
        limiter.record(addr).max_per_minute == limiter.max_per_minute,
{
}

/// After `n` requests for an upstream that had no count, its count is `n`,
/// unless the limiter is switched off or the count has reached `usize::MAX`.
pub proof fn lemma_count_after(limiter: RateView, addr: Seq<char>, n: nat)
    requires
        limiter.count(addr) == 0,
    ensures
        limiter.record_many(addr, n).max_per_minute == limiter.max_per_minute,
        limiter.max_per_minute == 0 ==> limiter.record_many(addr, n) == limiter,
        limiter.max_per_minute > 0 ==> limiter.record_many(addr, n).count(addr) == if n
            <= usize::MAX {
            n
        } else {
            usize::MAX as nat
        },
    decreases n,
{
    if n > 0 {
        lemma_count_after(limiter, addr, (n - 1) as nat);
    }
}

/// With a limit of `max_per_minute > 0`, of the requests for one upstream that
/// follow a clearing, the first `max_per_minute` are allowed and every later
/// one is rejected: the `n`th is allowed exactly if `n <= max_per_minute`.
/// What was counted before the clearing plays no part.
pub proof fn lemma_limit_per_window(limiter: RateView, addr: Seq<char>, n: nat)
    requires
        limiter.max_per_minute > 0,
        n >= 1,
    ensures
        limiter.clear().record_many(addr, (n - 1) as nat).decide(addr) == if n
            <= limiter.max_per_minute {
            RateDecision::Allowed
        } else {
            RateDecision::Rejected
        },
{
    lemma_count_after(limiter.clear(), addr, (n - 1) as nat);
}

/// With a limit of zero every request is allowed, however many came before,
/// and nothing is counted.
pub proof fn lemma_unlimited(limiter: RateView, addr: Seq<char>, n: nat)
    requires
        limiter.max_per_minute == 0,
    ensures
        limiter.record_many(addr, n).decide(addr) == RateDecision::Allowed,
        limiter.record_many(addr, n) == limiter,
    decreases n,
{
    if n > 0 {
        lemma_unlimited(limiter, addr, (n - 1) as nat);
    }
}

} // verus!
