//! Per-host token-bucket rate limiting against an explicit clock.
//!
//! Every fetch must win a permit first. A bucket grants at most `capacity`
//! permits inside one refill window; when the window has passed, a fresh
//! window opens with a full bucket. A caller that is refused backs off and
//! asks again — permits are never dropped or queued here.
use vstd::prelude::*;

verus! {

/// One host's token bucket. `granted` counts the permits handed out in the
/// current window; `tokens` are the permits still free in it.
pub struct TokenBucket {
    pub capacity: u32,
    pub tokens: u32,
    pub granted: u32,
    pub window_start_ms: u64,
    pub window_len_ms: u64,
}

impl TokenBucket {
    /// Every permit of the window is either granted or still free.
    pub open spec fn wf(self) -> bool {
        &&& self.granted + self.tokens == self.capacity
        &&& self.window_len_ms > 0
    }

    /// The given instant lies past the current window.
    pub open spec fn window_over(self, now_ms: u64) -> bool {
        now_ms - self.window_start_ms >= self.window_len_ms
    }

    /// A full bucket whose window opens at `now_ms`.
    pub fn new(capacity: u32, window_len_ms: u64, now_ms: u64) -> (r: TokenBucket)
        requires
            window_len_ms > 0,
        ensures
            r.wf(),
            r.capacity == capacity,
            r.tokens == capacity,
            r.granted == 0,
            r.window_start_ms == now_ms,
            r.window_len_ms == window_len_ms,
    {
        TokenBucket { capacity, tokens: capacity, granted: 0, window_start_ms: now_ms, window_len_ms }
    }

    /// Asks for one permit at the given instant. Opens a fresh window first
    /// if the old one has passed. Grants exactly when a token is free, and a
    /// grant takes one token and is counted.
    pub fn try_acquire(&mut self, now_ms: u64) -> (granted: bool)
        requires
            old(self).wf(),
            now_ms >= old(self).window_start_ms,
        ensures
            final(self).wf(),
            final(self).capacity == old(self).capacity,
            final(self).window_len_ms == old(self).window_len_ms,
            granted == (old(self).window_over(now_ms) && old(self).capacity > 0 || !old(self).window_over(now_ms) && old(self).tokens > 0),
            old(self).window_over(now_ms) ==> final(self).window_start_ms == now_ms && final(self).granted == if granted { 1int } else { 0int },
            !old(self).window_over(now_ms) ==> final(self).window_start_ms == old(self).window_start_ms && final(self).granted == old(self).granted + if granted {
                1int
            } else {
                0int
            },
    {
        if now_ms - self.window_start_ms >= self.window_len_ms {
            self.tokens = self.capacity;
            self.granted = 0;
            self.window_start_ms = now_ms;
        }
        if self.tokens > 0 {
            self.tokens = self.tokens - 1;
            self.granted = self.granted + 1;
            true
        } else {
            false
        }
    }
}

/// Law: a well-formed bucket has never granted more permits in its current
/// window than its capacity, however many acquisitions were tried.
pub proof fn lemma_grants_bounded(b: TokenBucket)
    requires
        b.wf(),
    ensures
        b.granted <= b.capacity,
{
}

/// The per-host gate: one bucket per host, hosts named by index, with no
/// cross-host interference.
pub struct RateLimiter {
    pub buckets: Vec<TokenBucket>,
    pub capacity: u32,
    pub window_len_ms: u64,
}

impl RateLimiter {
    pub open spec fn wf(self) -> bool {
        &&& self.window_len_ms > 0
        &&& forall|i: int|
            0 <= i < self.buckets@.len() ==> (#[trigger] self.buckets@[i]).wf()
                && self.buckets@[i].capacity == self.capacity && self.buckets@[i].window_len_ms
                == self.window_len_ms
    }

    /// A limiter granting each host at most `capacity` permits per window.
    pub fn new(capacity: u32, window_len_ms: u64) -> (r: RateLimiter)
        requires
            window_len_ms > 0,
        ensures
            r.wf(),
            r.capacity == capacity,
            r.window_len_ms == window_len_ms,
            r.buckets@.len() == 0,
    {
        RateLimiter { buckets: Vec::new(), capacity, window_len_ms }
    }

    /// Asks for a permit for the given host at the given instant. A host not
    /// seen before starts a full bucket. Buckets of other hosts never change.
    pub fn try_acquire(&mut self, host: usize, now_ms: u64) -> (granted: bool)
        requires
            old(self).wf(),
            host < old(self).buckets@.len() ==> now_ms >= old(self).buckets@[host as int].window_start_ms,
        ensures
            final(self).wf(),
            final(self).capacity == old(self).capacity,
            final(self).window_len_ms == old(self).window_len_ms,
            host >= old(self).buckets@.len() ==> granted == (old(self).capacity > 0),
            forall|i: int|
                0 <= i < old(self).buckets@.len() && i != host ==> final(self).buckets@[i] == old(self).buckets@[i],
            host < final(self).buckets@.len(),
            final(self).buckets@[host as int].granted <= final(self).capacity,
            host < old(self).buckets@.len() ==> ({
                let ob = old(self).buckets@[host as int];
                granted == (ob.window_over(now_ms) && ob.capacity > 0 || !ob.window_over(now_ms)
                    && ob.tokens > 0)
            }),
    {
        while self.buckets.len() <= host
            invariant
                self.wf(),
                self.capacity == old(self).capacity,
                self.window_len_ms == old(self).window_len_ms,
                old(self).buckets@.len() <= self.buckets@.len(),
                forall|i: int|
                    0 <= i < old(self).buckets@.len() ==> self.buckets@[i] == old(self).buckets@[i],
                forall|i: int|
                    old(self).buckets@.len() <= i < self.buckets@.len()
                        ==> (#[trigger] self.buckets@[i]).granted == 0
                        && self.buckets@[i].tokens == self.capacity
                        && self.buckets@[i].window_start_ms == now_ms,
            decreases host - self.buckets@.len() + 1,
        {
            let b = TokenBucket::new(self.capacity, self.window_len_ms, now_ms);
            self.buckets.push(b);
        }
        let mut b = self.buckets.remove(host);
        let granted = b.try_acquire(now_ms);
        self.buckets.insert(host, b);
        granted
    }
}

} // verus!
