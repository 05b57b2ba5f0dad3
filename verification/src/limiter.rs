//! Sliding-window rate limiting: the window holds the timestamps (in
//! milliseconds) of requests issued during the trailing minute; admission
//! prunes stale entries, computes the wait a full window imposes, and
//! records the admitted request.

use vstd::prelude::*;

verus! {

/// Length of the sliding window in milliseconds.
pub const WINDOW_MILLIS: u64 = 60000;

/// The entries of `w` still inside the trailing window at `now`; an entry
/// that lies at or beyond `now` (a clock artefact) is kept.
pub open spec fn pruned_window(w: Seq<u64>, now: u64) -> Seq<u64>
    decreases w.len(),
{
    if w.len() == 0 {
        Seq::<u64>::empty()
    } else if now <= w[0] || now - w[0] < WINDOW_MILLIS {
        seq![w[0]] + pruned_window(w.drop_first(), now)
    } else {
        pruned_window(w.drop_first(), now)
    }
}

/// The wait a caller owes before admission: when the window is at capacity,
/// the time until its oldest entry leaves the window; zero otherwise.
pub open spec fn wait_needed_spec(w: Seq<u64>, max: int, now: u64) -> int {
    if w.len() >= max && w.len() > 0 {
        let elapsed = if now >= w[0] {
            now - w[0]
        } else {
            0
        };
        if elapsed < WINDOW_MILLIS {
            WINDOW_MILLIS - elapsed
        } else {
            0
        }
    } else {
        0
    }
}

/// Sliding-window admission control for outbound requests.  The window is
/// mutated only through the methods below and is never handed out.
pub struct RateLimiter {
    window: Vec<u64>,
    max_requests_per_minute: usize,
}

impl RateLimiter {
    /// The recorded timestamps, oldest first.
    pub closed spec fn window_view(&self) -> Seq<u64> {
        self.window@
    }

    /// The configured ceiling on requests per minute.
    pub closed spec fn capacity(&self) -> int {
        self.max_requests_per_minute as int
    }

    /// Builds a limiter with an empty window.
    pub fn new(max_requests_per_minute: usize) -> (r: RateLimiter)
        ensures
            r.window_view() == Seq::<u64>::empty(),
            r.capacity() == max_requests_per_minute as int,
    {
        RateLimiter { window: Vec::new(), max_requests_per_minute }
    }

    /// Drops the window entries that left the trailing minute.
    pub fn prune(&mut self, now: u64)
        ensures
            final(self).window_view() == pruned_window(old(self).window_view(), now),
            final(self).capacity() == old(self).capacity(),
    {
        let n = self.window.len();
        let mut kept: Vec<u64> = Vec::new();
        proof {
            assert(self.window@.skip(0) =~= self.window@);
            assert(kept@ + pruned_window(self.window@, now) =~= pruned_window(
                self.window@,
                now,
            ));
        }
        let mut i: usize = 0;
        while i < n
            invariant
                n == self.window@.len(),
                0 <= i <= n,
                pruned_window(self.window@, now) == kept@ + pruned_window(
                    self.window@.skip(i as int),
                    now,
                ),
            decreases n - i,
        {
            let t = self.window[i];
            proof {
                assert(self.window@.skip(i as int)[0] == self.window@[i as int]);
                assert(self.window@.skip(i as int).drop_first() =~= self.window@.skip(i + 1));
            }
            if now <= t || now - t < WINDOW_MILLIS {
                proof {
                    assert(kept@ + (seq![t] + pruned_window(self.window@.skip(i + 1), now))
                        =~= kept@.push(t) + pruned_window(self.window@.skip(i + 1), now));
                }
                kept.push(t);
            }
            i = i + 1;
        }
        proof {
            assert(self.window@.skip(n as int) =~= Seq::<u64>::empty());
            assert(kept@ + Seq::<u64>::empty() =~= kept@);
        }
        self.window = kept;
    }

    /// The wait (in milliseconds) the caller owes before issuing one more
    /// request at `now`.
    pub fn wait_millis(&self, now: u64) -> (r: u64)
        ensures
            r as int == wait_needed_spec(self.window_view(), self.capacity(), now),
    {
        if self.window.len() >= self.max_requests_per_minute && self.window.len() > 0 {
            let oldest = self.window[0];
            let elapsed = if now >= oldest {
                now - oldest
            } else {
                0
            };
            if elapsed < WINDOW_MILLIS {
                WINDOW_MILLIS - elapsed
            } else {
                0
            }
        } else {
            0
        }
    }

    /// Records an admitted request issued at `now`.
    pub fn record(&mut self, now: u64)
        ensures
            final(self).window_view() == old(self).window_view().push(now),
            final(self).capacity() == old(self).capacity(),
    {
        self.window.push(now);
    }
}

/// Every entry of a pruned window lies inside the trailing minute at `now`.
pub proof fn lemma_pruned_in_window(w: Seq<u64>, now: u64, k: int)
    requires
        0 <= k < pruned_window(w, now).len(),
    ensures
        now <= pruned_window(w, now)[k] || now - pruned_window(w, now)[k] < WINDOW_MILLIS,
    decreases w.len(),
{
    if w.len() > 0 {
        if now <= w[0] || now - w[0] < WINDOW_MILLIS {
            if k > 0 {
                lemma_pruned_in_window(w.drop_first(), now, k - 1);
            }
        } else {
            lemma_pruned_in_window(w.drop_first(), now, k);
        }
    }
}

/// A caller that owes no wait over a freshly pruned window finds it below
/// capacity, so admitting one more request keeps the trailing-minute count
/// at or below the ceiling.
pub proof fn lemma_no_wait_means_room(w: Seq<u64>, max: int, now: u64)
    requires
        max > 0,
        wait_needed_spec(pruned_window(w, now), max, now) == 0,
    ensures
        pruned_window(w, now).len() < max,
{
    let p = pruned_window(w, now);
    if p.len() >= max {
        lemma_pruned_in_window(w, now, 0);
    }
}

} // verus!
