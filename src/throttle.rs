use vstd::prelude::*;

verus! {

/// The least gap, in milliseconds, between the end of one page request and
/// the start of the next.
pub const PAGE_INTERVAL_MS: u64 = 1500;

/// Spacing of page requests: when the last request ended, and the least gap
/// before the next one. Times are milliseconds on a monotonic clock.
#[derive(Clone, Debug, PartialEq, Eq)]
pub struct RateLimiter {
    pub min_interval_ms: u64,
    pub last_ms: Option<u64>,
}

/// How long to wait at time `now` before the next request may start.
pub open spec fn wait_for(last: Option<u64>, interval: u64, now: u64) -> int {
    match last {
        Some(t) => {
            let w = t + interval - now;
            if w <= 0 {
                0
            } else if w > u64::MAX {
                u64::MAX as int
            } else {
                w
            }
        },
        None => 0,
    }
}

impl RateLimiter {
    /// A limiter whose clock starts at `now_ms`: the first request also waits
    /// a full interval from then.
    pub fn started_at(min_interval_ms: u64, now_ms: u64) -> (r: RateLimiter)
        ensures
            r.min_interval_ms == min_interval_ms,
            r.last_ms == Some(now_ms),
    {
        RateLimiter { min_interval_ms, last_ms: Some(now_ms) }
    }

    /// A limiter that lets the first request through at once.
    pub fn new(min_interval_ms: u64) -> (r: RateLimiter)
        ensures
            r.min_interval_ms == min_interval_ms,
            r.last_ms is None,
    {
        RateLimiter { min_interval_ms, last_ms: None }
    }

    /// Milliseconds to wait at time `now_ms` before the next request.
    pub fn wait_ms(&self, now_ms: u64) -> (r: u64)
        ensures
            r == wait_for(self.last_ms, self.min_interval_ms, now_ms),
    {
        match self.last_ms {
            Some(t) => {
                if now_ms >= t {
                    let elapsed = now_ms - t;
                    if elapsed < self.min_interval_ms {
                        self.min_interval_ms - elapsed
                    } else {
                        0
                    }
                } else {
                    (t - now_ms).saturating_add(self.min_interval_ms)
                }
            },
            None => 0,
        }
    }

    /// Restarts the clock: a request ended at `now_ms`.
    pub fn mark(&mut self, now_ms: u64)
        ensures
            final(self).min_interval_ms == old(self).min_interval_ms,
            final(self).last_ms == Some(now_ms),
    {
        self.last_ms = Some(now_ms);
    }
}

/// Requests spaced by a limiter span at least `interval` per gap: request
/// `k > 0` starts once the wait asked at time `now[k]` is over, with the
/// clock marked when request `k - 1` ended (`marks[k - 1]`, no earlier than
/// its start); then the last request starts at least
/// `interval * (n - 1)` after the first.
pub proof fn lemma_throttle_floor(interval: u64, now: Seq<u64>, marks: Seq<u64>, starts: Seq<int>)
    requires
        starts.len() > 0,
        now.len() == starts.len(),
        marks.len() == starts.len(),
        forall|k: int| 0 <= k < marks.len() ==> marks[k] + interval <= u64::MAX,
        forall|k: int| 0 <= k < starts.len() ==> #[trigger] marks[k] >= starts[k],
        forall|k: int|
            0 < k < starts.len() ==> #[trigger] starts[k] == now[k] + wait_for(
                Some(marks[k - 1]),
                interval,
                now[k],
            ),
    ensures
        starts.last() - starts[0] >= interval * (starts.len() - 1),
    decreases starts.len(),
{
    let n = starts.len();
    if n > 1 {
        lemma_throttle_floor(interval, now.drop_last(), marks.drop_last(), starts.drop_last());
        assert(starts[n - 1] >= marks[n - 2] + interval);
        assert(marks[n - 2] >= starts[n - 2]);
        let prev = starts.drop_last();
        assert(prev.last() == starts[n - 2] && prev[0] == starts[0]);
        assert(interval * (n - 2) + interval == interval * (n - 1)) by (nonlinear_arith);
    } else {
        assert(interval * (n - 1) == 0) by (nonlinear_arith)
            requires
                n == 1,
        ;
    }
}

} // verus!
