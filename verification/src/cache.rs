//! Decision logic of a TTL cache holding one fetched value, with
//! single-flight refresh, stale fallback and a short error backoff.
//!
//! - **Fresh hit**: a value fetched within the TTL is served without a fetch.
//! - **Stale fallback**: when a refresh fails but a previous value exists,
//!   the stale value keeps being served.
//! - **Error backoff**: after a failed refresh, retries are suppressed for
//!   [`ERROR_BACKOFF_NANOS`] while a previous value exists. With nothing
//!   cached the error is returned and the next request retries.
//!
//! Times are nanoseconds on a monotonic clock; the caller reads the clock,
//! runs the fetch and holds the refresh lock.

use vstd::prelude::*;

verus! {

/// How long fetch retries are suppressed after a failed refresh (5 s).
pub const ERROR_BACKOFF_NANOS: u64 = 5_000_000_000;

/// Time elapsed from `since` to `now`; zero when `now` is earlier.
pub open spec fn elapsed(since: u64, now: u64) -> int {
    if now >= since {
        now - since
    } else {
        0
    }
}

/// What a lookup does.
#[derive(Clone, Copy, Debug, PartialEq, Eq)]
pub enum CachePlan {
    /// Serve the cached value; it is within its TTL.
    Fresh,
    /// Serve the cached value although it expired: a refresh failed within
    /// the backoff window.
    Stale,
    /// Run the fetch.
    Fetch,
}

/// Abstract state of the cache: the value with the time it was fetched, and
/// the time of the last failed fetch since the last success.
pub struct CacheModel<T> {
    pub entry: Option<(T, u64)>,
    pub last_failure: Option<u64>,
}

/// What a lookup at `now` with time-to-live `ttl` does in state `m`.
pub open spec fn plan_of<T>(m: CacheModel<T>, now: u64, ttl: u64) -> CachePlan {
    match m.entry {
        Some((_, fetched_at)) => if elapsed(fetched_at, now) < ttl {
            CachePlan::Fresh
        } else {
            match m.last_failure {
                Some(f) => if elapsed(f, now) < ERROR_BACKOFF_NANOS {
                    CachePlan::Stale
                } else {
                    CachePlan::Fetch
                },
                None => CachePlan::Fetch,
            }
        },
        None => CachePlan::Fetch,
    }
}

/// State after a fetch at `now` returned `value`.
pub open spec fn after_success<T>(m: CacheModel<T>, value: T, now: u64) -> CacheModel<T> {
    CacheModel { entry: Some((value, now)), last_failure: None }
}

/// State after a fetch at `now` failed: the value is kept.
pub open spec fn after_failure<T>(m: CacheModel<T>, now: u64) -> CacheModel<T> {
    CacheModel { entry: m.entry, last_failure: Some(now) }
}

/// The cache state.
pub struct CacheState<T> {
    entry: Option<(T, u64)>,
    last_failure: Option<u64>,
}

impl<T> View for CacheState<T> {
    type V = CacheModel<T>;

    closed spec fn view(&self) -> CacheModel<T> {
        CacheModel { entry: self.entry, last_failure: self.last_failure }
    }
}

impl<T> CacheState<T> {
    /// Empty, immediately-stale cache.
    pub fn new() -> (c: Self)
        ensures
            c@.entry is None,
            c@.last_failure is None,
    {
        CacheState { entry: None, last_failure: None }
    }

    /// Cached value if it was fetched within `ttl` of `now`.
    pub fn fresh(&self, now: u64, ttl: u64) -> (r: Option<&T>)
        ensures
            r == match self@.entry {
                Some((v, t)) => if elapsed(t, now) < ttl {
                    Some(&v)
                } else {
                    None
                },
                None => None,
            },
    {
        match &self.entry {
            Some((value, fetched_at)) => {
                let age = if now >= *fetched_at {
                    now - *fetched_at
                } else {
                    0
                };
                if age < ttl {
                    Some(value)
                } else {
                    None
                }
            },
            None => None,
        }
    }

    /// Cached value regardless of age.
    pub fn stale(&self) -> (r: Option<&T>)
        ensures
            r == match self@.entry {
                Some((v, _)) => Some(&v),
                None => None,
            },
    {
        match &self.entry {
            Some((value, _)) => Some(value),
            None => None,
        }
    }

    /// What a lookup at `now` with time-to-live `ttl` does (see [`plan_of`]).
    pub fn plan(&self, now: u64, ttl: u64) -> (p: CachePlan)
        ensures
            p == plan_of(self@, now, ttl),
            (p == CachePlan::Fresh) <==> (self@.entry matches Some((_, t)) && elapsed(t, now) < ttl),
            (p == CachePlan::Stale) ==> self@.entry is Some && (self@.last_failure matches Some(f)
                && elapsed(f, now) < ERROR_BACKOFF_NANOS),
            self@.entry is None ==> p == CachePlan::Fetch,
    {
        match &self.entry {
            Some((_, fetched_at)) => {
                let age = if now >= *fetched_at {
                    now - *fetched_at
                } else {
                    0
                };
                if age < ttl {
                    CachePlan::Fresh
                } else {
                    match self.last_failure {
                        Some(f) => {
                            let since = if now >= f {
                                now - f
                            } else {
                                0
                            };
                            if since < ERROR_BACKOFF_NANOS {
                                CachePlan::Stale
                            } else {
                                CachePlan::Fetch
                            }
                        },
                        None => CachePlan::Fetch,
                    }
                }
            },
            None => CachePlan::Fetch,
        }
    }

    /// Records a successful fetch at `now`: the value is stored and the
    /// failure time cleared.
    pub fn record_success(&mut self, value: T, now: u64)
        ensures
            final(self)@ == after_success(old(self)@, value, now),
    {
        self.entry = Some((value, now));
        self.last_failure = None;
    }

    /// Records a failed fetch at `now`; returns whether a previous value is
    /// there to fall back to (when not, the caller returns the fetch error).
    pub fn record_failure(&mut self, now: u64) -> (has_stale: bool)
        ensures
            final(self)@ == after_failure(old(self)@, now),
            has_stale == old(self)@.entry is Some,
    {
        self.last_failure = Some(now);
        self.entry.is_some()
    }
}

/// A value fetched less than `ttl` ago is served without a fetch, whatever
/// failure came before.
pub proof fn lemma_fresh_value_is_served<T>(m: CacheModel<T>, value: T, fetched: u64, now: u64, ttl: u64)
    requires
        elapsed(fetched, now) < ttl,
    ensures
        plan_of(after_success(m, value, fetched), now, ttl) == CachePlan::Fresh,
{
}

/// With a zero TTL every lookup goes past the cached value: it fetches, or
/// serves the stale value during a backoff.
pub proof fn lemma_zero_ttl_never_fresh<T>(m: CacheModel<T>, now: u64)
    ensures
        plan_of(m, now, 0) != CachePlan::Fresh,
{
}

/// With nothing cached a lookup always fetches, and a failed fetch leaves
/// nothing to fall back to, so its error is returned and the next lookup
/// fetches again.
pub proof fn lemma_empty_cache_fetches<T>(m: CacheModel<T>, now: u64, later: u64, ttl: u64)
    requires
        m.entry is None,
    ensures
        plan_of(m, now, ttl) == CachePlan::Fetch,
        after_failure(m, now).entry is None,
        plan_of(after_failure(m, now), later, ttl) == CachePlan::Fetch,
{
}

/// After a value was cached, a failed refresh keeps serving it, and within
/// the backoff window no further fetch is made.
pub proof fn lemma_failure_serves_stale_and_backs_off<T>(
    m: CacheModel<T>,
    value: T,
    fetched: u64,
    failed: u64,
    later: u64,
    ttl: u64,
)
    requires
        elapsed(failed, later) < ERROR_BACKOFF_NANOS,
        elapsed(fetched, later) >= ttl,
    ensures
        after_failure(after_success(m, value, fetched), failed).entry == Some((value, fetched)),
        plan_of(after_failure(after_success(m, value, fetched), failed), later, ttl)
            == CachePlan::Stale,
{
}

/// A success clears the failure, so once the value expires the next lookup
/// fetches instead of serving it stale.
pub proof fn lemma_success_clears_backoff<T>(m: CacheModel<T>, value: T, fetched: u64, now: u64, ttl: u64)
    requires
        elapsed(fetched, now) >= ttl,
    ensures
        after_success(m, value, fetched).last_failure is None,
        plan_of(after_success(m, value, fetched), now, ttl) == CachePlan::Fetch,
{
}

/// Retries are suppressed only for the error backoff, never for the TTL:
/// once the cached value has expired and the backoff after the last
/// failure is over, a lookup fetches, whatever the TTL.
pub proof fn lemma_backoff_ends_after_error_backoff<T>(
    m: CacheModel<T>,
    value: T,
    fetched: u64,
    failed: u64,
    now: u64,
    ttl: u64,
)
    requires
        m.entry == Some((value, fetched)),
        m.last_failure == Some(failed),
        now >= fetched && now - fetched >= ttl,
        now >= failed && now - failed >= ERROR_BACKOFF_NANOS,
    ensures
        plan_of(m, now, ttl) == CachePlan::Fetch,
{
}

/// A stale value is served only within the error backoff after a failure,
/// and only when a value is cached and expired.
pub proof fn lemma_stale_only_within_backoff<T>(m: CacheModel<T>, now: u64, ttl: u64)
    requires
        plan_of(m, now, ttl) == CachePlan::Stale,
    ensures
        exists|v: T, t: u64| m.entry == Some((v, t)) && (now < t || now - t >= ttl),
        exists|f: u64| m.last_failure == Some(f) && (now < f || now - f < ERROR_BACKOFF_NANOS),
{
    if let Some((v, t)) = m.entry {
        assert(m.entry == Some((v, t)));
        if now >= t {
            assert(now - t >= ttl);
        }
    }
    if let Some(f) = m.last_failure {
        assert(m.last_failure == Some(f));
    }
}

} // verus!
