use sigma_theme::cache::{CachePlan, CacheState, ERROR_BACKOFF_NANOS};

const TTL: u64 = 60_000_000_000;

/// One lookup: the cached value when the plan allows, else a fetch whose
/// outcome is recorded, returning the stale value on failure when there is one.
fn get_or_fetch<F>(cache: &mut CacheState<i32>, now: u64, ttl: u64, fetch: F) -> Result<i32, String>
where
    F: FnOnce() -> Result<i32, String>,
{
    match cache.plan(now, ttl) {
        CachePlan::Fresh | CachePlan::Stale => Ok(*cache.stale().unwrap()),
        CachePlan::Fetch => match fetch() {
            Ok(v) => {
                cache.record_success(v, now);
                Ok(v)
            }
            Err(e) => {
                if cache.record_failure(now) {
                    Ok(*cache.stale().unwrap())
                } else {
                    Err(e)
                }
            }
        },
    }
}

#[test]
fn serves_fresh_value_without_refetching() {
    let mut cache = CacheState::new();
    let mut calls = 0;
    for t in 0..3u64 {
        let value = get_or_fetch(&mut cache, t, TTL, || {
            calls += 1;
            Ok(42)
        })
        .unwrap();
        assert_eq!(value, 42);
    }
    assert_eq!(calls, 1);
}

#[test]
fn expired_value_is_refetched() {
    let mut cache = CacheState::new();
    get_or_fetch(&mut cache, 0, 0, || Ok(1)).unwrap();
    let value = get_or_fetch(&mut cache, 1, 0, || Ok(2)).unwrap();
    assert_eq!(value, 2);
}

#[test]
fn error_with_empty_cache_is_returned() {
    let mut cache: CacheState<i32> = CacheState::new();
    let err = get_or_fetch(&mut cache, 0, TTL, || Err("boom".to_string())).unwrap_err();
    assert_eq!(err, "boom");
}

#[test]
fn error_after_success_serves_stale_and_backs_off() {
    let mut cache = CacheState::new();
    get_or_fetch(&mut cache, 0, TTL, || Ok(7)).unwrap();

    // Expired refresh fails: the stale value is served.
    let mut calls = 0;
    let value = get_or_fetch(&mut cache, 10, 0, || {
        calls += 1;
        Err("boom".to_string())
    })
    .unwrap();
    assert_eq!(value, 7);
    assert_eq!(calls, 1);

    // Within the backoff window the fetch is not retried.
    let value = get_or_fetch(&mut cache, 20, 0, || {
        calls += 1;
        Err("boom".to_string())
    })
    .unwrap();
    assert_eq!(value, 7);
    assert_eq!(calls, 1, "retry suppressed by backoff");
}

#[test]
fn backoff_ends_after_the_window() {
    let mut cache = CacheState::new();
    cache.record_success(5, 0);
    assert!(cache.record_failure(100));
    assert_eq!(cache.plan(100 + ERROR_BACKOFF_NANOS - 1, 0), CachePlan::Stale);
    assert_eq!(cache.plan(100 + ERROR_BACKOFF_NANOS, 0), CachePlan::Fetch);
    cache.record_success(6, 200);
    assert_eq!(cache.plan(201, 0), CachePlan::Fetch);
    assert_eq!(cache.plan(201, 2), CachePlan::Fresh);
    assert_eq!(cache.fresh(201, 2), Some(&6));
    assert_eq!(cache.fresh(202, 2), None);
}

#[test]
fn clock_going_backwards_counts_as_zero_elapsed() {
    let mut cache = CacheState::new();
    cache.record_success(1, 1_000);
    assert_eq!(cache.plan(10, 1), CachePlan::Fresh);
}
