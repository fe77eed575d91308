use std::cell::Cell;
use std::sync::OnceLock;

use sigma_theme::page_cache::{page_body, PageBody};

/// Serves the page from `cache`, rendering and caching it on a miss.
fn serve(cache: &OnceLock<String>, render: impl FnOnce() -> Result<String, String>) -> Result<String, String> {
    match page_body(cache.get(), render) {
        PageBody::Cached(body) => Ok(body.clone()),
        PageBody::Rendered(body) => Ok(cache.get_or_init(|| body).clone()),
        PageBody::Failed(err) => Err(err),
    }
}

#[test]
fn cached_page_body_caches_only_successful_renders() {
    let cache: OnceLock<String> = OnceLock::new();
    let calls = Cell::new(0);

    let failing = || {
        calls.set(calls.get() + 1);
        Err::<String, _>("fmt".to_string())
    };
    assert!(serve(&cache, failing).is_err());
    assert!(cache.get().is_none(), "failed render must not be cached");

    let ok = || {
        calls.set(calls.get() + 1);
        Ok::<_, String>("<p>cached</p>".to_string())
    };
    assert_eq!(serve(&cache, ok).unwrap(), "<p>cached</p>");
    assert_eq!(serve(&cache, ok).unwrap(), "<p>cached</p>");
    assert_eq!(
        calls.get(),
        2,
        "render runs once per failure and once for the cached success"
    );
}
