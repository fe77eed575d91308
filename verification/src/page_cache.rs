//! The page that a service renders once and then serves for the process
//! lifetime: only a successful render is kept; a failed render is reported
//! and rendered again on the next request.

use vstd::prelude::*;

verus! {

/// Outcome of a request for the cached page.
pub enum PageBody<'a, E> {
    /// The page was cached already; it was not rendered again.
    Cached(&'a String),
    /// The page was rendered now; this body is the one to cache.
    Rendered(String),
    /// Rendering failed; nothing is to be cached.
    Failed(E),
}

/// Serves the cached page when there is one; otherwise renders it once.
pub fn page_body<'a, E, F: FnOnce() -> Result<String, E>>(cached: Option<&'a String>, render: F) -> (r:
    PageBody<'a, E>)
    requires
        cached is None ==> render.requires(()),
    ensures
        cached matches Some(b) ==> r == PageBody::<'a, E>::Cached(b),
        cached is None ==> exists|out: Result<String, E>|
            render.ensures((), out) && r == match out {
                Ok(body) => PageBody::<'a, E>::Rendered(body),
                Err(e) => PageBody::<'a, E>::Failed(e),
            },
{
    match cached {
        Some(body) => PageBody::Cached(body),
        None => match render() {
            Ok(body) => PageBody::Rendered(body),
            Err(e) => PageBody::Failed(e),
        },
    }
}

} // verus!
