//! Static asset policy: which request paths name an embedded asset, and the
//! content type and cache lifetime each asset is served with.

use vstd::prelude::*;
use vstd::string::StrSliceExecFns;

use crate::text::{contains_seq, contains_str, has_prefix, starts_with};

verus! {

/// `Cache-Control` for long-lived, versioned assets.
pub const IMMUTABLE_CACHE: &'static str = "public, max-age=31536000, immutable";

/// `Cache-Control` for the other assets.
pub const HOURLY_CACHE: &'static str = "public, max-age=3600";

/// `Content-Type` when the extension names no known type.
pub const OCTET_STREAM: &'static str = "application/octet-stream";

/// Vendored and font assets are versioned and cached for a year; the rest
/// for an hour.
pub open spec fn cache_control_text(path: Seq<char>) -> Seq<char> {
    if has_prefix(path, "vendor/"@) || has_prefix(path, "fonts/"@) {
        IMMUTABLE_CACHE@
    } else {
        HOURLY_CACHE@
    }
}

/// `Cache-Control` value for the asset at `path` (relative to the asset root).
pub fn cache_control(path: &str) -> (c: &'static str)
    ensures
        c@ == cache_control_text(path@),
        (c@ == IMMUTABLE_CACHE@) <==> (has_prefix(path@, "vendor/"@) || has_prefix(path@, "fonts/"@)),
        !(has_prefix(path@, "vendor/"@) || has_prefix(path@, "fonts/"@)) ==> c@ == HOURLY_CACHE@,
{
    proof {
        lemma_cache_lifetimes_differ();
    }
    if starts_with(path, "vendor/") || starts_with(path, "fonts/") {
        IMMUTABLE_CACHE
    } else {
        HOURLY_CACHE
    }
}

/// First MIME type that `mime_guess` associates with the extension of `path`.
pub uninterp spec fn guessed_mime(path: Seq<char>) -> Option<Seq<char>>;

/// `mime_guess::from_path(path).first_raw()`: the first MIME type of the
/// guess that the crate makes from the extension of `path` (a lookup in its
/// static table; no disk access). Named by [`guessed_mime`].
#[verifier::external_body]
fn first_guessed_mime(path: &str) -> (m: Option<&'static str>)
    ensures
        match m {
            Some(t) => guessed_mime(path@) == Some(t@),
            None => guessed_mime(path@) is None,
        },
{
    mime_guess::from_path(path).first_raw()
}

/// `Content-Type` value for the asset at `path`: the guessed MIME type, or
/// `application/octet-stream`.
pub fn content_type(path: &str) -> (t: &'static str)
    ensures
        t@ == match guessed_mime(path@) {
            Some(m) => m,
            None => OCTET_STREAM@,
        },
{
    match first_guessed_mime(path) {
        Some(m) => m,
        None => OCTET_STREAM,
    }
}

/// An asset path may be served: it is non-empty and holds no `..`.
pub open spec fn servable_asset_path(path: Seq<char>) -> bool {
    path.len() > 0 && !contains_seq(path, ".."@)
}

/// Whether `path` (relative to the asset root) may be served.
pub fn is_servable_asset_path(path: &str) -> (b: bool)
    ensures
        b == servable_asset_path(path@),
{
    !path.is_empty() && !contains_str(path, "..")
}

/// The prefix of asset request paths.
pub open spec fn static_prefix() -> Seq<char> {
    "/static/"@
}

/// The asset that a request path names: the rest of a path that starts with
/// `/static/`, when it may be served.
pub open spec fn static_asset_of(uri_path: Seq<char>) -> Option<Seq<char>> {
    if has_prefix(uri_path, static_prefix()) && servable_asset_path(uri_path.skip(8)) {
        Some(uri_path.skip(8))
    } else {
        None
    }
}

/// Asset path named by the request path `uri_path`, if any (see
/// [`static_asset_of`]).
pub fn static_asset_path<'a>(uri_path: &'a str) -> (r: Option<&'a str>)
    ensures
        match r {
            Some(p) => static_asset_of(uri_path@) == Some(p@),
            None => static_asset_of(uri_path@) is None,
        },
{
    proof {
        reveal_strlit("/static/");
    }
    if !starts_with(uri_path, "/static/") {
        return None;
    }
    let n = uri_path.unicode_len();
    let rest = uri_path.substring_char(8, n);
    assert(rest@ == uri_path@.skip(8));
    if is_servable_asset_path(rest) {
        Some(rest)
    } else {
        None
    }
}

/// The embedded favicon asset.
pub const FAVICON_ASSET: &'static str = "sigma-favicon-32.png";

/// A request path never names an asset outside the asset root: every asset
/// path it yields is non-empty, free of `..`, and the request path is
/// `/static/` followed by it.
pub proof fn lemma_static_asset_stays_inside(uri_path: Seq<char>)
    ensures
        static_asset_of(uri_path) matches Some(p) ==> p.len() > 0 && !contains_seq(p, ".."@)
            && uri_path == static_prefix() + p,
{
    reveal_strlit("/static/");
    if let Some(p) = static_asset_of(uri_path) {
        assert(static_prefix().len() == 8);
        assert(uri_path.take(8) == static_prefix());
        assert(uri_path =~= uri_path.take(8) + uri_path.skip(8));
    }
}

proof fn lemma_cache_lifetimes_differ()
    ensures
        IMMUTABLE_CACHE@ != HOURLY_CACHE@,
{
    reveal_strlit("public, max-age=31536000, immutable");
    reveal_strlit("public, max-age=3600");
    assert(IMMUTABLE_CACHE@.len() != HOURLY_CACHE@.len());
}

/// Only versioned assets are cached for a year: a path gets the immutable
/// year-long lifetime exactly when it lies under `vendor/` or `fonts/`;
/// every other asset (such as the `js/` bundles) is cached for an hour.
pub proof fn lemma_only_versioned_assets_are_immutable(path: Seq<char>)
    ensures
        (cache_control_text(path) == IMMUTABLE_CACHE@) <==> (has_prefix(path, "vendor/"@)
            || has_prefix(path, "fonts/"@)),
        !(has_prefix(path, "vendor/"@) || has_prefix(path, "fonts/"@)) ==> cache_control_text(path)
            == HOURLY_CACHE@,
{
    lemma_cache_lifetimes_differ();
}

} // verus!
