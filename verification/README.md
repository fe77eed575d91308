# sigma-theme

Shared site chrome for the Sigma Tactical Group web services, written in
Verus. The library under `src/` states and proves its behaviour:

- `calendar`, `copyright` — proleptic Gregorian year of a UNIX timestamp and
  the `2026–YYYY` copyright label.
- `security` — the shared content security policy and security headers.
- `nav`, `site_nav`, `templates` — navbar, breadcrumbs, the cross-site menu
  and the inputs of the header widgets and error pages.
- `content` — Markdown front matter, Markdown rendering, and the pure parts
  of the GitHub contents client.
- `cache` — decisions of the single-value TTL cache (fresh hit, stale
  fallback, error backoff).
- `assets`, `errors`, `server` — static asset policy, error pages and
  fallbacks, listen port.

`app/` holds the web-framework glue (axum, warp, askama, rust-embed,
reqwest, tokio) that calls into the library.

Brand and artwork are proprietary; source code is MIT OR Apache-2.0.
