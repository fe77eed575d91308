use sigma_theme::assets::{cache_control, content_type, is_servable_asset_path, static_asset_path};

#[test]
fn vendor_and_font_assets_are_immutable() {
    assert_eq!(
        cache_control("vendor/bootstrap-5.3.3/bootstrap.min.css"),
        "public, max-age=31536000, immutable"
    );
    assert_eq!(cache_control("fonts/x.woff2"), "public, max-age=31536000, immutable");
    assert_eq!(cache_control("css/site.css"), "public, max-age=3600");
    assert_eq!(cache_control("vendor"), "public, max-age=3600");
}

#[test]
fn content_type_guesses_from_extension() {
    assert_eq!(content_type("sigma-favicon-32.png"), "image/png");
    assert_eq!(content_type("css/site.css"), "text/css");
    assert_eq!(content_type("README"), "application/octet-stream");
}

#[test]
fn static_paths_refuse_empty_and_parent_segments() {
    assert_eq!(static_asset_path("/static/css/site.css"), Some("css/site.css"));
    assert_eq!(static_asset_path("/static/"), None);
    assert_eq!(static_asset_path("/static/../secret"), None);
    assert_eq!(static_asset_path("/favicon.ico"), None);
    assert!(is_servable_asset_path("a.b/c"));
    assert!(!is_servable_asset_path("a..b"));
    assert!(!is_servable_asset_path(""));
}
