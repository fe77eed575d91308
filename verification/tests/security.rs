use sigma_theme::security::{directive, public_html_csp_with, security_headers, CspOptions};
use sigma_theme::{public_html_csp, public_html_csp_production};

#[test]
fn public_html_csp_allows_altcha_workers() {
    let csp = public_html_csp("", false);
    assert!(csp.contains("worker-src 'self' blob: data:"));
}

#[test]
fn csp_options_defaults_are_strict() {
    let csp = public_html_csp_with(&CspOptions::default());
    assert!(csp.contains("style-src 'self';"));
    assert!(csp.contains("form-action 'self'"));
    assert!(!csp.contains("unsafe-inline"));
    assert!(!csp.contains("upgrade-insecure-requests"));
}

#[test]
fn csp_options_widen_form_action_and_styles() {
    let csp = public_html_csp_with(
        &CspOptions::production("http://identity.example")
            .form_action("http://cart.example")
            .style_unsafe_inline(),
    );
    assert!(csp.contains("form-action 'self' http://cart.example"));
    assert!(csp.contains("style-src 'self' 'unsafe-inline'"));
    assert!(csp.contains("connect-src 'self' http://identity.example"));
    assert!(csp.contains("upgrade-insecure-requests"));
}

#[test]
fn production_csp_appends_extra_connect_src_and_upgrade() {
    let csp = public_html_csp_production("http://identity.example", false);
    assert!(csp.contains("connect-src 'self' http://identity.example"));
    assert!(csp.ends_with("upgrade-insecure-requests"));
    assert!(csp.contains("worker-src 'self' blob: data:"));
}

#[test]
fn security_headers_cover_the_shared_set() {
    let headers = security_headers();
    let names: Vec<&str> = headers.iter().map(|(name, _)| *name).collect();
    for expected in [
        "x-content-type-options",
        "x-frame-options",
        "referrer-policy",
        "cross-origin-opener-policy",
        "permissions-policy",
        "strict-transport-security",
    ] {
        assert!(names.contains(&expected), "missing {expected}");
    }
}

#[test]
fn baseline_csp_full_text() {
    assert_eq!(
        public_html_csp("", false),
        "default-src 'self'; base-uri 'self'; object-src 'none'; frame-ancestors 'none'; \
         img-src 'self' data:; style-src 'self'; script-src 'self'; font-src 'self'; \
         worker-src 'self' blob: data:; connect-src 'self'; form-action 'self'"
    );
}

#[test]
fn production_is_baseline_plus_upgrade() {
    let base = public_html_csp("https://id.example", true);
    let prod = public_html_csp_production("https://id.example", true);
    assert_eq!(prod, format!("{base}; upgrade-insecure-requests"));
}

#[test]
fn directive_with_and_without_extra() {
    assert_eq!(directive("connect-src", ""), "connect-src 'self'");
    assert_eq!(directive("connect-src", "https://x"), "connect-src 'self' https://x");
}

#[test]
fn unsafe_inline_appears_exactly_when_inline_styles_are_allowed() {
    for style in [false, true] {
        for upgrade in [false, true] {
            let mut o = CspOptions::production("https://id.example").form_action("https://cart.example");
            o.style_unsafe_inline = style;
            o.upgrade_insecure_requests = upgrade;
            assert_eq!(public_html_csp_with(&o).contains("unsafe-inline"), style);
        }
    }
}
