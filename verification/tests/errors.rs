use sigma_theme::errors::{
    fallbacks, forbidden_html, internal_server_error_html, method_not_allowed_html,
    not_found_html, rejection_page, ErrorPage,
};

#[test]
fn handle_rejection_renders_500_for_non_not_found() {
    let page = rejection_page(false, false);
    assert_eq!(page, ErrorPage::InternalServerError);
    assert_eq!(page.status_code(), 500);
}

#[test]
fn rejections_map_to_404_and_405() {
    assert_eq!(rejection_page(true, false).status_code(), 404);
    assert_eq!(rejection_page(true, true).status_code(), 404);
    assert_eq!(rejection_page(false, true).status_code(), 405);
}

#[test]
fn pages_fall_back_when_not_rendered() {
    assert_eq!(not_found_html(None), fallbacks::NOT_FOUND);
    assert_eq!(internal_server_error_html(None), fallbacks::INTERNAL_SERVER_ERROR);
    assert_eq!(forbidden_html(None), fallbacks::FORBIDDEN);
    assert_eq!(method_not_allowed_html(None), fallbacks::METHOD_NOT_ALLOWED);
    assert_eq!(not_found_html(Some("<p>Oops</p>".to_string())), "<p>Oops</p>");
    assert_eq!(ErrorPage::Forbidden.status_code(), 403);
}
