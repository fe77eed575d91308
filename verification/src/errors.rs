//! Themed HTTP error pages (404, 500, 403, 405) with plain-text fallbacks
//! when a themed page cannot be rendered.

pub mod fallbacks;

use vstd::prelude::*;

verus! {

/// The error pages the services serve.
#[derive(Clone, Copy, Debug, PartialEq, Eq)]
pub enum ErrorPage {
    /// 404: nothing matches the request.
    NotFound,
    /// 500: a handler or template failed.
    InternalServerError,
    /// 403: access denied.
    Forbidden,
    /// 405: the path exists but not for this method.
    MethodNotAllowed,
}

/// HTTP status code of each error page.
pub open spec fn status_of(page: ErrorPage) -> u16 {
    match page {
        ErrorPage::NotFound => 404,
        ErrorPage::InternalServerError => 500,
        ErrorPage::Forbidden => 403,
        ErrorPage::MethodNotAllowed => 405,
    }
}

/// Minimal HTML of each error page, used when the themed page fails to render.
pub open spec fn fallback_of(page: ErrorPage) -> Seq<char> {
    match page {
        ErrorPage::NotFound => fallbacks::NOT_FOUND@,
        ErrorPage::InternalServerError => fallbacks::INTERNAL_SERVER_ERROR@,
        ErrorPage::Forbidden => fallbacks::FORBIDDEN@,
        ErrorPage::MethodNotAllowed => fallbacks::METHOD_NOT_ALLOWED@,
    }
}

impl ErrorPage {
    /// HTTP status code of the page.
    pub fn status_code(self) -> (code: u16)
        ensures
            code == status_of(self),
    {
        match self {
            ErrorPage::NotFound => 404,
            ErrorPage::InternalServerError => 500,
            ErrorPage::Forbidden => 403,
            ErrorPage::MethodNotAllowed => 405,
        }
    }

    /// Minimal HTML of the page.
    pub fn fallback_html(self) -> (html: &'static str)
        ensures
            html@ == fallback_of(self),
    {
        match self {
            ErrorPage::NotFound => fallbacks::NOT_FOUND,
            ErrorPage::InternalServerError => fallbacks::INTERNAL_SERVER_ERROR,
            ErrorPage::Forbidden => fallbacks::FORBIDDEN,
            ErrorPage::MethodNotAllowed => fallbacks::METHOD_NOT_ALLOWED,
        }
    }
}

/// Body served for `page`: the themed HTML when it rendered (`Some`), or the
/// page's fallback.
pub open spec fn page_body(page: ErrorPage, rendered: Option<String>) -> Seq<char> {
    match rendered {
        Some(html) => html@,
        None => fallback_of(page),
    }
}

/// The themed HTML of `page` when it rendered, or its minimal fallback.
pub fn themed_or_fallback(page: ErrorPage, rendered: Option<String>) -> (html: String)
    ensures
        html@ == page_body(page, rendered),
{
    match rendered {
        Some(html) => html,
        None => page.fallback_html().to_owned(),
    }
}

/// The themed 404 page, or a minimal fallback when it did not render.
pub fn not_found_html(rendered: Option<String>) -> (html: String)
    ensures
        html@ == page_body(ErrorPage::NotFound, rendered),
{
    themed_or_fallback(ErrorPage::NotFound, rendered)
}

/// The themed 500 page, or a minimal fallback when it did not render.
pub fn internal_server_error_html(rendered: Option<String>) -> (html: String)
    ensures
        html@ == page_body(ErrorPage::InternalServerError, rendered),
{
    themed_or_fallback(ErrorPage::InternalServerError, rendered)
}

/// The themed 403 page, or a minimal fallback when it did not render.
pub fn forbidden_html(rendered: Option<String>) -> (html: String)
    ensures
        html@ == page_body(ErrorPage::Forbidden, rendered),
{
    themed_or_fallback(ErrorPage::Forbidden, rendered)
}

/// The themed 405 page, or a minimal fallback when it did not render.
pub fn method_not_allowed_html(rendered: Option<String>) -> (html: String)
    ensures
        html@ == page_body(ErrorPage::MethodNotAllowed, rendered),
{
    themed_or_fallback(ErrorPage::MethodNotAllowed, rendered)
}

/// Error page for a request that no route accepted: 404 when nothing
/// matched, 405 when a route matched the path but not the method, 500 for
/// any other rejection (such as a failed template render).
pub open spec fn rejection_page_of(not_found: bool, method_not_allowed: bool) -> ErrorPage {
    if not_found {
        ErrorPage::NotFound
    } else if method_not_allowed {
        ErrorPage::MethodNotAllowed
    } else {
        ErrorPage::InternalServerError
    }
}

/// The error page for a rejected request (see [`rejection_page_of`]).
pub fn rejection_page(not_found: bool, method_not_allowed: bool) -> (page: ErrorPage)
    ensures
        page == rejection_page_of(not_found, method_not_allowed),
{
    if not_found {
        ErrorPage::NotFound
    } else if method_not_allowed {
        ErrorPage::MethodNotAllowed
    } else {
        ErrorPage::InternalServerError
    }
}

} // verus!
