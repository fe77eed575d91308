//! Data of the themed error pages: every error page shows the marketing
//! header with the standard menu, no header widgets, and the copyright
//! label. The HTML itself is rendered from the page templates by the caller.

use vstd::prelude::*;

use crate::copyright::{copyright_label_text, copyright_years, year_of_clock};
use crate::nav::{is_site_menu, ServiceUrls, SiteHeader};

verus! {

/// The fields that every error page template is filled with.
pub struct ErrorPageFields {
    pub site_header: SiteHeader,
    pub site_nav: String,
    pub copyright_years: String,
}

/// Fields for an error page: the home header, no header widgets, and the
/// copyright label for the current year.
pub fn error_page_fields(urls: &ServiceUrls) -> (f: ErrorPageFields)
    ensures
        f.site_header.brand_href@ == "/"@,
        f.site_header.brand_label@ == "Sigma Tactical Group"@,
        is_site_menu(f.site_header.menu@, None, *urls),
        f.site_header.breadcrumbs@.len() == 0,
        f.site_nav@ == Seq::<char>::empty(),
        exists|secs: Option<u64>| f.copyright_years@ == copyright_label_text(year_of_clock(secs)),
{
    ErrorPageFields {
        site_header: SiteHeader::home(urls),
        site_nav: String::new(),
        copyright_years: copyright_years(),
    }
}

/// Fields of the 404 page template.
pub struct NotFoundTemplate {
    pub site_header: SiteHeader,
    pub site_nav: String,
    pub copyright_years: String,
}

/// Fields of the 500 page template.
pub struct InternalErrorTemplate {
    pub site_header: SiteHeader,
    pub site_nav: String,
    pub copyright_years: String,
}

/// Fields of the 403 page template.
pub struct ForbiddenTemplate {
    pub site_header: SiteHeader,
    pub site_nav: String,
    pub copyright_years: String,
}

/// Fields of the 405 page template.
pub struct MethodNotAllowedTemplate {
    pub site_header: SiteHeader,
    pub site_nav: String,
    pub copyright_years: String,
}

} // verus!
