//! Inputs for the header action widgets (sign-in, cart, contact) rendered
//! next to [`crate::nav::SiteHeader`].

use vstd::prelude::*;

use crate::nav::{is_site_menu, page_header, ServiceUrls, SiteHeader, SiteMenuSection};

verus! {

/// Inputs for rendering a service's header action widgets.
pub struct AppSiteNav<'a> {
    pub identity_base: &'a str,
    pub app_base: &'a str,
    pub contact_base: &'a str,
    pub cart_url: &'a str,
    pub cart_count: u32,
    pub return_path: &'a str,
    pub show_cart: bool,
    pub show_contact_us: bool,
    pub leading_html: &'a str,
}

/// Per-service inputs for the standard site chrome: the area wordmark shown
/// in the page header plus the base URLs the header action widgets link
/// against. Build one from the service's config at startup (or per request)
/// and derive the header and nav for each page from it.
#[derive(Clone, Debug)]
pub struct SiteChrome {
    /// Area wordmark next to the brand symbol (e.g. `Store`).
    pub title: String,
    /// Public base URL of the identity BFF.
    pub identity_base: String,
    /// Public base URL of this service (used as the auth/contact return base).
    pub app_base: String,
    /// Public base URL of the contact service.
    pub contact_base: String,
    /// Cart page URL for the header cart icon.
    pub cart_url: String,
    /// Whether the header shows the cart icon.
    pub show_cart: bool,
}

impl SiteChrome {
    /// Standard page header for this area: wordmark plus the shared site
    /// menu, with `active` highlighting the site being viewed.
    pub fn page_header(&self, active: Option<SiteMenuSection>, urls: &ServiceUrls) -> (h:
        SiteHeader)
        ensures
            h.brand_href@ == "/"@,
            h.brand_label@ == self.title@,
            is_site_menu(h.menu@, active, *urls),
            h.breadcrumbs@.len() == 0,
    {
        page_header(self.title.as_str(), active, urls)
    }

    /// Widget inputs for the page at `return_path`: this service's base URLs,
    /// the cart icon when the chrome shows it, and no contact-us button or
    /// leading link.
    pub fn app_site_nav<'a>(&'a self, return_path: &'a str, cart_count: u32) -> (n: AppSiteNav<'a>)
        ensures
            n.identity_base@ == self.identity_base@,
            n.app_base@ == self.app_base@,
            n.contact_base@ == self.contact_base@,
            n.cart_url@ == self.cart_url@,
            n.cart_count == cart_count,
            n.return_path@ == return_path@,
            n.show_cart == self.show_cart,
            !n.show_contact_us,
            n.leading_html@ == Seq::<char>::empty(),
    {
        let leading_html = "";
        proof {
            reveal_strlit("");
        }
        AppSiteNav {
            identity_base: self.identity_base.as_str(),
            app_base: self.app_base.as_str(),
            contact_base: self.contact_base.as_str(),
            cart_url: self.cart_url.as_str(),
            cart_count,
            return_path,
            show_cart: self.show_cart,
            show_contact_us: false,
            leading_html,
        }
    }
}

} // verus!
