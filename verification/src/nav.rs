//! Service-provided configuration for the shared site navbar shell.
//!
//! The navbar shows the fixed brand followed by the left-aligned site menu
//! ([`site_menu`]: Store, Orders, Updates), with the rendered site action
//! widgets on the right. The breadcrumb trail is rendered in its own bar
//! under the navbar. Each web service builds a [`SiteHeader`] for the current
//! page and passes it when extending the base layout.

mod breadcrumb;
mod menu_item;
mod nav_entry;
mod site_header;
mod site_menu;
mod site_menu_section;

pub use breadcrumb::Breadcrumb;
pub use menu_item::MenuItem;
pub use nav_entry::NavEntry;
pub use site_header::SiteHeader;
pub use site_menu::{
    is_base_url, is_link, is_site_menu, lemma_service_url_ends_with_slash,
    lemma_site_menu_highlights_one, lemma_site_menu_links_end_with_slash,
    service_url, service_url_text, service_url_vars, site_menu,
    ServiceUrls,
};
pub use site_menu_section::{is_section, SiteMenuSection};

use vstd::prelude::*;

verus! {

/// Standard page header for a service area: the area wordmark next to the
/// brand symbol plus the shared cross-site menu, with `active` highlighting
/// the entry for the site being viewed.
pub fn page_header(area: &str, active: Option<SiteMenuSection>, urls: &ServiceUrls) -> (h:
    SiteHeader)
    ensures
        h.brand_href@ == "/"@,
        h.brand_label@ == area@,
        is_site_menu(h.menu@, active, *urls),
        h.breadcrumbs@.len() == 0,
{
    SiteHeader::new(area).with_menu(site_menu(active, urls))
}

} // verus!
