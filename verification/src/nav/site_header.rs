//! [`SiteHeader`].

use vstd::prelude::*;

use super::{is_site_menu, site_menu, Breadcrumb, MenuItem, ServiceUrls};

verus! {

/// Left side of the top bar: the fixed brand symbol with the current area's
/// wordmark, the left-aligned site menu, and the breadcrumb trail rendered
/// in a bar under the navbar.
#[derive(Clone, Debug, PartialEq, Eq)]
pub struct SiteHeader {
    /// Brand link target (usually `/`).
    pub brand_href: String,
    /// Wordmark next to the brand symbol: the area the visitor is in
    /// (e.g. `Store`). Required — every site names its own area.
    pub brand_label: String,
    /// Left-aligned site menu entries (usually [`super::site_menu`]).
    pub menu: Vec<MenuItem>,
    /// Where the user is within this service — earlier segments are links.
    pub breadcrumbs: Vec<Breadcrumb>,
}

impl SiteHeader {
    /// Minimal header: brand linking to `/` with this area's wordmark
    /// (e.g. `Store`), no menu, no breadcrumbs.
    pub fn new(brand_label: &str) -> (h: Self)
        ensures
            h.brand_href@ == "/"@,
            h.brand_label@ == brand_label@,
            h.menu@.len() == 0,
            h.breadcrumbs@.len() == 0,
    {
        SiteHeader {
            brand_href: "/".to_owned(),
            brand_label: brand_label.to_owned(),
            menu: Vec::new(),
            breadcrumbs: Vec::new(),
        }
    }

    /// Sets the brand link target.
    pub fn with_brand_href(self, href: &str) -> (h: Self)
        ensures
            h.brand_href@ == href@,
            h.brand_label == self.brand_label,
            h.menu == self.menu,
            h.breadcrumbs == self.breadcrumbs,
    {
        let mut h = self;
        h.brand_href = href.to_owned();
        h
    }

    /// Appends `menu` to the menu entries.
    pub fn with_menu(self, menu: Vec<MenuItem>) -> (h: Self)
        ensures
            h.menu@ == self.menu@ + menu@,
            h.brand_href == self.brand_href,
            h.brand_label == self.brand_label,
            h.breadcrumbs == self.breadcrumbs,
    {
        let mut h = self;
        let mut menu = menu;
        h.menu.append(&mut menu);
        h
    }

    /// Appends one breadcrumb segment.
    pub fn with_breadcrumb(self, crumb: Breadcrumb) -> (h: Self)
        ensures
            h.breadcrumbs@ == self.breadcrumbs@.push(crumb),
            h.brand_href == self.brand_href,
            h.brand_label == self.brand_label,
            h.menu == self.menu,
    {
        let mut h = self;
        h.breadcrumbs.push(crumb);
        h
    }

    /// Appends breadcrumb segments.
    pub fn with_breadcrumbs(self, crumbs: Vec<Breadcrumb>) -> (h: Self)
        ensures
            h.breadcrumbs@ == self.breadcrumbs@ + crumbs@,
            h.brand_href == self.brand_href,
            h.brand_label == self.brand_label,
            h.menu == self.menu,
    {
        let mut h = self;
        let mut crumbs = crumbs;
        h.breadcrumbs.append(&mut crumbs);
        h
    }

    /// Marketing-site header: the company wordmark with the standard site
    /// menu and nothing highlighted.
    pub fn home(urls: &ServiceUrls) -> (h: Self)
        ensures
            h.brand_href@ == "/"@,
            h.brand_label@ == "Sigma Tactical Group"@,
            is_site_menu(h.menu@, None, *urls),
            h.breadcrumbs@.len() == 0,
    {
        SiteHeader::new("Sigma Tactical Group").with_menu(site_menu(None, urls))
    }
}

} // verus!
