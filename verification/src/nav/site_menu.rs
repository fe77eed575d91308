//! [`site_menu`].

use vstd::prelude::*;

use super::{is_section, MenuItem, SiteMenuSection};
use super::site_menu_section::section_is;
use crate::text::{chars_of, push_char, trim, trim_range};
use vstd::string::StrSliceExecFns;

verus! {

/// Public base URL of a service: the configured value trimmed of white
/// space, or `default` when the value is missing or blank, ending in `/`.
pub open spec fn service_url_text(value: Option<Seq<char>>, default: Seq<char>) -> Seq<char> {
    let base = match value {
        Some(v) => if trim(v).len() > 0 {
            trim(v)
        } else {
            default
        },
        None => default,
    };
    if base.len() > 0 && base.last() == '/' {
        base
    } else {
        base.push('/')
    }
}

/// Every resolved base URL ends with `/`, so page paths can be appended.
pub proof fn lemma_service_url_ends_with_slash(value: Option<Seq<char>>, default: Seq<char>)
    ensures
        service_url_text(value, default).len() > 0,
        service_url_text(value, default).last() == '/',
{
}

/// Public base URL of a service from its configured value (see
/// [`service_url_text`]).
pub fn service_url(value: Option<&str>, default: &str) -> (url: String)
    ensures
        url@ == service_url_text(
            match value {
                Some(v) => Some(v@),
                None => None,
            },
            default@,
        ),
{
    let mut url = match value {
        Some(v) => {
            let cs = chars_of(v);
            let (a, b) = trim_range(&cs, 0, cs.len());
            proof {
                assert(cs@.subrange(0, cs@.len() as int) =~= v@);
            }
            if a < b {
                v.substring_char(a, b).to_owned()
            } else {
                default.to_owned()
            }
        },
        None => default.to_owned(),
    };
    let n = url.as_str().unicode_len();
    if n == 0 || url.as_str().get_char(n - 1) != '/' {
        push_char(&mut url, '/');
    }
    url
}

/// Environment variables that configure the cross-site link targets, with
/// the local development address used when a variable is unset or blank:
/// Store, Orders, Updates, in that order.
pub open spec fn service_url_var_list() -> Seq<(Seq<char>, Seq<char>)> {
    seq![
        ("SIGMA_STORE_PUBLIC_URL"@, "http://127.0.0.1:8082/"@),
        ("SIGMA_ORDERS_PUBLIC_URL"@, "http://127.0.0.1:8085/"@),
        ("SIGMA_UPDATES_PUBLIC_URL"@, "http://127.0.0.1:8080/"@),
    ]
}

/// The variables that configure the link targets and their defaults.
pub fn service_url_vars() -> (v: Vec<(&'static str, &'static str)>)
    ensures
        v@.map_values(|p: (&str, &str)| (p.0@, p.1@)) == service_url_var_list(),
{
    let v = vec![
        ("SIGMA_STORE_PUBLIC_URL", "http://127.0.0.1:8082/"),
        ("SIGMA_ORDERS_PUBLIC_URL", "http://127.0.0.1:8085/"),
        ("SIGMA_UPDATES_PUBLIC_URL", "http://127.0.0.1:8080/"),
    ];
    assert(v@.map_values(|p: (&str, &str)| (p.0@, p.1@)) =~= service_url_var_list());
    v
}

/// Cross-site link targets, resolved from the environment once per process
/// (services set the variables at startup and never change them).
#[derive(Clone, Debug, PartialEq, Eq)]
pub struct ServiceUrls {
    pub store: String,
    pub orders: String,
    pub updates: String,
}

/// `url` is usable as a base URL: non-empty and ending with `/`.
pub open spec fn is_base_url(url: Seq<char>) -> bool {
    url.len() > 0 && url.last() == '/'
}

impl ServiceUrls {
    /// Well-formedness: every target is a base URL ending with `/`, as
    /// [`service_url`] makes them.
    pub open spec fn wf(&self) -> bool {
        &&& is_base_url(self.store@)
        &&& is_base_url(self.orders@)
        &&& is_base_url(self.updates@)
    }

    /// Link targets from the configured values of [`service_url_vars`], in
    /// that order (`None` for an unset variable).
    pub fn from_values(store: Option<&str>, orders: Option<&str>, updates: Option<&str>) -> (u:
        Self)
        ensures
            u.wf(),
            u.store@ == service_url_text(
                match store {
                    Some(v) => Some(v@),
                    None => None,
                },
                "http://127.0.0.1:8082/"@,
            ),
            u.orders@ == service_url_text(
                match orders {
                    Some(v) => Some(v@),
                    None => None,
                },
                "http://127.0.0.1:8085/"@,
            ),
            u.updates@ == service_url_text(
                match updates {
                    Some(v) => Some(v@),
                    None => None,
                },
                "http://127.0.0.1:8080/"@,
            ),
    {
        proof {
            lemma_service_url_ends_with_slash(
                match store {
                    Some(v) => Some(v@),
                    None => None,
                },
                "http://127.0.0.1:8082/"@,
            );
            lemma_service_url_ends_with_slash(
                match orders {
                    Some(v) => Some(v@),
                    None => None,
                },
                "http://127.0.0.1:8085/"@,
            );
            lemma_service_url_ends_with_slash(
                match updates {
                    Some(v) => Some(v@),
                    None => None,
                },
                "http://127.0.0.1:8080/"@,
            );
        }
        ServiceUrls {
            store: service_url(store, "http://127.0.0.1:8082/"),
            orders: service_url(orders, "http://127.0.0.1:8085/"),
            updates: service_url(updates, "http://127.0.0.1:8080/"),
        }
    }

    /// The local development targets, used when no variable is set.
    pub fn defaults() -> (u: Self)
        ensures
            u.wf(),
            u.store@ == service_url_text(None, "http://127.0.0.1:8082/"@),
            u.orders@ == service_url_text(None, "http://127.0.0.1:8085/"@),
            u.updates@ == service_url_text(None, "http://127.0.0.1:8080/"@),
    {
        ServiceUrls::from_values(None, None, None)
    }
}

/// `item` is a plain link with this label, target and highlighting.
pub open spec fn is_link(item: MenuItem, label: Seq<char>, href: Seq<char>, active: bool) -> bool {
    &&& item.label@ == label
    &&& item.href@ == href
    &&& item.active == active
    &&& item.children@.len() == 0
}

/// `menu` is the standard cross-site menu: Store, Orders and Updates links,
/// the one named by `active` highlighted.
pub open spec fn is_site_menu(menu: Seq<MenuItem>, active: Option<SiteMenuSection>, urls: ServiceUrls) -> bool {
    &&& menu.len() == 3
    &&& is_link(menu[0], "Store"@, urls.store@, section_is(active, SiteMenuSection::Store))
    &&& is_link(menu[1], "Orders"@, urls.orders@, section_is(active, SiteMenuSection::Orders))
    &&& is_link(menu[2], "Updates"@, urls.updates@, section_is(active, SiteMenuSection::Updates))
}

/// Standard cross-site menu shown left-aligned in the navbar on every site:
/// Store, Orders and Updates. `active` highlights the entry for the site
/// being viewed.
pub fn site_menu(active: Option<SiteMenuSection>, urls: &ServiceUrls) -> (menu: Vec<MenuItem>)
    ensures
        is_site_menu(menu@, active, *urls),
{
    let mut menu: Vec<MenuItem> = Vec::new();
    menu.push(
        MenuItem::link(urls.store.as_str(), "Store").with_active(
            is_section(active, SiteMenuSection::Store),
        ),
    );
    menu.push(
        MenuItem::link(urls.orders.as_str(), "Orders").with_active(
            is_section(active, SiteMenuSection::Orders),
        ),
    );
    menu.push(
        MenuItem::link(urls.updates.as_str(), "Updates").with_active(
            is_section(active, SiteMenuSection::Updates),
        ),
    );
    menu
}

/// The standard menu highlights exactly the entry of the section being
/// viewed, and nothing when no section is given.
pub proof fn lemma_site_menu_highlights_one(
    menu: Seq<MenuItem>,
    active: Option<SiteMenuSection>,
    urls: ServiceUrls,
)
    requires
        is_site_menu(menu, active, urls),
    ensures
        active is None ==> forall|i: int| 0 <= i < menu.len() ==> !(#[trigger] menu[i]).active,
        active is Some ==> exists|i: int| 0 <= i < menu.len() && (#[trigger] menu[i]).active && forall|j: int|
            0 <= j < menu.len() && j != i ==> !(#[trigger] menu[j]).active,
{
    if let Some(s) = active {
        let i: int = match s {
            SiteMenuSection::Store => 0,
            SiteMenuSection::Orders => 1,
            SiteMenuSection::Updates => 2,
        };
        assert(menu[i].active);
    }
}

/// Every link of the standard menu built from well-formed targets ends
/// with `/`.
pub proof fn lemma_site_menu_links_end_with_slash(
    menu: Seq<MenuItem>,
    active: Option<SiteMenuSection>,
    urls: ServiceUrls,
)
    requires
        urls.wf(),
        is_site_menu(menu, active, urls),
    ensures
        forall|i: int| 0 <= i < menu.len() ==> is_base_url((#[trigger] menu[i]).href@),
{
}

} // verus!
