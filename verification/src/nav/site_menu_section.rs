//! [`SiteMenuSection`].

use vstd::prelude::*;

verus! {

/// Which standard menu entry the current site is, for highlighting.
#[derive(Clone, Copy, Debug, PartialEq, Eq)]
pub enum SiteMenuSection {
    Store,
    Orders,
    Updates,
}

/// `active` names the section `s`.
pub open spec fn section_is(active: Option<SiteMenuSection>, s: SiteMenuSection) -> bool {
    active == Some(s)
}

/// Whether `active` names the section `s`.
pub fn is_section(active: Option<SiteMenuSection>, s: SiteMenuSection) -> (b: bool)
    ensures
        b == section_is(active, s),
{
    match (active, s) {
        (Some(SiteMenuSection::Store), SiteMenuSection::Store) => true,
        (Some(SiteMenuSection::Orders), SiteMenuSection::Orders) => true,
        (Some(SiteMenuSection::Updates), SiteMenuSection::Updates) => true,
        _ => false,
    }
}

} // verus!
