//! [`Breadcrumb`].

use vstd::prelude::*;

verus! {

/// One segment of the navbar breadcrumb trail (labels only — hrefs are not shown).
#[derive(Clone, Debug, PartialEq, Eq)]
pub struct Breadcrumb {
    pub label: String,
    /// Link target; empty when this segment is the current page.
    pub href: String,
}

impl Default for Breadcrumb {
    /// A segment with empty label and target.
    fn default() -> (b: Self)
        ensures
            b.label@ == Seq::<char>::empty(),
            b.href@ == Seq::<char>::empty(),
    {
        Breadcrumb { label: String::new(), href: String::new() }
    }
}

impl Breadcrumb {
    /// Navigable segment (earlier steps in the trail).
    pub fn link(href: &str, label: &str) -> (b: Self)
        ensures
            b.label@ == label@,
            b.href@ == href@,
    {
        Breadcrumb { label: label.to_owned(), href: href.to_owned() }
    }

    /// Current page — rendered as plain text, not a link.
    pub fn current(label: &str) -> (b: Self)
        ensures
            b.label@ == label@,
            b.href@ == Seq::<char>::empty(),
    {
        Breadcrumb { label: label.to_owned(), href: String::new() }
    }
}

} // verus!
