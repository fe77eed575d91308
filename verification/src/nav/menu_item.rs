//! [`MenuItem`].

use vstd::prelude::*;

verus! {

/// One entry in the left-aligned site menu (e.g. `Store`).
///
/// A plain entry is a link to `href`. An entry with non-empty `children` is a
/// dropdown: its `label` toggles a submenu of the child entries and its own
/// `href` is unused.
#[derive(Debug, PartialEq, Eq)]
pub struct MenuItem {
    pub label: String,
    /// Link target (usually a service public base URL). Empty for a dropdown.
    pub href: String,
    /// Whether this entry is the site currently being viewed.
    pub active: bool,
    /// Submenu entries; non-empty makes this a dropdown rather than a link.
    pub children: Vec<MenuItem>,
}

/// `a` and `b` hold the same label, target and highlighting, and the same
/// submenu entries, recursively.
pub open spec fn same_entry(a: MenuItem, b: MenuItem) -> bool
    decreases a,
{
    &&& a.label == b.label
    &&& a.href == b.href
    &&& a.active == b.active
    &&& a.children@.len() == b.children@.len()
    &&& forall|i: int|
        0 <= i < a.children@.len() ==> #[trigger] same_entry_at(a, b, i)
}

/// The `i`-th submenu entries of `a` and `b` are the same.
pub open spec fn same_entry_at(a: MenuItem, b: MenuItem, i: int) -> bool
    decreases a, 0int,
{
    if 0 <= i < a.children@.len() {
        proof {
            vstd::std_specs::vec::axiom_vec_index_decreases(a.children, i);
        }
        same_entry(a.children@[i], b.children@[i])
    } else {
        true
    }
}

impl Clone for MenuItem {
    /// A copy with the same label, target, highlighting and children.
    fn clone(&self) -> (m: Self)
        ensures
            m.label == self.label,
            m.href == self.href,
            m.active == self.active,
            m.children@.len() == self.children@.len(),
            forall|i: int|
                0 <= i < self.children@.len() ==> same_entry(
                    #[trigger] self.children@[i],
                    m.children@[i],
                ),
        decreases self,
    {
        let mut children: Vec<MenuItem> = Vec::new();
        let mut i: usize = 0;
        while i < self.children.len()
            invariant
                i <= self.children@.len(),
                children@.len() == i,
                forall|j: int|
                    0 <= j < i ==> same_entry(#[trigger] self.children@[j], children@[j]),
            decreases self.children@.len() - i,
        {
            assert(decreases_to!(self => self.children@[i as int]));
            children.push(self.children[i].clone());
            i += 1;
        }
        MenuItem {
            label: self.label.clone(),
            href: self.href.clone(),
            active: self.active,
            children,
        }
    }
}

impl Default for MenuItem {
    /// An inactive entry with empty label and target and no children.
    fn default() -> (m: Self)
        ensures
            m.label@ == Seq::<char>::empty(),
            m.href@ == Seq::<char>::empty(),
            !m.active,
            m.children@.len() == 0,
    {
        MenuItem { label: String::new(), href: String::new(), active: false, children: Vec::new() }
    }
}

impl MenuItem {
    /// Menu entry linking to another site.
    pub fn link(href: &str, label: &str) -> (m: Self)
        ensures
            m.label@ == label@,
            m.href@ == href@,
            !m.active,
            m.children@.len() == 0,
    {
        MenuItem {
            label: label.to_owned(),
            href: href.to_owned(),
            active: false,
            children: Vec::new(),
        }
    }

    /// Dropdown entry: `label` toggles a submenu of `children`.
    pub fn dropdown(label: &str, children: Vec<MenuItem>) -> (m: Self)
        ensures
            m.label@ == label@,
            m.href@ == Seq::<char>::empty(),
            !m.active,
            m.children@ == children@,
    {
        MenuItem { label: label.to_owned(), href: String::new(), active: false, children }
    }

    /// Marks this entry as the site currently being viewed.
    pub fn with_active(self, active: bool) -> (m: Self)
        ensures
            m.active == active,
            m.label == self.label,
            m.href == self.href,
            m.children == self.children,
    {
        let mut m = self;
        m.active = active;
        m
    }
}

} // verus!
