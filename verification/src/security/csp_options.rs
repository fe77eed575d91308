//! [`CspOptions`] — the per-service knobs on the shared CSP.

use vstd::prelude::*;

verus! {

/// Per-service CSP adjustments for [`crate::security::public_html_csp_with`].
///
/// The baseline is deliberately strict (`style-src 'self'`, `form-action
/// 'self'`); a service opts out only where it must. Prefer moving inline CSS
/// to a served asset over setting `style_unsafe_inline`.
#[derive(Debug, Clone, PartialEq, Eq)]
pub struct CspOptions {
    /// Appended to `connect-src` (e.g. the identity BFF origin). Empty means
    /// `'self'` only.
    pub connect_src_extra: String,
    /// Appended to `form-action` — needed when a page posts cross-origin
    /// (e.g. the storefront's add-to-cart POST to the cart service).
    pub form_action_extra: String,
    /// Allow inline `style` attributes and `<style>` blocks.
    pub style_unsafe_inline: bool,
    /// Append `upgrade-insecure-requests`.
    pub upgrade_insecure_requests: bool,
}

impl Default for CspOptions {
    /// Strict options: nothing appended, no inline styles, no upgrade.
    fn default() -> (o: Self)
        ensures
            o.connect_src_extra@ == Seq::<char>::empty(),
            o.form_action_extra@ == Seq::<char>::empty(),
            !o.style_unsafe_inline,
            !o.upgrade_insecure_requests,
    {
        CspOptions {
            connect_src_extra: String::new(),
            form_action_extra: String::new(),
            style_unsafe_inline: false,
            upgrade_insecure_requests: false,
        }
    }
}

impl CspOptions {
    /// Production defaults: strict, with `upgrade-insecure-requests`.
    pub fn production(connect_src_extra: &str) -> (o: Self)
        ensures
            o.connect_src_extra@ == connect_src_extra@,
            o.form_action_extra@ == Seq::<char>::empty(),
            !o.style_unsafe_inline,
            o.upgrade_insecure_requests,
    {
        CspOptions {
            connect_src_extra: connect_src_extra.to_owned(),
            form_action_extra: String::new(),
            style_unsafe_inline: false,
            upgrade_insecure_requests: true,
        }
    }

    /// Allow cross-origin form posts to `origin`.
    pub fn form_action(self, origin: &str) -> (o: Self)
        ensures
            o.form_action_extra@ == origin@,
            o.connect_src_extra == self.connect_src_extra,
            o.style_unsafe_inline == self.style_unsafe_inline,
            o.upgrade_insecure_requests == self.upgrade_insecure_requests,
    {
        let mut o = self;
        o.form_action_extra = origin.to_owned();
        o
    }

    /// Allow inline styles.
    pub fn style_unsafe_inline(self) -> (o: Self)
        ensures
            o.style_unsafe_inline,
            o.connect_src_extra == self.connect_src_extra,
            o.form_action_extra == self.form_action_extra,
            o.upgrade_insecure_requests == self.upgrade_insecure_requests,
    {
        let mut o = self;
        o.style_unsafe_inline = true;
        o
    }
}

} // verus!
