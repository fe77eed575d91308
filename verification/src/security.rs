//! Shared HTTP security header values.

mod csp_options;

pub use csp_options::CspOptions;

use vstd::prelude::*;
use vstd::string::StringExecFns;

use crate::text::{contains_seq, occurs_at};

verus! {

/// CSP fragment required by the self-hosted ALTCHA widget (PoW workers use `blob:` URLs).
pub const CSP_ALTCHA: &'static str = "worker-src 'self' blob: data:";

/// `"<name> 'self'"`, plus `" <extra>"` when `extra` is non-empty.
pub open spec fn directive_text(name: Seq<char>, extra: Seq<char>) -> Seq<char> {
    if extra.len() == 0 {
        name + " 'self'"@
    } else {
        name + " 'self' "@ + extra
    }
}

/// The `style-src` directive: `'self'`, with `'unsafe-inline'` when inline
/// styles are allowed.
pub open spec fn style_src_text(style_unsafe_inline: bool) -> Seq<char> {
    if style_unsafe_inline {
        "style-src 'self' 'unsafe-inline'"@
    } else {
        "style-src 'self'"@
    }
}

/// The shared content security policy for the given per-service adjustments.
pub open spec fn csp_text(
    connect_src_extra: Seq<char>,
    form_action_extra: Seq<char>,
    style_unsafe_inline: bool,
    upgrade_insecure_requests: bool,
) -> Seq<char> {
    let base = "default-src 'self'; base-uri 'self'; object-src 'none'; frame-ancestors 'none'; img-src 'self' data:; "@
        + style_src_text(style_unsafe_inline) + "; script-src 'self'; font-src 'self'; "@
        + CSP_ALTCHA@ + "; "@ + directive_text("connect-src"@, connect_src_extra) + "; "@
        + directive_text("form-action"@, form_action_extra);
    if upgrade_insecure_requests {
        base + "; upgrade-insecure-requests"@
    } else {
        base
    }
}

/// The policy that `options` asks for.
pub open spec fn options_csp(options: CspOptions) -> Seq<char> {
    csp_text(
        options.connect_src_extra@,
        options.form_action_extra@,
        options.style_unsafe_inline,
        options.upgrade_insecure_requests,
    )
}

/// Appends `"<name> 'self'"`, plus `" <extra>"` when `extra` is non-empty.
fn push_directive(out: &mut String, name: &str, extra: &str)
    ensures
        final(out)@ == old(out)@ + directive_text(name@, extra@),
{
    out.append(name);
    if extra.is_empty() {
        out.append(" 'self'");
    } else {
        out.append(" 'self' ");
        out.append(extra);
    }
}

/// `"<name> 'self'"`, plus `extra` when non-empty.
pub fn directive(name: &str, extra: &str) -> (d: String)
    ensures
        d@ == directive_text(name@, extra@),
{
    let mut d = String::new();
    push_directive(&mut d, name, extra);
    d
}

/// Build the shared CSP with per-service adjustments. See [`CspOptions`].
pub fn public_html_csp_with(options: &CspOptions) -> (csp: String)
    ensures
        csp@ == options_csp(*options),
{
    let mut csp = String::new();
    csp.append(
        "default-src 'self'; base-uri 'self'; object-src 'none'; frame-ancestors 'none'; img-src 'self' data:; ",
    );
    if options.style_unsafe_inline {
        csp.append("style-src 'self' 'unsafe-inline'");
    } else {
        csp.append("style-src 'self'");
    }
    csp.append("; script-src 'self'; font-src 'self'; ");
    csp.append(CSP_ALTCHA);
    csp.append("; ");
    push_directive(&mut csp, "connect-src", options.connect_src_extra.as_str());
    csp.append("; ");
    push_directive(&mut csp, "form-action", options.form_action_extra.as_str());
    if options.upgrade_insecure_requests {
        csp.append("; upgrade-insecure-requests");
    }
    csp
}

/// Baseline CSP for public HTML pages served by the apps.
pub fn public_html_csp(connect_src_extra: &str, style_unsafe_inline: bool) -> (csp: String)
    ensures
        csp@ == csp_text(connect_src_extra@, Seq::empty(), style_unsafe_inline, false),
{
    let mut options = CspOptions::default();
    options.connect_src_extra = connect_src_extra.to_owned();
    options.style_unsafe_inline = style_unsafe_inline;
    public_html_csp_with(&options)
}

/// Production CSP: same as [`public_html_csp`] plus upgrade-insecure-requests.
pub fn public_html_csp_production(connect_src_extra: &str, style_unsafe_inline: bool) -> (csp:
    String)
    ensures
        csp@ == csp_text(connect_src_extra@, Seq::empty(), style_unsafe_inline, true),
{
    let mut options = CspOptions::default();
    options.connect_src_extra = connect_src_extra.to_owned();
    options.style_unsafe_inline = style_unsafe_inline;
    options.upgrade_insecure_requests = true;
    public_html_csp_with(&options)
}

/// The production policy is the baseline policy followed by
/// `; upgrade-insecure-requests`, for every `connect-src` extra and style
/// setting.
pub proof fn lemma_production_extends_baseline(connect_src_extra: Seq<char>, style_unsafe_inline: bool)
    ensures
        csp_text(connect_src_extra, Seq::empty(), style_unsafe_inline, true) == csp_text(
            connect_src_extra,
            Seq::empty(),
            style_unsafe_inline,
            false,
        ) + "; upgrade-insecure-requests"@,
{
}

/// Every policy allows the self-hosted ALTCHA workers: the ALTCHA directive
/// occurs in it whatever the adjustments.
pub proof fn lemma_csp_allows_altcha(
    connect_src_extra: Seq<char>,
    form_action_extra: Seq<char>,
    style_unsafe_inline: bool,
    upgrade_insecure_requests: bool,
)
    ensures
        contains_seq(
            csp_text(connect_src_extra, form_action_extra, style_unsafe_inline, upgrade_insecure_requests),
            CSP_ALTCHA@,
        ),
{
    let head = "default-src 'self'; base-uri 'self'; object-src 'none'; frame-ancestors 'none'; img-src 'self' data:; "@
        + style_src_text(style_unsafe_inline) + "; script-src 'self'; font-src 'self'; "@;
    let tail = "; "@ + directive_text("connect-src"@, connect_src_extra) + "; "@ + directive_text(
        "form-action"@,
        form_action_extra,
    );
    let rest = if upgrade_insecure_requests {
        tail + "; upgrade-insecure-requests"@
    } else {
        tail
    };
    let csp = csp_text(connect_src_extra, form_action_extra, style_unsafe_inline, upgrade_insecure_requests);
    assert(csp =~= head + CSP_ALTCHA@ + rest);
    let i = head.len() as int;
    assert(csp.subrange(i, i + CSP_ALTCHA@.len()) =~= CSP_ALTCHA@);
    assert(occurs_at(csp, CSP_ALTCHA@, i));
}

/// The source keyword that allows inline styles.
pub open spec fn unsafe_inline() -> Seq<char> {
    "unsafe-inline"@
}

/// Characters that can occur in [`unsafe_inline`]: lower-case letters and `-`.
pub open spec fn keyword_char(c: char) -> bool {
    ('a' <= c && c <= 'z') || c == '-'
}

proof fn lemma_unsafe_inline_chars()
    ensures
        unsafe_inline().len() == 13,
        unsafe_inline()[0] == 'u',
        unsafe_inline()[1] == 'n',
        forall|j: int| 0 <= j < 13 ==> keyword_char(#[trigger] unsafe_inline()[j]),
{
    reveal_strlit("unsafe-inline");
}

/// No position of `s` starts a `u` followed by `n` early enough to begin
/// the keyword, so the keyword does not occur.
proof fn lemma_no_keyword_without_un(s: Seq<char>)
    requires
        forall|i: int| 0 <= i && i + 13 <= s.len() ==> !(#[trigger] s[i] == 'u' && s[i + 1] == 'n'),
    ensures
        !contains_seq(s, unsafe_inline()),
{
    lemma_unsafe_inline_chars();
    if contains_seq(s, unsafe_inline()) {
        let i = choose|i: int| occurs_at(s, unsafe_inline(), i);
        assert(s.subrange(i, i + 13)[0] == s[i]);
        assert(s.subrange(i, i + 13)[1] == s[i + 1]);
    }
}

/// Joining two texts without the keyword gives none, when a non-keyword
/// character stands on one side of the join.
proof fn lemma_join_without_keyword(x: Seq<char>, y: Seq<char>)
    requires
        !contains_seq(x, unsafe_inline()),
        !contains_seq(y, unsafe_inline()),
        (x.len() > 0 && !keyword_char(x.last())) || (y.len() > 0 && !keyword_char(y[0])),
    ensures
        !contains_seq(x + y, unsafe_inline()),
{
    lemma_unsafe_inline_chars();
    let p = unsafe_inline();
    let s = x + y;
    if contains_seq(s, p) {
        let i = choose|i: int| occurs_at(s, p, i);
        let w = s.subrange(i, i + 13);
        if i + 13 <= x.len() {
            assert(x.subrange(i, i + 13) =~= w);
            assert(occurs_at(x, p, i));
        } else if i >= x.len() {
            assert(y.subrange(i - x.len(), i - x.len() + 13) =~= w);
            assert(occurs_at(y, p, i - x.len()));
        } else if x.len() > 0 && !keyword_char(x.last()) {
            assert(w[x.len() - 1 - i] == x.last());
            assert(keyword_char(p[x.len() - 1 - i]));
        } else {
            assert(w[x.len() - i] == y[0]);
            assert(keyword_char(p[x.len() - i]));
        }
    }
}

proof fn lemma_contains_in_context(x: Seq<char>, y: Seq<char>, z: Seq<char>, i: int)
    requires
        occurs_at(y, unsafe_inline(), i),
    ensures
        contains_seq(x + y + z, unsafe_inline()),
{
    let s = x + y + z;
    let n = unsafe_inline().len();
    assert(s.subrange(x.len() + i, x.len() + i + n) =~= y.subrange(i, i + n));
    assert(occurs_at(s, unsafe_inline(), x.len() + i));
}

/// A directive holds the keyword only through its extra sources.
proof fn lemma_directive_without_keyword(name: Seq<char>, extra: Seq<char>)
    requires
        !contains_seq(name, unsafe_inline()),
        name.len() > 0,
        !contains_seq(extra, unsafe_inline()),
    ensures
        !contains_seq(directive_text(name, extra), unsafe_inline()),
        directive_text(name, extra).len() > 0,
{
    reveal_strlit(" 'self'");
    reveal_strlit(" 'self' ");
    lemma_no_keyword_without_un(" 'self'"@);
    lemma_no_keyword_without_un(" 'self' "@);
    if extra.len() == 0 {
        lemma_join_without_keyword(name, " 'self'"@);
    } else {
        lemma_join_without_keyword(name, " 'self' "@);
        lemma_join_without_keyword(name + " 'self' "@, extra);
    }
}

/// The policy allows inline styles (holds `unsafe-inline`) exactly when the
/// options ask for them, as long as the extra sources do not themselves name
/// the keyword.
pub proof fn lemma_csp_unsafe_inline_iff(
    connect_src_extra: Seq<char>,
    form_action_extra: Seq<char>,
    style_unsafe_inline: bool,
    upgrade_insecure_requests: bool,
)
    requires
        !contains_seq(connect_src_extra, unsafe_inline()),
        !contains_seq(form_action_extra, unsafe_inline()),
    ensures
        contains_seq(
            csp_text(connect_src_extra, form_action_extra, style_unsafe_inline, upgrade_insecure_requests),
            unsafe_inline(),
        ) <==> style_unsafe_inline,
{
    let p1 = "default-src 'self'; base-uri 'self'; object-src 'none'; frame-ancestors 'none'; img-src 'self' data:; "@;
    let p2 = "; script-src 'self'; font-src 'self'; "@;
    let sep = "; "@;
    let up = "; upgrade-insecure-requests"@;
    let dc = directive_text("connect-src"@, connect_src_extra);
    let df = directive_text("form-action"@, form_action_extra);
    let base = p1 + style_src_text(style_unsafe_inline) + p2 + CSP_ALTCHA@ + sep + dc + sep + df;
    let csp = csp_text(connect_src_extra, form_action_extra, style_unsafe_inline, upgrade_insecure_requests);
    if style_unsafe_inline {
        reveal_strlit("style-src 'self' 'unsafe-inline'");
        reveal_strlit("unsafe-inline");
        let st = "style-src 'self' 'unsafe-inline'"@;
        assert(st.subrange(18, 31) =~= unsafe_inline());
        let rest = p2 + CSP_ALTCHA@ + sep + dc + sep + df + (if upgrade_insecure_requests { up } else { Seq::empty() });
        assert(csp =~= p1 + st + rest);
        lemma_contains_in_context(p1, st, rest, 18);
    } else {
        reveal_strlit("default-src 'self'; base-uri 'self'; object-src 'none'; frame-ancestors 'none'; img-src 'self' data:; ");
        reveal_strlit("style-src 'self'");
        reveal_strlit("; script-src 'self'; font-src 'self'; ");
        reveal_strlit("worker-src 'self' blob: data:");
        reveal_strlit("; ");
        reveal_strlit("; upgrade-insecure-requests");
        reveal_strlit("connect-src");
        reveal_strlit("form-action");
        lemma_no_keyword_without_un(p1);
        lemma_no_keyword_without_un("style-src 'self'"@);
        lemma_no_keyword_without_un(p2);
        lemma_no_keyword_without_un(CSP_ALTCHA@);
        lemma_no_keyword_without_un(sep);
        lemma_no_keyword_without_un(up);
        lemma_no_keyword_without_un("connect-src"@);
        lemma_no_keyword_without_un("form-action"@);
        lemma_directive_without_keyword("connect-src"@, connect_src_extra);
        lemma_directive_without_keyword("form-action"@, form_action_extra);
        let a1 = p1 + "style-src 'self'"@;
        lemma_join_without_keyword(p1, "style-src 'self'"@);
        let a2 = a1 + p2;
        lemma_join_without_keyword(a1, p2);
        let a3 = a2 + CSP_ALTCHA@;
        lemma_join_without_keyword(a2, CSP_ALTCHA@);
        let a4 = a3 + sep;
        lemma_join_without_keyword(a3, sep);
        let a5 = a4 + dc;
        lemma_join_without_keyword(a4, dc);
        let a6 = a5 + sep;
        lemma_join_without_keyword(a5, sep);
        let a7 = a6 + df;
        lemma_join_without_keyword(a6, df);
        assert(base == a7);
        if upgrade_insecure_requests {
            lemma_join_without_keyword(a7, up);
        }
    }
}

/// Non-CSP security headers applied to every response by the server helpers,
/// as `(name, value)` pairs.
pub open spec fn security_header_list() -> Seq<(Seq<char>, Seq<char>)> {
    seq![
        ("x-content-type-options"@, "nosniff"@),
        ("x-frame-options"@, "DENY"@),
        ("referrer-policy"@, "strict-origin-when-cross-origin"@),
        ("cross-origin-opener-policy"@, "same-origin"@),
        ("permissions-policy"@, "geolocation=(), microphone=(), camera=()"@),
        ("strict-transport-security"@, "max-age=63072000; includeSubDomains; preload"@),
    ]
}

/// Non-CSP security headers applied to every response by the server helpers.
///
/// The CSP itself is built per service via [`public_html_csp_production`]
/// because its `connect-src` varies (e.g. the identity BFF origin).
pub fn security_headers() -> (h: Vec<(&'static str, &'static str)>)
    ensures
        h@.map_values(|p: (&str, &str)| (p.0@, p.1@)) == security_header_list(),
{
    let h = vec![
        ("x-content-type-options", "nosniff"),
        ("x-frame-options", "DENY"),
        ("referrer-policy", "strict-origin-when-cross-origin"),
        ("cross-origin-opener-policy", "same-origin"),
        ("permissions-policy", "geolocation=(), microphone=(), camera=()"),
        ("strict-transport-security", "max-age=63072000; includeSubDomains; preload"),
    ];
    assert(h@.map_values(|p: (&str, &str)| (p.0@, p.1@)) =~= security_header_list());
    h
}

} // verus!
