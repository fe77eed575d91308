//! Markdown content pipeline shared by the content sites: front-matter
//! parsing, Markdown rendering, and the pure parts of the GitHub contents
//! listing and download client (the requests themselves are made by the
//! caller).

mod front_matter;

pub use front_matter::{
    clean_pairs, closing_fence, front_matter_parts, lemma_body_is_suffix,
    lemma_header_pairs_trimmed, lemma_without_fence_passes_through, lines_of, opening_fence,
    owned_pairs, sorted_by_key, split_front_matter, with_header_line, with_header_lines,
    FrontMatter,
};

use vstd::prelude::*;
use vstd::string::StringExecFns;

use crate::text::{ends_with, has_suffix};

verus! {

/// `pulldown_cmark::Options::ENABLE_TABLES`.
pub const ENABLE_TABLES: u32 = 2;

/// `pulldown_cmark::Options::ENABLE_STRIKETHROUGH`.
pub const ENABLE_STRIKETHROUGH: u32 = 8;

/// HTML that `pulldown_cmark` renders from `markdown` with the option bits
/// `options`.
pub uninterp spec fn commonmark_html(markdown: Seq<char>, options: u32) -> Seq<char>;

/// `pulldown_cmark::html::push_html` into an empty string over
/// `Parser::new_ext(markdown, Options::from_bits_truncate(options))`: the
/// HTML rendering of `markdown`, a function of the text and the options
/// alone. Named by [`commonmark_html`].
#[verifier::external_body]
fn render_commonmark(markdown: &str, options: u32) -> (html: String)
    ensures
        html@ == commonmark_html(markdown@, options),
{
    let mut html = String::new();
    let parser = pulldown_cmark::Parser::new_ext(
        markdown,
        pulldown_cmark::Options::from_bits_truncate(options),
    );
    pulldown_cmark::html::push_html(&mut html, parser);
    html
}

/// Render Markdown to HTML with the shared option set (tables and
/// strikethrough enabled).
pub fn markdown_to_html(markdown: &str) -> (html: String)
    ensures
        html@ == commonmark_html(markdown@, ENABLE_TABLES | ENABLE_STRIKETHROUGH),
{
    render_commonmark(markdown, ENABLE_TABLES | ENABLE_STRIKETHROUGH)
}

/// Number of file downloads in flight at once when fetching a listing.
pub const DOWNLOAD_CONCURRENCY: usize = 8;

/// One entry of a GitHub contents-API directory listing.
#[derive(Debug)]
pub struct GithubContentEntry {
    /// File name within the listed directory (e.g. `welcome.md`).
    pub name: String,
    /// Raw download URL; `None` for entries without one (e.g. directories).
    pub download_url: Option<String>,
}

/// A downloaded Markdown document: the repository file name plus its raw
/// Markdown source.
#[derive(Clone, Debug, PartialEq, Eq)]
pub struct MarkdownFile {
    /// File name within the listed directory (e.g. `welcome.md`).
    pub name: String,
    /// Raw Markdown source.
    pub markdown: String,
}

/// The contents-API URL that lists `path` (empty for the repository root) of
/// `owner/repo` at `git_ref`.
pub open spec fn contents_url_text(
    owner: Seq<char>,
    repo: Seq<char>,
    path: Seq<char>,
    git_ref: Seq<char>,
) -> Seq<char> {
    "https://api.github.com/repos/"@ + owner + "/"@ + repo + "/contents/"@ + path + "?ref="@
        + git_ref
}

/// URL of the GitHub contents listing of `path` in `owner/repo` at `git_ref`.
pub fn contents_url(owner: &str, repo: &str, path: &str, git_ref: &str) -> (url: String)
    ensures
        url@ == contents_url_text(owner@, repo@, path@, git_ref@),
{
    let mut url = String::new();
    url.append("https://api.github.com/repos/");
    url.append(owner);
    url.append("/");
    url.append(repo);
    url.append("/contents/");
    url.append(path);
    url.append("?ref=");
    url.append(git_ref);
    url
}

/// Message for a listing request that GitHub answered with a non-success
/// `status`, carrying the response `body`.
pub fn listing_error_message(status: &str, body: &str) -> (m: String)
    ensures
        m@ == "list "@ + status@ + ": "@ + body@,
{
    let mut m = String::new();
    m.append("list ");
    m.append(status);
    m.append(": ");
    m.append(body);
    m
}

/// The listing entries as plain values: name and download URL.
pub open spec fn entry_values(entries: Seq<GithubContentEntry>) -> Seq<(Seq<char>, Option<Seq<char>>)> {
    entries.map_values(
        |e: GithubContentEntry|
            (
                e.name@,
                match e.download_url {
                    Some(u) => Some(u@),
                    None => None,
                },
            ),
    )
}

/// Markdown files to download from a listing, as `(name, download URL)`:
/// the `.md` entries that have a download URL, in listing order.
pub open spec fn markdown_downloads_of(entries: Seq<(Seq<char>, Option<Seq<char>>)>) -> Seq<
    (Seq<char>, Seq<char>),
>
    decreases entries.len(),
{
    if entries.len() == 0 {
        seq![]
    } else {
        let rest = markdown_downloads_of(entries.drop_last());
        let e = entries.last();
        match e.1 {
            Some(url) => if has_suffix(e.0, ".md"@) {
                rest.push((e.0, url))
            } else {
                rest
            },
            None => rest,
        }
    }
}

/// The download that a listing entry calls for: its name and URL when it is
/// a `.md` file with a download URL.
pub open spec fn markdown_download(e: (Seq<char>, Option<Seq<char>>)) -> Option<(Seq<char>, Seq<char>)> {
    match e.1 {
        Some(url) => if has_suffix(e.0, ".md"@) {
            Some((e.0, url))
        } else {
            None
        },
        None => None,
    }
}

/// Every `.md` entry with a download URL is downloaded, in listing order,
/// and nothing else: the downloads are the listing mapped through
/// [`markdown_download`], keeping the entries it keeps. In particular an
/// entry appended to a listing adds exactly its own download, however many
/// precede it.
pub proof fn lemma_every_markdown_entry_is_downloaded(
    entries: Seq<(Seq<char>, Option<Seq<char>>)>,
    name: Seq<char>,
    url: Seq<char>,
)
    ensures
        markdown_downloads_of(entries) == entries.filter_map(|e| markdown_download(e)),
        has_suffix(name, ".md"@) ==> markdown_downloads_of(entries.push((name, Some(url))))
            == markdown_downloads_of(entries).push((name, url)),
        markdown_downloads_of(entries.push((name, None))) == markdown_downloads_of(entries),
    decreases entries.len(),
{
    let e2 = entries.push((name, Some(url)));
    assert(e2.drop_last() =~= entries);
    assert(entries.push((name, None)).drop_last() =~= entries);
    if entries.len() > 0 {
        lemma_every_markdown_entry_is_downloaded(entries.drop_last(), name, url);
        let f = |e| markdown_download(e);
        assert(entries.filter_map(f) == match f(entries.last()) {
            Some(x) => entries.drop_last().filter_map(f) + seq![x],
            None => entries.drop_last().filter_map(f),
        });
        if let Some(x) = f(entries.last()) {
            assert(entries.drop_last().filter_map(f) + seq![x] =~= entries.drop_last().filter_map(
                f,
            ).push(x));
        }
    } else {
        let f = |e| markdown_download(e);
        assert(entries.filter_map(f) =~= Seq::<(Seq<char>, Seq<char>)>::empty());
    }
}

/// The downloads that a listing calls for (see [`markdown_downloads_of`]).
pub fn markdown_downloads(entries: &Vec<GithubContentEntry>) -> (d: Vec<(String, String)>)
    ensures
        d@.map_values(|p: (String, String)| (p.0@, p.1@)) == markdown_downloads_of(
            entry_values(entries@),
        ),
        d@.map_values(|p: (String, String)| (p.0@, p.1@)) == entry_values(entries@).filter_map(
            |e| markdown_download(e),
        ),
{
    proof {
        lemma_every_markdown_entry_is_downloaded(entry_values(entries@), Seq::empty(), Seq::empty());
    }
    let ghost ev = entry_values(entries@);
    let mut d: Vec<(String, String)> = Vec::new();
    let mut i: usize = 0;
    while i < entries.len()
        invariant
            i <= entries.len(),
            ev == entry_values(entries@),
            d@.map_values(|p: (String, String)| (p.0@, p.1@)) == markdown_downloads_of(
                ev.take(i as int),
            ),
        decreases entries.len() - i,
    {
        let e = &entries[i];
        let ghost before = d@.map_values(|p: (String, String)| (p.0@, p.1@));
        proof {
            assert(ev.take(i + 1).drop_last() =~= ev.take(i as int));
            assert(ev.take(i + 1).last() == ev[i as int]);
        }
        match &e.download_url {
            Some(url) => {
                if ends_with(e.name.as_str(), ".md") {
                    d.push((e.name.clone(), url.clone()));
                    assert(d@.map_values(|p: (String, String)| (p.0@, p.1@)) =~= before.push(
                        (e.name@, url@),
                    ));
                }
            },
            None => {},
        }
        i += 1;
    }
    assert(ev.take(entries@.len() as int) =~= ev);
    d
}

} // verus!
