use sigma_theme::content::{
    contents_url, listing_error_message, markdown_downloads, markdown_to_html,
    split_front_matter, GithubContentEntry,
};

#[test]
fn splits_front_matter_key_values_from_body() {
    let (meta, body) = split_front_matter("---\ntitle: Welcome\norder: 1\n---\n\nHello.\n");
    assert_eq!(meta.get("title").unwrap(), "Welcome");
    assert_eq!(meta.get("order").unwrap(), "1");
    assert_eq!(body, "Hello.\n");
}

#[test]
fn source_without_front_matter_passes_through() {
    let source = "No front matter here.\n";
    let (meta, body) = split_front_matter(source);
    assert!(meta.is_empty());
    assert_eq!(body, source);
}

#[test]
fn unterminated_front_matter_passes_through() {
    let source = "---\ntitle: broken\n";
    let (meta, body) = split_front_matter(source);
    assert!(meta.is_empty());
    assert_eq!(body, source);
}

#[test]
fn markdown_renders_tables_and_strikethrough() {
    let html = markdown_to_html("~~gone~~\n\n| a | b |\n|---|---|\n| 1 | 2 |\n");
    assert!(html.contains("<del>gone</del>"));
    assert!(html.contains("<table>"));
}

#[test]
fn front_matter_lines_trim_split_at_first_colon_and_keep_last_value() {
    let (meta, body) = split_front_matter(
        "---\r\n  title :  A: B \r\nno colon line\ntitle: Again\n\u{a0}url: http://x\n---body",
    );
    assert_eq!(meta.len(), 2);
    assert_eq!(meta.get("title").unwrap(), "Again");
    assert_eq!(meta.get("url").unwrap(), "http://x");
    assert!(meta.get("no colon line").is_none());
    assert_eq!(body, "body");
}

#[test]
fn front_matter_header_with_colon_value_and_crlf() {
    let (meta, body) = split_front_matter("---\r\nkey: a: b\r\n---\r\nrest");
    assert_eq!(meta.get("key").unwrap(), "a: b");
    assert_eq!(body, "\r\nrest");
}

#[test]
fn front_matter_empty_header_and_all_newline_body() {
    let (meta, body) = split_front_matter("---\n---\n\n\n");
    assert!(meta.is_empty());
    assert_eq!(body, "");
    let (meta, body) = split_front_matter("---");
    assert!(meta.is_empty());
    assert_eq!(body, "---");
}

#[test]
fn markdown_plain_paragraph() {
    assert_eq!(markdown_to_html("Hello"), "<p>Hello</p>\n");
}

#[test]
fn contents_url_names_owner_repo_path_and_ref() {
    assert_eq!(
        contents_url("sigma", "docs", "pages", "main"),
        "https://api.github.com/repos/sigma/docs/contents/pages?ref=main"
    );
    assert_eq!(
        contents_url("o", "r", "", "v1"),
        "https://api.github.com/repos/o/r/contents/?ref=v1"
    );
}

#[test]
fn listing_error_message_carries_status_and_body() {
    assert_eq!(listing_error_message("404 Not Found", "nope"), "list 404 Not Found: nope");
}

#[test]
fn markdown_downloads_keep_md_entries_with_urls_in_order() {
    let entries = vec![
        GithubContentEntry { name: "b.md".to_string(), download_url: Some("u/b".to_string()) },
        GithubContentEntry { name: "dir".to_string(), download_url: None },
        GithubContentEntry { name: "c.txt".to_string(), download_url: Some("u/c".to_string()) },
        GithubContentEntry { name: "x.md".to_string(), download_url: None },
        GithubContentEntry { name: "a.md".to_string(), download_url: Some("u/a".to_string()) },
    ];
    let d = markdown_downloads(&entries);
    assert_eq!(
        d,
        vec![
            ("b.md".to_string(), "u/b".to_string()),
            ("a.md".to_string(), "u/a".to_string())
        ]
    );
}

#[test]
fn sorted_entries_list_pairs_by_key() {
    let (meta, _) = split_front_matter("---\ntitle: T\norder: 2\nauthor: A\ntitle: U\n---\n");
    let entries = meta.sorted_entries();
    assert_eq!(
        entries,
        vec![
            ("author".to_string(), "A".to_string()),
            ("order".to_string(), "2".to_string()),
            ("title".to_string(), "U".to_string()),
        ]
    );
}

#[test]
fn header_keys_and_values_come_out_trimmed() {
    let (meta, _) = split_front_matter("---\n  a b  :  c : d  \n\tx\t:\ty\t\n---\n");
    for (k, v) in meta.sorted_entries() {
        assert_eq!(k.trim(), k);
        assert_eq!(v.trim(), v);
        assert!(!k.contains(':') && !k.contains('\n') && !v.contains('\n'));
    }
    assert_eq!(meta.get("a b").unwrap(), "c : d");
    assert_eq!(meta.get("x").unwrap(), "y");
}
