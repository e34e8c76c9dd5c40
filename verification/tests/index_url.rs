use hexplorer::index_url::{find_search_index_url, try_find_search_index_url};

#[test]
fn find_url_from_script_src_json() {
    let html = r#"<script src="search_data.json"></script>"#;
    let url = find_search_index_url("https://hexdocs.pm/gleam_stdlib/search.html", html);
    assert_eq!(url.as_deref(), Some("https://hexdocs.pm/gleam_stdlib/search_data.json"));
}

#[test]
fn find_url_from_script_src_js() {
    let html = r#"<script defer="defer" src="dist/search_data-abc123.js"></script>"#;
    let url = find_search_index_url("https://hexdocs.pm/lustre/search.html", html);
    assert!(url.is_some());
    assert!(url.unwrap().contains("dist/search_data-abc123.js"));
}

#[test]
fn find_url_prefers_src_attribute() {
    let html = r#"<link href="search-data.json"><script src="search-data.js"></script>"#;
    let url = find_search_index_url("https://hexdocs.pm/pkg/search.html", html);
    assert_eq!(url.as_deref(), Some("https://hexdocs.pm/pkg/search-data.js"));
}

#[test]
fn find_url_returns_none_for_unrelated_html() {
    let html = r#"<html><body><p>No search here.</p></body></html>"#;
    let url = find_search_index_url("https://hexdocs.pm/pkg/search.html", html);
    assert!(url.is_none());
}

#[test]
fn find_url_from_quoted_mention() {
    // No src attribute names an index; the second pass finds the quoted path.
    let html = r#"<script>loadIndex('dist/search-data-9f.js');</script>"#;
    let url = find_search_index_url("https://hexdocs.pm/pkg/search.html", html);
    assert_eq!(url.as_deref(), Some("https://hexdocs.pm/pkg/dist/search-data-9f.js"));
}

#[test]
fn find_url_skips_unquoted_and_unrelated_sources() {
    let html = r#"<img src=logo.png><script src="app.js"></script><script src='search.json'></script>"#;
    let url = find_search_index_url("https://hexdocs.pm/pkg/search.html", html);
    assert_eq!(url.as_deref(), Some("https://hexdocs.pm/pkg/search.json"));
}

#[test]
fn find_url_needs_an_absolute_base() {
    let html = r#"<script src="search_data.json"></script>"#;
    assert_eq!(find_search_index_url("not a url", html), None);
    assert_eq!(try_find_search_index_url("not a url", html), Some(None));
}

#[test]
fn try_find_url_agrees_where_defined() {
    let html = r#"<script src="search_data.json"></script>"#;
    let base = "https://hexdocs.pm/gleam_stdlib/search.html";
    assert_eq!(try_find_search_index_url(base, html), Some(find_search_index_url(base, html)));
}

#[test]
fn try_find_url_refuses_a_resume_point_inside_a_character() {
    // After the value "é" (two bytes) the scan resumes one byte too early, in the
    // middle of the `é`.
    let html = "src= \"é\"";
    assert_eq!(try_find_search_index_url("https://hexdocs.pm/pkg/search.html", html), None);
}

#[test]
fn find_url_reads_the_closing_character_by_byte_offset() {
    // The quote before `search.json` is at byte 2 but character 1; the closing
    // character is read at character 2 (`a`), so the quoted text ends at the first
    // `a` after the fragment.
    let url = find_search_index_url("https://hexdocs.pm/pkg/search.html", "é'abc search.json'");
    assert_eq!(url.as_deref(), Some("https://hexdocs.pm/pkg/abc%20se"));
}
