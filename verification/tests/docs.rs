use hexplorer::docs::strip_html;

#[test]
fn strip_html_removes_tags() {
    assert_eq!(strip_html("<p>hello</p>"), "hello");
    assert_eq!(strip_html("<em>foo</em> bar"), "foo bar");
    assert_eq!(strip_html("no tags here"), "no tags here");
}

#[test]
fn strip_html_decodes_named_entities() {
    assert_eq!(strip_html("a &amp; b"), "a & b");
    assert_eq!(strip_html("a &lt; b &gt; c"), "a < b > c");
    assert_eq!(strip_html("say &quot;hi&quot;"), "say \"hi\"");
    assert_eq!(strip_html("it&apos;s"), "it's");
    assert_eq!(strip_html("foo&nbsp;bar"), "foo bar");
}

#[test]
fn strip_html_decodes_dash_entities() {
    assert_eq!(strip_html("a&mdash;b"), "a—b");
    assert_eq!(strip_html("a&ndash;b"), "a–b");
    assert_eq!(strip_html("wait&hellip;"), "wait…");
}

#[test]
fn strip_html_decodes_decimal_numeric_entities() {
    assert_eq!(strip_html("&#65;"), "A");
    assert_eq!(strip_html("&#8212;"), "—");
    assert_eq!(strip_html("&#39;"), "'");
}

#[test]
fn strip_html_decodes_hex_numeric_entities() {
    assert_eq!(strip_html("&#x41;"), "A");
    assert_eq!(strip_html("&#x2014;"), "—");
    assert_eq!(strip_html("&#X2026;"), "…");
}

#[test]
fn strip_html_handles_amp_without_semicolon() {
    assert_eq!(strip_html("foo & bar"), "foo & bar");
}

#[test]
fn strip_html_combined_tags_and_entities() {
    let input = "<p>foo &amp; <em>bar</em> &lt;baz&gt;</p>";
    assert_eq!(strip_html(input), "foo & bar <baz>");
}

// ── Further cases ────────────────────────────────────────────────────────────

#[test]
fn strip_html_keeps_spacing_and_unknown_entities() {
    assert_eq!(strip_html("  <b> x </b>  "), "   x   ");
    assert_eq!(strip_html("&bogus; &#xZZ;"), "&bogus; &#xZZ;");
}

#[test]
fn strip_html_rejects_surrogate_code_points() {
    assert_eq!(strip_html("&#xD800;"), "&#xD800;");
}

#[test]
fn stripped_text_has_no_angle_brackets_from_tags() {
    let out = strip_html("<div><span>a</span><br/>b</div>");
    assert_eq!(out, "ab");
}

// ── The search index payload ─────────────────────────────────────────────────

use hexplorer::docs::{map_search_items, search_payload, RawSearchItem, SearchPayload, SearchSource};

fn item(type_: &str, title: &str, ref_: &str) -> String {
    format!(r#"{{"type":"{type_}","title":"{title}","parentTitle":"","doc":"","ref":"{ref_}"}}"#)
}

fn wrap(items: &str) -> String {
    format!(r#"{{"items":[{items}]}}"#)
}

/// The JSON text the payload carries, parsed into raw items.
fn parse_search_data(body: &str) -> Vec<RawSearchItem> {
    let json = match search_payload(body).expect("a search payload") {
        SearchPayload::Json(j) => j,
        SearchPayload::Assignment(j) => j,
    };
    let v: serde_json::Value = serde_json::from_str(&json).expect("valid JSON");
    v["items"]
        .as_array()
        .expect("an items array")
        .iter()
        .map(|i| RawSearchItem {
            item_type: i["type"].as_str().unwrap_or("").to_string(),
            title: i["title"].as_str().unwrap_or("").to_string(),
            parent_title: i["parentTitle"].as_str().unwrap_or("").to_string(),
            doc: i["doc"].as_str().unwrap_or("").to_string(),
            ref_url: i["ref"].as_str().unwrap_or("").to_string(),
        })
        .collect()
}

#[test]
fn parse_pure_json() {
    let json = wrap(&item("function", "add/2", "Math.html#add/2"));
    let items = parse_search_data(&json);
    assert_eq!(items.len(), 1);
    assert_eq!(items[0].title, "add/2");
}

#[test]
fn parse_pure_json_with_equals_in_values() {
    let json = wrap(&item("function", "query_param=value", "Mod.html#f/1"));
    let items = parse_search_data(&json);
    assert_eq!(items.len(), 1);
    assert_eq!(items[0].title, "query_param=value");
}

#[test]
fn parse_js_assignment() {
    let body = format!(r#"var searchData={};"#, wrap(&item("module", "MyMod", "MyMod.html")));
    let items = parse_search_data(&body);
    assert_eq!(items.len(), 1);
    assert_eq!(items[0].title, "MyMod");
}

#[test]
fn parse_js_assignment_with_spaces() {
    let body = format!(r#"searchData = {};"#, wrap(&item("type", "T", "T.html")));
    let items = parse_search_data(&body);
    assert_eq!(items.len(), 1);
}

#[test]
fn map_search_items_sets_source_and_package() {
    let json = wrap(&item("function", "add/2", "Math.html#add/2"));
    let data = parse_search_data(&json);
    let items = map_search_items(data, "my_pkg");
    assert_eq!(items.len(), 1);
    assert_eq!(items[0].source, SearchSource::Remote);
    assert_eq!(items[0].package, "my_pkg");
    assert_eq!(items[0].title, "add/2");
}

#[test]
fn payload_neither_json_nor_assignment() {
    assert!(search_payload("console.log(1)").is_none());
    assert!(search_payload("searchData = [1]").is_none());
}

#[test]
fn every_numeric_entity_form_gives_the_character_back() {
    for c in ['A', 'z', '0', '\'', 'é', '—', '…', '😀', '\u{10FFFF}', '\u{1}'] {
        let n = c as u32;
        let expected = c.to_string();
        assert_eq!(strip_html(&format!("&#{};", n)), expected);
        assert_eq!(strip_html(&format!("&#x{:x};", n)), expected);
        assert_eq!(strip_html(&format!("&#X{:X};", n)), expected);
    }
}

#[test]
fn only_text_outside_tags_is_kept() {
    assert_eq!(strip_html("a>b<c>d"), "abd");
    assert_eq!(strip_html("x<y"), "x");
    assert_eq!(strip_html("<<a>b"), "b");
}
