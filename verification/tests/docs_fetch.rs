use hexplorer::docs::{RawSearchItem, SearchSource};
use hexplorer::docs_fetch::{DocsAction, DocsEvent, DocsFetch};

fn url_of(a: &DocsAction) -> String {
    match a {
        DocsAction::Get(u) => u.clone(),
        _ => panic!("expected a request"),
    }
}

fn raw(title: &str, doc: &str) -> RawSearchItem {
    RawSearchItem {
        item_type: "module".to_string(),
        title: title.to_string(),
        parent_title: String::new(),
        doc: doc.to_string(),
        ref_url: format!("{title}.html"),
    }
}

#[test]
fn docs_fetch_tries_direct_candidates_in_order() {
    let (mut f, a) = DocsFetch::start("lustre");
    assert_eq!(url_of(&a), "https://hexdocs.pm/lustre/search_data.json");
    let expected = [
        "https://hexdocs.pm/lustre/search-data.json",
        "https://hexdocs.pm/lustre/search_data.js",
        "https://hexdocs.pm/lustre/search-data.js",
        "https://hexdocs.pm/lustre/dist/search_data.js",
        "https://hexdocs.pm/lustre/dist/search-data.js",
        "https://hexdocs.pm/lustre/search.html",
    ];
    for e in expected {
        let a = f.step(DocsEvent::Body(None));
        assert_eq!(url_of(&a), e);
    }
}

#[test]
fn docs_fetch_direct_hit() {
    let (mut f, _) = DocsFetch::start("gleam_stdlib");
    let a = f.step(DocsEvent::Body(Some("  {\"items\": []}  ".to_string())));
    match a {
        DocsAction::ParseJson(j) => assert_eq!(j, "{\"items\": []}"),
        _ => panic!("expected a parse request"),
    }
    let a = f.step(DocsEvent::Parsed(Some(vec![raw("List", "<p>List &amp; utilities</p>")])));
    match a {
        DocsAction::Found(items) => {
            assert_eq!(items.len(), 1);
            assert_eq!(items[0].source, SearchSource::Remote);
            assert_eq!(items[0].package, "gleam_stdlib");
            assert_eq!(items[0].title, "List");
            assert_eq!(items[0].doc_text, "List & utilities");
        }
        _ => panic!("expected the items"),
    }
}

#[test]
fn docs_fetch_empty_index_moves_on() {
    let (mut f, _) = DocsFetch::start("pkg");
    let a = f.step(DocsEvent::Body(Some("{\"items\": []}".to_string())));
    assert!(matches!(a, DocsAction::ParseJson(_)));
    let a = f.step(DocsEvent::Parsed(Some(vec![])));
    assert_eq!(url_of(&a), "https://hexdocs.pm/pkg/search-data.json");
    // A body with no payload in it moves on as well.
    let a = f.step(DocsEvent::Body(Some("<html>not found</html>".to_string())));
    assert_eq!(url_of(&a), "https://hexdocs.pm/pkg/search_data.js");
}

fn to_page(f: &mut DocsFetch) {
    for _ in 0..6 {
        f.step(DocsEvent::Body(None));
    }
}

#[test]
fn docs_fetch_follows_the_linked_asset_then_inline_data() {
    let (mut f, _) = DocsFetch::start("pkg");
    to_page(&mut f);
    let page = r#"<script src="dist/search_data-1.js"></script><script>searchData = {"items":[1]};</script>"#;
    let a = f.step(DocsEvent::Body(Some(page.to_string())));
    assert_eq!(url_of(&a), "https://hexdocs.pm/pkg/dist/search_data-1.js");
    // The asset cannot be had: the embedded searchData is tried.
    let a = f.step(DocsEvent::Body(None));
    match a {
        DocsAction::ParseJson(j) => assert_eq!(j, r#"{"items":[1]}"#),
        _ => panic!("expected the inline data"),
    }
    let a = f.step(DocsEvent::Parsed(None));
    match a {
        DocsAction::NotFound(m) => assert_eq!(
            m,
            "docs search index not found for 'pkg' — tried direct candidates and HTML discovery"
        ),
        _ => panic!("expected the failure"),
    }
}

#[test]
fn docs_fetch_gives_up_without_a_page() {
    let (mut f, _) = DocsFetch::start("pkg");
    to_page(&mut f);
    assert!(matches!(f.step(DocsEvent::Body(None)), DocsAction::NotFound(_)));
}

#[test]
fn docs_fetch_stops_where_the_page_scan_would_panic() {
    let (mut f, _) = DocsFetch::start("pkg");
    to_page(&mut f);
    assert!(matches!(f.step(DocsEvent::Body(Some("src= \"é\"".to_string()))), DocsAction::Abort));
}

#[test]
fn a_whole_search_takes_the_first_candidate_with_entries() {
    let web = |u: &str| -> Option<String> {
        match u {
            "https://hexdocs.pm/pkg/search-data.json" => Some("{\"items\": []}".to_string()),
            "https://hexdocs.pm/pkg/search_data.js" => Some("searchData = {\"items\": [1]};".to_string()),
            "https://hexdocs.pm/pkg/search-data.js" => Some("{\"items\": [2]}".to_string()),
            _ => None,
        }
    };
    let (mut f, mut a) = DocsFetch::start("pkg");
    let mut asked = vec![];
    let mut steps = 0;
    loop {
        steps += 1;
        assert!(steps <= 20);
        a = match a {
            DocsAction::Get(u) => {
                asked.push(u.clone());
                f.step(DocsEvent::Body(web(&u)))
            }
            DocsAction::ParseJson(j) => {
                let items = if j.contains("[1]") { vec![raw("Found", "")] } else { vec![] };
                f.step(DocsEvent::Parsed(Some(items)))
            }
            other => {
                a = other;
                break;
            }
        };
    }
    assert_eq!(
        asked,
        vec![
            "https://hexdocs.pm/pkg/search_data.json",
            "https://hexdocs.pm/pkg/search-data.json",
            "https://hexdocs.pm/pkg/search_data.js",
        ]
    );
    match a {
        DocsAction::Found(items) => assert_eq!(items[0].title, "Found"),
        _ => panic!("expected the third candidate's entries"),
    }
}
