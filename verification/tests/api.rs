use hexplorer::api::{
    add_fallback, concat_pages, dedup_packages, filter_packages, find_repo, finish_language, finish_page, github_api_url, github_outcome, github_repo, github_status_result,
    into_package, sort_packages, GhResult, GithubStats, HexRaw, Package, RawDownloads, RawMeta,
};
use hexplorer::types::Language;

fn pkg(name: &str, recent: u64, updated: &str) -> Package {
    Package {
        name: name.to_string(),
        version: "1.0.0".to_string(),
        description: format!("the {name} package"),
        updated_at: updated.to_string(),
        inserted_at: String::new(),
        downloads_all: recent * 2,
        downloads_recent: recent,
        repo_url: None,
        docs_url: None,
        hex_url: None,
        licenses: vec![],
        language: Language::Gleam,
        build_tool: String::new(),
        versions: vec![],
    }
}

fn names(v: &[Package]) -> Vec<&str> {
    v.iter().map(|p| p.name.as_str()).collect()
}

#[test]
fn sorting_is_stable_and_by_key() {
    let v = vec![pkg("b", 5, "2024"), pkg("a", 9, "2025"), pkg("c", 5, "2023")];
    let by_recent = sort_packages(v, "recent_downloads");
    assert_eq!(names(&by_recent), vec!["a", "b", "c"]);
    let by_name = sort_packages(by_recent, "name");
    assert_eq!(names(&by_name), vec!["a", "b", "c"]);
    let by_updated = sort_packages(by_name, "updated_at");
    assert_eq!(names(&by_updated), vec!["a", "b", "c"]);
    let unknown = sort_packages(vec![pkg("z", 1, ""), pkg("y", 2, "")], "random");
    assert_eq!(names(&unknown), vec!["z", "y"]);
}

#[test]
fn dedup_keeps_first_occurrence() {
    let v = vec![pkg("a", 1, "x"), pkg("b", 2, ""), pkg("a", 3, "y")];
    let d = dedup_packages(v);
    assert_eq!(names(&d), vec!["a", "b"]);
    assert_eq!(d[0].updated_at, "x");
    let again = dedup_packages(d);
    assert_eq!(names(&again), vec!["a", "b"]);
}

#[test]
fn filter_by_lowercased_query() {
    let v = vec![pkg("Lustre", 1, ""), pkg("wisp", 1, "")];
    let f = filter_packages(v, "lus");
    assert_eq!(names(&f), vec!["Lustre"]);
}

#[test]
fn repository_discovery() {
    let links = vec![
        ("Docs".to_string(), "https://hexdocs.pm/x".to_string()),
        ("GitHub".to_string(), "https://github.com/o/x".to_string()),
    ];
    assert_eq!(find_repo(Some(&links), None), Some("https://github.com/o/x".to_string()));
    let other = vec![("Home".to_string(), "https://gitlab.com/o/y".to_string())];
    assert_eq!(find_repo(None, Some(&other)), Some("https://gitlab.com/o/y".to_string()));
    assert_eq!(find_repo(None, None), None);
}

#[test]
fn github_urls() {
    assert_eq!(
        github_repo("https://github.com/gleam-lang/stdlib"),
        Some(("gleam-lang".to_string(), "stdlib".to_string()))
    );
    assert_eq!(github_repo("https://gitlab.com/a/b"), None);
    assert_eq!(github_api_url("o", "r"), "https://api.github.com/repos/o/r");
}

#[test]
fn github_status_codes() {
    assert_eq!(github_status_result(401), Some(GhResult::BadToken));
    assert_eq!(github_status_result(403), Some(GhResult::RateLimited));
    assert_eq!(github_status_result(429), Some(GhResult::RateLimited));
    assert_eq!(github_status_result(404), Some(GhResult::Unavailable));
    assert_eq!(github_status_result(200), None);
}

#[test]
fn raw_record_to_package() {
    let raw = HexRaw {
        name: "lustre".to_string(),
        latest_version: Some("4.0.0".to_string()),
        latest_stable_version: Some("3.9.0".to_string()),
        updated_at: Some("2025-01-01T00:00:00Z".to_string()),
        inserted_at: None,
        downloads: Some(RawDownloads { all: Some(100), recent: None }),
        meta: Some(RawMeta {
            description: Some("web apps".to_string()),
            licenses: Some(vec!["MIT".to_string()]),
            links: None,
            build_tools: Some(vec!["gleam".to_string()]),
        }),
        links: None,
        docs_html_url: None,
        html_url: Some("https://hex.pm/packages/lustre".to_string()),
        releases: None,
    };
    let p = into_package(raw);
    assert_eq!(p.name, "lustre");
    assert_eq!(p.version, "3.9.0");
    assert_eq!(p.downloads_all, 100);
    assert_eq!(p.downloads_recent, 0);
    assert_eq!(p.language, Language::Gleam);
    assert_eq!(p.build_tool, "gleam");
    assert_eq!(p.licenses, vec!["MIT".to_string()]);
    assert_eq!(p.hex_url.as_deref(), Some("https://hex.pm/packages/lustre"));
}

#[test]
fn a_full_page_announces_a_next_one() {
    let full: Vec<Package> = (0..100).map(|i| pkg(&format!("p{i}"), 1, "")).collect();
    let (pkgs, more) = finish_page(full, Language::Elixir, "");
    assert!(more);
    assert_eq!(pkgs.len(), 100);
    assert!(pkgs.iter().all(|p| p.language == Language::Elixir));
    let (pkgs, more) = finish_page(vec![pkg("a", 1, ""), pkg("a", 2, "")], Language::Gleam, "");
    assert!(!more);
    assert_eq!(names(&pkgs), vec!["a"]);
}

#[test]
fn an_empty_search_falls_back_to_the_exact_package() {
    let mut exact = pkg("plug", 3, "");
    exact.language = Language::Elixir;
    let (r, more) = add_fallback(vec![], Language::Elixir, "  plug ", Some(exact.clone()));
    assert_eq!(names(&r), vec!["plug"]);
    assert!(!more);
    let (r, _) = add_fallback(vec![], Language::Gleam, "plug", Some(exact.clone()));
    assert!(r.is_empty());
    let (r, _) = add_fallback(vec![], Language::Elixir, "   ", Some(exact.clone()));
    assert!(r.is_empty());
    let (r, _) = add_fallback(vec![pkg("a", 1, "")], Language::Gleam, "a", Some(pkg("b", 1, "")));
    assert_eq!(names(&r), vec!["a"]);
    let (r, _) = add_fallback(vec![], Language::Elixir, "plug", None);
    assert!(r.is_empty());
}

#[test]
fn a_language_search_relabels_dedups_and_filters_the_pages() {
    let pages = vec![
        Some(vec![pkg("lustre", 1, ""), pkg("gleam_json", 2, "")]),
        None,
        Some(vec![pkg("lustre", 5, ""), pkg("wisp", 3, "")]),
    ];
    let all = concat_pages(pages);
    let r = finish_language(all, Language::Erlang, "");
    assert_eq!(names(&r), vec!["lustre", "gleam_json", "wisp"]);
    assert!(r.iter().all(|p| p.language == Language::Erlang));
    assert_eq!(r[0].downloads_recent, 1);
}

#[test]
fn github_outcome_from_status_and_body() {
    let s = GithubStats { stars: 10, forks: 2, issues: 1 };
    assert_eq!(github_outcome(200, Some(s)), Some(GhResult::Fetched(s)));
    assert_eq!(github_outcome(200, None), None);
    assert_eq!(github_outcome(401, Some(s)), Some(GhResult::BadToken));
    assert_eq!(github_outcome(403, None), Some(GhResult::RateLimited));
    assert_eq!(github_outcome(429, Some(s)), Some(GhResult::RateLimited));
    assert_eq!(github_outcome(404, Some(s)), Some(GhResult::Unavailable));
    assert_eq!(github_outcome(304, Some(s)), Some(GhResult::Fetched(s)));
}
