use hexplorer::api::GithubStats;
use hexplorer::cache::{docs_fresh, get_any, get_fresh_at, insert_at, CacheMap, CachedEntry, PRUNE_SECS, TTL_SECS};
use hexplorer::favorites::{apply_languages, toggle, Favorites};
use hexplorer::strmap::StrMap;
use hexplorer::types::Language;

#[test]
fn freshness_window() {
    let e = CachedEntry { stars: 1, forks: 2, issues: 3, cached_at: 1_000 };
    assert!(e.is_fresh_at(1_000));
    assert!(e.is_fresh_at(1_000 + TTL_SECS - 1));
    assert!(!e.is_fresh_at(1_000 + TTL_SECS));
    assert_eq!(e.age_label_at(1_030), "just now");
    assert_eq!(e.age_label_at(1_000 + 2 * 3600 + 5), "2h ago");
}

#[test]
fn read_after_write_and_pruning() {
    let mut m: CacheMap = StrMap::new();
    let stats = GithubStats { stars: 10, forks: 1, issues: 0 };
    insert_at(&mut m, "old".to_string(), &stats, 0);
    insert_at(&mut m, "new".to_string(), &stats, PRUNE_SECS + 5);
    assert!(get_any(&m, "old").is_none(), "entries older than the prune age are dropped");
    assert_eq!(get_fresh_at(&m, "new", PRUNE_SECS + 6).map(|e| e.stars), Some(10));
    assert!(get_fresh_at(&m, "new", PRUNE_SECS + 5 + TTL_SECS).is_none());
    assert!(get_any(&m, "new").is_some());
}

#[test]
fn favourites_toggle_and_relabel() {
    let mut f: Favorites = StrMap::new();
    assert!(toggle(&mut f, "wisp", Language::Gleam));
    assert!(f.contains_key("wisp"));
    assert!(!toggle(&mut f, "wisp", Language::Gleam));
    assert!(f.is_empty());
    toggle(&mut f, "cowboy", Language::Erlang);
    let p = hexplorer::api::Package {
        name: "cowboy".to_string(),
        version: String::new(),
        description: String::new(),
        updated_at: String::new(),
        inserted_at: String::new(),
        downloads_all: 0,
        downloads_recent: 0,
        repo_url: None,
        docs_url: None,
        hex_url: None,
        licenses: vec![],
        language: Language::All,
        build_tool: String::new(),
        versions: vec![],
    };
    let out = apply_languages(vec![p], &f);
    assert_eq!(out[0].language, Language::Erlang);
}

#[test]
fn docs_cache_freshness() {
    assert!(docs_fresh(1_000, 1_000 + 3_599, 1));
    assert!(!docs_fresh(1_000, 1_000 + 3_600, 1));
    assert!(!docs_fresh(1_000, 1_000, 0));
    // A write stamped after `now` counts as just written.
    assert!(docs_fresh(5_000, 1_000, 2));
    assert!(docs_fresh(0, 2 * 3_600 - 1, 2));
}
