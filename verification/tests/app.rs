use hexplorer::api::{GhResult, GithubStats, Package};
use hexplorer::app::{App, Effect, GhState, KeyCode, KeyEvent, Msg};
use hexplorer::app::delete_word_back;
use hexplorer::storage::StorageConfig;
use hexplorer::strmap::StrMap;
use hexplorer::types::{Language, Sort, View};

fn pkg(name: &str) -> Package {
    Package {
        name: name.to_string(),
        version: "1.0.0".to_string(),
        description: String::new(),
        updated_at: "2025-01-02T00:00:00Z".to_string(),
        inserted_at: "2024-01-02T00:00:00Z".to_string(),
        downloads_all: 10,
        downloads_recent: 5,
        repo_url: Some(format!("https://github.com/o/{name}")),
        docs_url: Some(format!("https://hexdocs.pm/{name}")),
        hex_url: None,
        licenses: vec![],
        language: Language::Gleam,
        build_tool: "gleam".to_string(),
        versions: vec![],
    }
}

fn key(code: KeyCode) -> KeyEvent {
    KeyEvent { code, ctrl: false }
}

fn new_app() -> App {
    App::new(Language::Gleam, StrMap::new(), None, StrMap::new(), StorageConfig::default())
}

#[test]
fn load_queues_a_fetch_under_a_new_generation() {
    let mut app = new_app();
    app.load();
    assert!(app.loading);
    let effects = app.take_effects();
    assert_eq!(effects.len(), 1);
    match &effects[0] {
        Effect::FetchListing { gen, query, sort, language, page } => {
            assert_eq!(*gen, 1);
            assert_eq!(query, "");
            assert_eq!(sort, "recent_downloads");
            assert_eq!(*language, Language::Gleam);
            assert_eq!(*page, 1);
        }
        _ => panic!("expected a listing fetch"),
    }
    assert!(app.effects.is_empty());
}

#[test]
fn stale_listing_is_dropped() {
    let mut app = new_app();
    app.load();
    app.load();
    app.on_msg(Msg::Loaded(1, vec![pkg("old")], true), 0);
    assert!(app.packages.is_empty());
    assert!(app.loading);
    app.on_msg(Msg::Loaded(2, vec![pkg("new")], true), 0);
    assert_eq!(app.packages.len(), 1);
    assert_eq!(app.packages[0].name, "new");
    assert_eq!(app.selected, Some(0));
    assert!(!app.loading);
    assert!(app.has_more);
}

#[test]
fn listing_comes_back_from_the_session_cache() {
    let mut app = new_app();
    app.load();
    app.on_msg(Msg::Loaded(1, vec![pkg("lustre")], false), 0);
    app.take_effects();
    // Elixir, then back to Gleam: the Gleam listing is served without a fetch.
    assert!(!app.on_key(key(KeyCode::Char('l')), 0));
    assert_eq!(app.language, Language::Elixir);
    assert!(!app.on_key(key(KeyCode::Char('L')), 0));
    assert_eq!(app.language, Language::Gleam);
    assert!(app.from_cache);
    assert_eq!(app.packages[0].name, "lustre");
    let effects = app.take_effects();
    assert_eq!(effects.len(), 1, "only the Elixir listing was fetched");
}

#[test]
fn list_keys() {
    let mut app = new_app();
    assert!(app.on_key(key(KeyCode::Char('q')), 0));
    assert!(app.on_key(KeyEvent { code: KeyCode::Char('c'), ctrl: true }, 0));
    assert!(!app.on_key(key(KeyCode::Tab), 0));
    assert_eq!(app.sort, Sort::Downloads);
    assert!(!app.on_key(key(KeyCode::Char('/')), 0));
    assert!(app.input_mode);
}

#[test]
fn navigation_stays_in_the_list() {
    let mut app = new_app();
    app.load();
    app.on_msg(Msg::Loaded(1, vec![pkg("a"), pkg("b"), pkg("c")], false), 0);
    app.on_key(key(KeyCode::PageDown), 0);
    assert_eq!(app.selected, Some(2));
    app.on_key(key(KeyCode::Up), 0);
    assert_eq!(app.selected, Some(1));
    app.on_key(key(KeyCode::PageUp), 0);
    assert_eq!(app.selected, Some(0));
}

#[test]
fn typing_a_search() {
    let mut app = new_app();
    app.on_key(key(KeyCode::Char('/')), 0);
    for c in "http client".chars() {
        app.on_key(key(KeyCode::Char(c)), 0);
    }
    assert_eq!(app.input, "http client");
    app.on_key(KeyEvent { code: KeyCode::Char('w'), ctrl: true }, 0);
    assert_eq!(app.input, "http ");
    app.on_key(key(KeyCode::Backspace), 0);
    assert_eq!(app.input, "http");
    app.take_effects();
    app.on_key(key(KeyCode::Enter), 0);
    assert!(!app.input_mode);
    match &app.take_effects()[0] {
        Effect::FetchListing { query, .. } => assert_eq!(query, "http"),
        _ => panic!("expected a listing fetch"),
    }
}

#[test]
fn search_input_is_capped() {
    let mut app = new_app();
    app.on_key(key(KeyCode::Char('/')), 0);
    for _ in 0..250 {
        app.on_key(key(KeyCode::Char('x')), 0);
    }
    assert_eq!(app.input.len(), 200);
}

#[test]
fn delete_word_back_removes_last_word() {
    let mut s = "hello world  ".to_string();
    delete_word_back(&mut s);
    assert_eq!(s, "hello ");
    let mut e = String::new();
    delete_word_back(&mut e);
    assert_eq!(e, "");
}

#[test]
fn detail_links_cycle() {
    let mut app = new_app();
    app.load();
    app.on_msg(Msg::Loaded(1, vec![pkg("a")], false), 0);
    app.on_key(key(KeyCode::Enter), 0);
    assert_eq!(app.view, View::Detail);
    assert_eq!(app.gh, GhState::Loading);
    assert!(app.detail_loading);
    app.on_key(key(KeyCode::Tab), 0);
    assert_eq!(app.link_cursor, Some(0));
    app.on_key(key(KeyCode::Tab), 0);
    assert_eq!(app.link_cursor, Some(1));
    app.on_key(key(KeyCode::Tab), 0);
    assert_eq!(app.link_cursor, Some(0));
    app.on_key(key(KeyCode::BackTab), 0);
    assert_eq!(app.link_cursor, Some(1));
    app.take_effects();
    app.on_key(key(KeyCode::Enter), 0);
    match &app.take_effects()[0] {
        Effect::OpenUrl(u) => assert_eq!(u, "https://github.com/o/a"),
        _ => panic!("expected a URL to open"),
    }
    app.on_key(key(KeyCode::Esc), 0);
    assert_eq!(app.view, View::List);
    assert_eq!(app.link_cursor, None);
}

#[test]
fn github_stats_are_cached_and_shown() {
    let mut app = new_app();
    app.load();
    app.on_msg(Msg::Loaded(1, vec![pkg("a")], false), 0);
    let stats = GithubStats { stars: 3, forks: 2, issues: 1 };
    app.on_msg(Msg::GhFetched("https://github.com/o/a".to_string(), GhResult::Fetched(stats)), 1_000);
    assert_eq!(app.gh, GhState::Live(stats));
    assert_eq!(app.preview_gh().map(|e| e.stars), Some(3));
    // The new entry is written to the cache file.
    assert!(app.take_effects().iter().any(|e| matches!(e, Effect::SaveGhCache)));
    // Opening the detail view within the freshness window serves the cache.
    app.on_key(key(KeyCode::Enter), 1_060);
    assert!(matches!(app.gh, GhState::Cached(_)));
    assert!(app.take_effects().iter().all(|e| !matches!(e, Effect::FetchGithub { .. })));
    app.on_msg(Msg::GhFetched("x".to_string(), GhResult::RateLimited), 1_070);
    assert_eq!(app.gh, GhState::RateLimited);
}

#[test]
fn detail_versions_arrive() {
    let mut app = new_app();
    app.load();
    app.on_msg(Msg::Loaded(1, vec![pkg("a"), pkg("b")], false), 0);
    app.on_msg(Msg::DetailLoaded("b".to_string(), vec!["2.0.0".to_string(), "1.0.0".to_string()]), 0);
    assert_eq!(app.packages[1].versions, vec!["2.0.0".to_string(), "1.0.0".to_string()]);
    assert!(app.packages[0].versions.is_empty());
    app.on_msg(Msg::Failed("offline".to_string()), 0);
    assert_eq!(app.error, Some("offline".to_string()));
}

#[test]
fn settings_cursor_and_presets() {
    let mut app = new_app();
    app.open_settings(StorageConfig::default(), Some("ghp_secret".to_string()));
    assert_eq!(app.view, View::Settings);
    for _ in 0..10 {
        app.on_key(key(KeyCode::Down), 0);
    }
    assert_eq!(app.settings_cursor, 6);
    app.on_key(key(KeyCode::Up), 0);
    app.on_key(key(KeyCode::Up), 0);
    assert_eq!(app.settings_cursor, 4); // KeepWeeks
    app.on_key(key(KeyCode::Right), 0);
    assert_eq!(app.settings_config.keep_weeks, 24);
    app.on_key(key(KeyCode::Left), 0);
    app.on_key(key(KeyCode::Left), 0);
    assert_eq!(app.settings_config.keep_weeks, 8);
    let effects = app.take_effects();
    assert_eq!(effects.len(), 3);
    assert!(matches!(effects[2], Effect::PersistConfig(c) if c.keep_weeks == 8));
    app.on_key(key(KeyCode::Up), 0); // LinkStyle
    app.on_key(key(KeyCode::Right), 0);
    assert_eq!(app.link_style, hexplorer::types::LinkStyle::Block);
    app.on_key(key(KeyCode::Esc), 0);
    assert_eq!(app.view, View::List);
}

#[test]
fn settings_token_editing() {
    let mut app = new_app();
    app.open_settings(StorageConfig::default(), Some("old".to_string()));
    app.on_key(key(KeyCode::Enter), 0);
    assert!(app.settings_editing);
    assert_eq!(app.settings_input, "old");
    app.on_key(KeyEvent { code: KeyCode::Backspace, ctrl: true }, 0);
    for c in " new ".chars() {
        app.on_key(key(KeyCode::Char(c)), 0);
    }
    app.on_key(key(KeyCode::Enter), 0);
    assert!(!app.settings_editing);
    match &app.take_effects()[0] {
        Effect::StoreToken { token, reload } => {
            assert_eq!(token.as_deref(), Some("new"));
            assert!(*reload);
        }
        _ => panic!("expected the token to be stored"),
    }
    app.token_reloaded(Some("new".to_string()), Some("new".to_string()));
    assert_eq!(app.token.as_deref(), Some("new"));
    app.on_key(key(KeyCode::Char('d')), 0);
    assert_eq!(app.token, None);
    assert_eq!(app.settings_token, None);
}

#[test]
fn favourites_view() {
    let mut app = new_app();
    app.on_key(key(KeyCode::Char('f')), 0);
    assert!(!app.favorites_mode, "nothing starred yet");
    app.load();
    app.on_msg(Msg::Loaded(1, vec![pkg("a"), pkg("b")], false), 0);
    app.on_key(key(KeyCode::Char('s')), 0);
    assert!(app.favorites.contains_key("a"));
    app.take_effects();
    app.on_key(key(KeyCode::Char('f')), 0);
    assert!(app.favorites_mode);
    let effects = app.take_effects();
    let gen = match &effects[0] {
        Effect::FetchFavorites { gen, favorites } => {
            assert_eq!(favorites.len(), 1);
            *gen
        }
        _ => panic!("expected the favourites to be fetched"),
    };
    app.on_msg(Msg::Loaded(gen, vec![pkg("a")], false), 0);
    app.on_key(key(KeyCode::Char('s')), 0);
    // Unstarring the last favourite leaves the favourites view.
    assert!(!app.favorites_mode);
    assert!(app.favorites.is_empty());
}

#[test]
fn paging() {
    let mut app = new_app();
    app.load();
    app.on_msg(Msg::Loaded(1, vec![pkg("a")], true), 0);
    app.on_key(key(KeyCode::Char(']')), 0);
    assert_eq!(app.page, 2);
    app.on_key(key(KeyCode::Char('[')), 0);
    assert_eq!(app.page, 1);
    app.on_key(key(KeyCode::Char('[')), 0);
    assert_eq!(app.page, 1);
}

#[test]
fn settings_cycle_the_default_language() {
    let mut app = new_app();
    app.open_settings(StorageConfig::default(), None);
    app.on_key(key(KeyCode::Down), 0);
    app.on_key(key(KeyCode::Down), 0); // DefaultLanguage
    app.on_key(key(KeyCode::Right), 0);
    assert_eq!(app.settings_config.default_language, Language::Elixir);
    app.on_key(key(KeyCode::Left), 0);
    app.on_key(key(KeyCode::Left), 0);
    assert_eq!(app.settings_config.default_language, Language::All);
    let effects = app.take_effects();
    assert_eq!(effects.len(), 3);
    assert!(matches!(effects[2], Effect::PersistConfig(c) if c.default_language == Language::All));
    // The browser's own language is left alone.
    assert_eq!(app.language, Language::Gleam);
}
