use hexplorer::api::{GithubStats, Package};
use hexplorer::app::{App, GhState, Msg};
use hexplorer::screen::{
    detail_lines, footer_line, header_count_of, list_item_lines, list_notice_of, list_title_of,
    preview_lines, settings_lines, tab_bar_lines, Line,
};
use hexplorer::storage::StorageConfig;
use hexplorer::strmap::StrMap;
use hexplorer::types::{Color, Language, View};

fn pkg(name: &str) -> Package {
    Package {
        name: name.to_string(),
        version: "1.2.0".to_string(),
        description: "A web framework".to_string(),
        updated_at: "2025-01-02T10:00:00Z".to_string(),
        inserted_at: "2024-01-02T10:00:00Z".to_string(),
        downloads_all: 1_234_567,
        downloads_recent: 4_321,
        repo_url: Some(format!("https://github.com/o/{name}")),
        docs_url: Some(format!("https://hexdocs.pm/{name}")),
        hex_url: Some(format!("https://hex.pm/packages/{name}")),
        licenses: vec!["MIT".to_string(), "Apache-2.0".to_string()],
        language: Language::Gleam,
        build_tool: "gleam".to_string(),
        versions: vec![],
    }
}

fn loaded_app() -> App {
    let mut app = App::new(Language::Gleam, StrMap::new(), None, StrMap::new(), StorageConfig::default());
    app.load();
    app.take_effects();
    app.on_msg(Msg::Loaded(1, vec![pkg("lustre"), pkg("wisp")], false), 0);
    app
}

fn text(l: &Line) -> String {
    l.spans.iter().map(|s| s.text.as_str()).collect()
}

fn texts(v: &[Line]) -> Vec<String> {
    v.iter().map(text).collect()
}

#[test]
fn detail_view_text() {
    let mut app = loaded_app();
    app.gh = GhState::Live(GithubStats { stars: 1200, forks: 30, issues: 4 });
    let t = texts(&detail_lines(&app, 20, 0));
    assert_eq!(t[0], "lustre  v1.2.0   [Gleam]");
    assert_eq!(t[1], "═".repeat(20));
    assert!(t.contains(&"  all-time   1_234_567".to_string()));
    assert!(t.contains(&"  ★ stars    1200".to_string()));
    assert!(t.contains(&"  (live)".to_string()));
    assert!(t.contains(&"  license    MIT, Apache-2.0".to_string()));
    assert!(t.contains(&"  updated    2025-01-02".to_string()));
    assert!(t.contains(&"  build tool gleam".to_string()));
}

#[test]
fn detail_view_marks_the_selected_link() {
    let mut app = loaded_app();
    app.link_cursor = Some(1);
    let t = texts(&detail_lines(&app, 80, 0));
    assert!(t.contains(&"  📖 docs     https://hexdocs.pm/lustre".to_string()));
    assert!(t.contains(&"▶ ◈  hex.pm   https://hex.pm/packages/lustre".to_string()));
}

#[test]
fn detail_view_github_states() {
    let mut app = loaded_app();
    app.gh = GhState::BadToken;
    let l = detail_lines(&app, 80, 0);
    let i = l.iter().position(|x| text(x) == "  token invalid or expired (HTTP 401)").unwrap();
    assert_eq!(l[i].spans[0].look.fg, Some(Color::Red));
    app.gh = GhState::NoRepo;
    assert!(texts(&detail_lines(&app, 80, 0)).contains(&"  no repository".to_string()));
}

#[test]
fn detail_view_is_empty_without_a_selection() {
    let app = App::new(Language::Gleam, StrMap::new(), None, StrMap::new(), StorageConfig::default());
    assert!(detail_lines(&app, 80, 0).is_empty());
}

#[test]
fn preview_cuts_long_links() {
    let app = loaded_app();
    let t = texts(&preview_lines(&app, 20, 0));
    assert_eq!(t[0], "lustre  v1.2.0");
    assert_eq!(t[1], "─".repeat(20));
    assert!(t.contains(&"📖 https://hexdocs…".to_string()));
    assert!(t.contains(&"  ↵ Enter for full detail".to_string()));
}

#[test]
fn settings_view_marks_the_cursor_row() {
    let mut app = loaded_app();
    app.open_settings(StorageConfig::default(), Some("ghp_abcdefghijkl".to_string()));
    let t = texts(&settings_lines(&app));
    assert_eq!(t[3], "▶  token    ghp_…ijkl  enter to edit · d to clear");
    assert_eq!(t[8], "   color_scheme      Default  ← →");
    assert_eq!(t[9], "   default_language  Gleam  ← →");
    assert_eq!(t[14], "   keep_weeks  12 weeks  ← →");
    assert_eq!(t[16], "   gh cache    0 entries  enter to clear");
}

#[test]
fn list_rows_and_title() {
    let app = loaded_app();
    assert_eq!(list_title_of(&app), " packages (Gleam) ");
    assert!(list_notice_of(&app).is_none());
    let t = texts(&list_item_lines(&app));
    assert_eq!(t, vec!["  lustre  v1.2.0  4K⬇".to_string(), "  wisp  v1.2.0  4K⬇".to_string()]);
    assert_eq!(header_count_of(&app), " 2 pkgs ");
}

#[test]
fn list_notice_while_loading() {
    let mut app = App::new(Language::Gleam, StrMap::new(), None, StrMap::new(), StorageConfig::default());
    app.load();
    let n = list_notice_of(&app).unwrap();
    assert_eq!(texts(&n), vec!["".to_string(), "  ⟳  fetching from hex.pm…".to_string()]);
    assert_eq!(header_count_of(&app), " fetching… ");
}

#[test]
fn tab_bar_highlights_the_language() {
    let app = loaded_app();
    let t = texts(&tab_bar_lines(&app));
    assert_eq!(t[0], " [■ Gleam]  Elixir  Erlang  All BEAM  ");
}

#[test]
fn footer_hints_follow_the_view() {
    let mut app = loaded_app();
    let f = text(&footer_line(&app));
    assert!(f.starts_with(" / search  ↑↓ j k nav  "));
    assert!(!f.contains("[ ]"));
    assert!(!f.contains(" favorites  "));
    app.view = View::Detail;
    assert_eq!(text(&footer_line(&app)), " esc / q back  ↑↓ j k scroll  PgUp/Dn fast");
}
