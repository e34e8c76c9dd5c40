use hexplorer::storage::effective_token;
use hexplorer::storage::{
    cutoff_today, is_expired, latest_snapshot, previous_snapshot, prune, prune_all,
    retention_cutoff, snapshot_date, snapshot_filename, snapshot_files, stale_files, status,
    LangStatus, Meta, StorageConfig, MIN_DAY,
};
use chrono::Datelike;
use hexplorer::types::{ColorScheme, Language, LinkStyle};

fn names(v: &[&str]) -> Vec<String> {
    v.iter().map(|s| s.to_string()).collect()
}

fn day(y: i32, m: u32, d: u32) -> i32 {
    chrono::NaiveDate::from_ymd_opt(y, m, d).unwrap().num_days_from_ce()
}

#[test]
fn prune_removes_old_files() {
    // A file dated 2024-10-01 is older than a twelve-week window ending today;
    // a file dated today is inside it.
    let cutoff = cutoff_today(12).unwrap();
    assert!(is_expired("gleam_20241001.json", cutoff));
    let today = chrono::Local::now().format("%Y%m%d").to_string();
    assert!(!is_expired(&format!("gleam_{today}.json"), cutoff));
}

#[test]
fn config_defaults() {
    let c = StorageConfig::default();
    assert_eq!(c.keep_weeks, 12);
    assert!(!c.compress);
    assert_eq!(c.color_scheme, ColorScheme::Default);
    assert_eq!(c.default_language, Language::Gleam);
    assert_eq!(c.link_style, LinkStyle::Cursor);
}

#[test]
fn meta_defaults() {
    let m = Meta::default();
    assert_eq!(m.schema_version, 1);
    assert_eq!(m.config.keep_weeks, 12);
    assert!(m.last_prune.is_none());
    assert_eq!(m.last_digest.len(), 4);
    assert_eq!(m.last_digest.get("elixir"), Some(&None));
}

#[test]
fn snapshot_names_and_dates() {
    assert_eq!(snapshot_filename(Language::Gleam, "20250101"), "gleam_20250101.json");
    assert_eq!(snapshot_date("gleam_20250101.json"), "20250101");
    assert_eq!(snapshot_date("all_20250101.json.gz"), "20250101.json");
    assert_eq!(snapshot_date("nounderscore.json"), "");
    assert_eq!(snapshot_date(".hidden"), "");
}

#[test]
fn snapshot_files_filter_and_sort() {
    let dir = names(&[
        "gleam_20250301.json",
        "elixir_20250101.json",
        "gleam_20250101.json",
        "gleam_notes.txt",
        "gleam_20250201.json",
    ]);
    let files = snapshot_files(&dir, Language::Gleam);
    assert_eq!(
        files,
        names(&["gleam_20250101.json", "gleam_20250201.json", "gleam_20250301.json"])
    );
    assert_eq!(latest_snapshot(&dir, Language::Gleam), Some("gleam_20250301.json".to_string()));
    assert_eq!(previous_snapshot(&dir, Language::Gleam), Some("gleam_20250201.json".to_string()));
    assert_eq!(previous_snapshot(&dir, Language::Elixir), None);
    assert_eq!(latest_snapshot(&dir, Language::Erlang), None);
}

#[test]
fn prune_by_window() {
    let dir = names(&["gleam_20250101.json", "gleam_20250301.json", "elixir_20240101.json"]);
    let today = day(2025, 3, 15);
    // Four weeks before 2025-03-15 is 2025-02-15.
    assert_eq!(prune(&dir, Language::Gleam, 4, today), names(&["gleam_20250101.json"]));
    assert!(prune(&dir, Language::Gleam, 0, today).is_empty());
    assert_eq!(
        prune_all(&dir, 4, today),
        names(&["gleam_20250101.json", "elixir_20240101.json"])
    );
    assert_eq!(
        stale_files(&dir, 4, today),
        names(&["elixir_20240101.json", "gleam_20250101.json"])
    );
}

#[test]
fn retention_cutoff_bounds() {
    assert_eq!(retention_cutoff(day(2025, 1, 8), 1), Some(day(2025, 1, 1) as i64));
    assert_eq!(retention_cutoff(MIN_DAY as i32, 1), None);
    assert_eq!(retention_cutoff(MIN_DAY as i32, 0), Some(MIN_DAY));
}

#[test]
fn status_counts_and_sums() {
    let entries: Vec<(String, u64)> = vec![
        ("gleam_20250101.json".to_string(), 100),
        ("gleam_20250201.json".to_string(), 50),
        ("erlang_20250101.json".to_string(), 7),
        ("README".to_string(), 1000),
    ];
    let gleam: LangStatus = hexplorer::storage::lang_status(&entries, Language::Gleam);
    assert_eq!(gleam.count, 2);
    assert_eq!(gleam.total_bytes, 150);
    assert_eq!(gleam.oldest, Some("20250101".to_string()));
    assert_eq!(gleam.newest, Some("20250201".to_string()));
    let meta = Meta::default();
    let s = status(&entries, 10, 3, &meta);
    assert_eq!(s.languages.len(), 4);
    assert_eq!(s.total_bytes, 10 + 150 + 7);
    assert_eq!(s.languages[3].count, 0);
    assert_eq!(s.gh_cache_entries, 3);
}

#[test]
fn min_day_is_chronos_earliest_date() {
    assert_eq!(chrono::NaiveDate::MIN.num_days_from_ce() as i64, MIN_DAY);
}

#[test]
fn windows_of_no_weeks_always_have_a_cutoff() {
    assert!(cutoff_today(0).is_some());
    assert_eq!(
        hexplorer::storage::stale_files_today(&names(&["gleam_20000101.json"]), 0),
        Some(vec![])
    );
}

#[test]
fn environment_token_wins_over_the_stored_one() {
    let s = |t: &str| Some(t.to_string());
    assert_eq!(effective_token(s("env"), s("stored")), s("env"));
    assert_eq!(effective_token(s(""), s("stored")), s("stored"));
    assert_eq!(effective_token(None, s("stored")), s("stored"));
    assert_eq!(effective_token(None, None), None);
}
