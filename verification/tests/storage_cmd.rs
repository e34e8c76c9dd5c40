use hexplorer::types::Language;
use hexplorer::storage::{status, Meta, StorageConfig};
use hexplorer::storage_cmd::{
    apply_config_change, human_bytes, mask_token, parse_config_arg, prune_listing, status_report, ConfigChange,
    ConfigError,
};

#[test]
fn mask_token_short_and_long() {
    assert_eq!(mask_token("abc"), "***");
    assert_eq!(mask_token("12345678"), "***");
    assert_eq!(mask_token("ghp_abcdefgh1234"), "ghp_…1234");
}

#[test]
fn human_bytes_units() {
    assert_eq!(human_bytes(0), "0 B");
    assert_eq!(human_bytes(999), "999 B");
    assert_eq!(human_bytes(1_234), "1.2 KB");
    assert_eq!(human_bytes(1_500_000), "1.5 MB");
    assert_eq!(human_bytes(999_999), "1000.0 KB");
    assert_eq!(human_bytes(1_050), "1.1 KB");
    assert_eq!(human_bytes(1_150), "1.1 KB");
    assert_eq!(human_bytes(2_350_000), "2.4 MB");
}

#[test]
fn config_arg_keys() {
    assert!(matches!(parse_config_arg("keep_weeks=4"), Ok(ConfigChange::KeepWeeks(4))));
    assert!(matches!(parse_config_arg(" keep_weeks = +8 "), Ok(ConfigChange::KeepWeeks(8))));
    assert!(matches!(parse_config_arg("compress= yes"), Ok(ConfigChange::Compress(true))));
    assert!(matches!(parse_config_arg("compress=no"), Ok(ConfigChange::Compress(false))));
    assert!(matches!(parse_config_arg("github_token=  "), Ok(ConfigChange::GithubToken(None))));
    match parse_config_arg("github_token= tok ") {
        Ok(ConfigChange::GithubToken(Some(t))) => assert_eq!(t, "tok"),
        _ => panic!("expected a token"),
    }
}

#[test]
fn config_arg_errors() {
    match parse_config_arg("keep_weeks") {
        Err(e @ ConfigError::NotKeyValue(_)) => {
            assert_eq!(e.message(), "expected key=value, got 'keep_weeks'")
        }
        _ => panic!("expected NotKeyValue"),
    }
    match parse_config_arg("keep_weeks=many") {
        Err(e @ ConfigError::BadKeepWeeks) => assert_eq!(e.message(), "keep_weeks must be an integer"),
        _ => panic!("expected BadKeepWeeks"),
    }
    match parse_config_arg(" colour =red") {
        Err(e @ ConfigError::UnknownKey(_)) => assert_eq!(
            e.message(),
            "unknown config key: 'colour' (valid: keep_weeks, compress, github_token, default_language)"
        ),
        _ => panic!("expected UnknownKey"),
    }
}

#[test]
fn prune_listing_lines() {
    let files = vec![("gleam_20240101.json".to_string(), 2_048u64), ("x".to_string(), 10u64)];
    let lines = prune_listing(12, &files);
    assert_eq!(
        lines,
        vec![
            "\n  Files to remove (older than 12 weeks):".to_string(),
            "    gleam_20240101.json   2.0 KB".to_string(),
            "    x   10 B".to_string(),
            "\n  2 files · 2.1 KB freed\n".to_string(),
        ]
    );
}

#[test]
fn status_report_lines() {
    let entries: Vec<(String, u64)> = vec![("gleam_20250101.json".to_string(), 1_500)];
    let meta = Meta::default();
    let s = status(&entries, 0, 0, &meta);
    let lines = status_report(&s, "/tmp/cache");
    assert_eq!(lines[0], "\n  /tmp/cache/");
    assert_eq!(lines[1], "  ├── gh_stats.json       0 entries  ·    0 B  · last write: –");
    assert_eq!(lines[2], "  └── snapshots/          1 files   · 1.5 KB");
    assert_eq!(lines[3], "      ├── Gleam           1 files  · 1.5 KB  · oldest: 20250101");
    assert_eq!(lines[4], "      ├── Elixir          0 files  ·    0 B  · oldest: –");
    assert_eq!(lines[7], "");
    assert_eq!(lines[8], "  retention policy : 12 weeks");
    assert_eq!(lines[9], "  last prune       : never");
    assert_eq!(lines[10], "  total            : 1.5 KB");
    assert_eq!(lines[11], "");
    assert_eq!(lines.len(), 12);
}

#[test]
fn config_default_language() {
    assert!(matches!(
        parse_config_arg("default_language=elixir"),
        Ok(ConfigChange::DefaultLanguage(Language::Elixir))
    ));
    assert!(matches!(
        parse_config_arg(" default_language = ALL "),
        Ok(ConfigChange::DefaultLanguage(Language::All))
    ));
    match parse_config_arg("default_language=cobol") {
        Err(e @ ConfigError::BadDefaultLanguage(_)) => assert_eq!(
            e.message(),
            "unknown language: 'cobol' (valid: gleam, elixir, erlang, all)"
        ),
        _ => panic!("expected BadDefaultLanguage"),
    }
}

#[test]
fn a_config_change_sets_its_setting_only() {
    let base = StorageConfig::default();
    let c = apply_config_change(base, &parse_config_arg("default_language=elixir").ok().unwrap());
    assert_eq!(c.default_language, Language::Elixir);
    assert_eq!(c.keep_weeks, base.keep_weeks);
    assert_eq!(c.compress, base.compress);
    let c = apply_config_change(c, &parse_config_arg("keep_weeks=4").ok().unwrap());
    assert_eq!(c.keep_weeks, 4);
    assert_eq!(c.default_language, Language::Elixir);
    let c = apply_config_change(c, &parse_config_arg("compress=true").ok().unwrap());
    assert!(c.compress);
    let d = apply_config_change(c, &parse_config_arg("github_token=abc").ok().unwrap());
    assert_eq!(d, c);
}
