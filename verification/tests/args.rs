use hexplorer::args::{parse_from, ArgsError, Flag, StorageSubcmd};
use hexplorer::types::{Language, OutputFormat, Sort};

fn s(v: &[&str]) -> Vec<String> {
    v.iter().map(|s| s.to_string()).collect()
}

#[test]
fn defaults() {
    let args = parse_from(&[]).unwrap();
    assert_eq!(args.language, Language::Gleam);
    assert_eq!(args.sort, Sort::RecentDownloads);
    assert!(args.output.is_none());
}

#[test]
fn output_json() {
    let args = parse_from(&s(&["--output", "json"])).unwrap();
    assert_eq!(args.output, Some(OutputFormat::Json));
}

#[test]
fn output_compact_with_lang() {
    let args = parse_from(&s(&["--output", "compact", "--lang", "elixir"])).unwrap();
    assert_eq!(args.output, Some(OutputFormat::Compact));
    assert_eq!(args.language, Language::Elixir);
}

#[test]
fn output_detail_with_package() {
    let args = parse_from(&s(&["--output", "detail", "lustre"])).unwrap();
    assert_eq!(args.output, Some(OutputFormat::Detail));
    assert_eq!(args.package, Some("lustre".to_string()));
}

#[test]
fn output_detail_no_package() {
    let args = parse_from(&s(&["--output", "detail"])).unwrap();
    assert_eq!(args.output, Some(OutputFormat::Detail));
    assert_eq!(args.package, None);
}

#[test]
fn full_flags() {
    let args = parse_from(&s(&[
        "--output", "json", "--lang", "elixir", "--search", "http", "--sort", "name",
    ]))
    .unwrap();
    assert_eq!(args.output, Some(OutputFormat::Json));
    assert_eq!(args.language, Language::Elixir);
    assert_eq!(args.search, Some("http".to_string()));
    assert_eq!(args.sort, Sort::Name);
}

#[test]
fn storage_status() {
    let args = parse_from(&s(&["storage", "status"])).unwrap();
    assert!(matches!(args.storage_cmd, Some(StorageSubcmd::Status)));
}

#[test]
fn storage_prune_yes() {
    let args = parse_from(&s(&["storage", "prune", "--yes"])).unwrap();
    assert!(matches!(
        args.storage_cmd,
        Some(StorageSubcmd::Prune { yes: true })
    ));
}

#[test]
fn storage_config_with_value() {
    let args = parse_from(&s(&["storage", "config", "keep_weeks=4"])).unwrap();
    assert!(matches!(
        args.storage_cmd,
        Some(StorageSubcmd::Config(Some(ref v))) if v == "keep_weeks=4"
    ));
}

#[test]
fn unknown_flag_ignored() {
    let args = parse_from(&s(&["--future-flag", "value", "--lang", "gleam"])).unwrap();
    assert_eq!(args.language, Language::Gleam);
}

#[test]
fn invalid_lang_errors() {
    assert!(parse_from(&s(&["--lang", "cobol"])).is_err());
}

#[test]
fn invalid_output_errors() {
    assert!(parse_from(&s(&["--output", "xml"])).is_err());
}

// ── Further cases ────────────────────────────────────────────────────────────

#[test]
fn lang_flag_marks_explicit() {
    let args = parse_from(&s(&["--lang", "erlang"])).unwrap();
    assert!(args.lang_explicit);
    assert_eq!(args.language, Language::Erlang);
    let args = parse_from(&s(&[])).unwrap();
    assert!(!args.lang_explicit);
}

#[test]
fn missing_flag_value_errors() {
    match parse_from(&s(&["--output"])) {
        Err(ArgsError::MissingValue(f)) => assert_eq!(f, Flag::Output),
        _ => panic!("expected a missing value error"),
    }
    match parse_from(&s(&["--lang"])) {
        Err(ArgsError::MissingValue(f)) => assert_eq!(f, Flag::Lang),
        _ => panic!("expected a missing value error"),
    }
}

#[test]
fn unknown_storage_subcommand_errors() {
    assert!(matches!(
        parse_from(&s(&["storage", "explode"])),
        Err(ArgsError::UnknownStorageSubcommand(Some(_)))
    ));
    assert!(matches!(
        parse_from(&s(&["storage"])),
        Err(ArgsError::UnknownStorageSubcommand(None))
    ));
}

#[test]
fn storage_config_without_value() {
    let args = parse_from(&s(&["storage", "config"])).unwrap();
    assert!(matches!(args.storage_cmd, Some(StorageSubcmd::Config(None))));
}
