use hexplorer::types::{infer_language, ColorScheme, Language, LinkStyle, OutputFormat, SettingRow, Sort};

#[test]
fn infer_gleam() {
    assert_eq!(infer_language(&["gleam".into()]), Language::Gleam);
}

#[test]
fn infer_elixir() {
    assert_eq!(infer_language(&["mix".into()]), Language::Elixir);
}

#[test]
fn infer_erlang_rebar3() {
    assert_eq!(infer_language(&["rebar3".into()]), Language::Erlang);
}

#[test]
fn infer_erlang_mk() {
    assert_eq!(infer_language(&["erlang.mk".into()]), Language::Erlang);
}

#[test]
fn infer_unknown() {
    assert_eq!(infer_language(&["cargo".into()]), Language::All);
}

#[test]
fn infer_empty() {
    assert_eq!(infer_language(&[]), Language::All);
}

#[test]
fn infer_gleam_beats_mix() {
    assert_eq!(
        infer_language(&["mix".into(), "gleam".into()]),
        Language::Gleam
    );
    assert_eq!(
        infer_language(&["gleam".into(), "mix".into()]),
        Language::Gleam
    );
}

#[test]
fn infer_gleam_beats_erlang() {
    assert_eq!(
        infer_language(&["rebar3".into(), "gleam".into()]),
        Language::Gleam
    );
}

#[test]
fn cycle_forward() {
    assert_eq!(Language::Gleam.cycle(), Language::Elixir);
    assert_eq!(Language::Elixir.cycle(), Language::Erlang);
    assert_eq!(Language::Erlang.cycle(), Language::All);
    assert_eq!(Language::All.cycle(), Language::Gleam);
}

#[test]
fn cycle_back_is_inverse() {
    for &lang in Language::all() {
        assert_eq!(lang.cycle().cycle_back(), lang);
    }
}

#[test]
fn language_display_roundtrip() {
    for &lang in Language::all() {
        assert_eq!(lang.name().to_string().parse::<Language>().unwrap(), lang);
    }
}

#[test]
fn language_from_str_case_insensitive() {
    assert_eq!("Gleam".parse::<Language>().unwrap(), Language::Gleam);
    assert_eq!("ELIXIR".parse::<Language>().unwrap(), Language::Elixir);
    assert!("unknown".parse::<Language>().is_err());
}

#[test]
fn sort_cycle_wraps() {
    assert_eq!(Sort::Name.cycle(), Sort::RecentDownloads);
}

// ── Further cases ────────────────────────────────────────────────────────────

#[test]
fn erlang_beats_elixir() {
    assert_eq!(infer_language(&["mix".into(), "rebar3".into()]), Language::Erlang);
    assert_eq!(infer_language(&["erlang".into()]), Language::Erlang);
}

#[test]
fn language_parse_error_message() {
    assert_eq!(
        "COBOL".parse::<Language>().unwrap_err(),
        "unknown language: 'cobol' (valid: gleam, elixir, erlang, all)"
    );
}

#[test]
fn sort_cycle_has_period_five() {
    for s in [Sort::RecentDownloads, Sort::Downloads, Sort::Name, Sort::Updated, Sort::Newest] {
        assert_eq!(s.cycle().cycle().cycle().cycle().cycle(), s);
    }
}

#[test]
fn sort_parse_aliases() {
    assert_eq!("recent".parse::<Sort>().unwrap(), Sort::RecentDownloads);
    assert_eq!("all".parse::<Sort>().unwrap(), Sort::Downloads);
    assert_eq!("newest".parse::<Sort>().unwrap(), Sort::Newest);
    assert!("random".parse::<Sort>().is_err());
}

#[test]
fn output_format_parse() {
    assert_eq!("json".parse::<OutputFormat>().unwrap(), OutputFormat::Json);
    assert!("xml".parse::<OutputFormat>().is_err());
}

#[test]
fn color_scheme_cycle_back_is_inverse() {
    let mut c = ColorScheme::default();
    for _ in 0..10 {
        assert_eq!(c.cycle().cycle_back(), c);
        c = c.cycle();
    }
}

#[test]
fn link_style_cycle_toggles() {
    assert_eq!(LinkStyle::Cursor.cycle(), LinkStyle::Block);
    assert_eq!(LinkStyle::Block.cycle_back(), LinkStyle::Cursor);
    assert_eq!(LinkStyle::default(), LinkStyle::Cursor);
}

#[test]
fn setting_rows_in_screen_order() {
    let rows = SettingRow::all();
    assert_eq!(rows.len(), 7);
    assert_eq!(rows[0], SettingRow::GithubToken);
    assert_eq!(rows[1], SettingRow::ColorScheme);
    assert_eq!(rows[2], SettingRow::DefaultLanguage);
    assert_eq!(rows[3], SettingRow::LinkStyle);
    assert_eq!(rows[6], SettingRow::ClearGhCache);
}

#[test]
fn language_labels_and_filters() {
    assert_eq!(Language::All.hex_filter(), None);
    assert_eq!(Language::Gleam.hex_filter(), Some("build_tool:gleam"));
    assert_eq!(Language::Gleam.name(), "gleam");
}
