use hexplorer::api::{GithubStats, Package};
use hexplorer::export_types::{PackageExport, PackageGithubInput, Snapshot, SCHEMA_VERSION};
use hexplorer::output::{compact_lines, detail_lines};
use hexplorer::types::Language;

fn pkg() -> Package {
    Package {
        name: "lustre".to_string(),
        version: "4.2.0".to_string(),
        description: "Web apps".to_string(),
        updated_at: "2025-03-21T09:00:00Z".to_string(),
        inserted_at: "2023-01-05T10:00:00Z".to_string(),
        downloads_all: 4_521_003,
        downloads_recent: 12_345,
        repo_url: Some("https://github.com/lustre-labs/lustre".to_string()),
        docs_url: Some("https://hexdocs.pm/lustre".to_string()),
        hex_url: Some("https://hex.pm/packages/lustre".to_string()),
        licenses: vec!["MIT".to_string(), "Apache-2.0".to_string()],
        language: Language::Gleam,
        build_tool: "gleam".to_string(),
        versions: vec![],
    }
}

#[test]
fn export_carries_the_package() {
    let e = PackageExport::from_package_at(&pkg(), None, "2025-03-22T00:00:00+00:00".to_string());
    assert_eq!(e.schema_version, SCHEMA_VERSION);
    assert_eq!(e.id, "lustre");
    assert_eq!(e.language, "gleam");
    assert_eq!(e.release.latest, "4.2.0");
    assert_eq!(e.release.latest_stable.as_deref(), Some("4.2.0"));
    assert_eq!(e.release.published_at, "2023-01-05T10:00:00Z");
    assert_eq!(e.downloads.all_time, 4_521_003);
    assert_eq!(e.links.hex, "https://hex.pm/packages/lustre");
    assert!(e.github.is_none());
    assert_eq!(e.meta.fetched_at, "2025-03-22T00:00:00+00:00");
    assert_eq!(e.meta.data_source, "hex.pm/api/v1");
    let mut unknown = pkg();
    unknown.language = Language::All;
    unknown.hex_url = None;
    let u = PackageExport::from_package(&unknown, None);
    assert_eq!(u.language, "unknown");
    assert_eq!(u.links.hex, "");
}

#[test]
fn export_with_github() {
    let g = PackageGithubInput {
        stats: GithubStats { stars: 1_234, forks: 56, issues: 7 },
        fetched_at: "now".to_string(),
        source: "live".to_string(),
    };
    let e = PackageExport::from_package(&pkg(), Some(g));
    let gh = e.github.unwrap();
    assert_eq!(gh.url, "https://github.com/lustre-labs/lustre");
    assert_eq!(gh.stars, 1_234);
    assert_eq!(gh.open_issues, 7);
    assert_eq!(gh.source, "live");
}

#[test]
fn snapshot_build() {
    let s = Snapshot::build(&[pkg(), pkg()], "gleam", "", "recent_downloads");
    assert_eq!(s.schema_version, 1);
    assert_eq!(s.query.page, 1);
    assert_eq!(s.meta.total_results, 2);
    assert_eq!(s.meta.app_version, "0.1.3");
    assert_eq!(s.packages.len(), 2);
    assert!(s.meta.fetched_at.len() >= 10);
}

#[test]
fn compact_table() {
    let mut s = Snapshot::build(&[pkg()], "gleam", "", "recent_downloads");
    s.meta.fetched_at = "2025-03-22T08:00:00+00:00".to_string();
    let lines = compact_lines(&s);
    assert_eq!(lines.len(), 4);
    assert_eq!(lines[0], "## gleam packages — (all) (sort: recent_downloads) — 2025-03-22\n");
    assert_eq!(
        lines[1],
        "| package              | version |  lang | dl_recent | dl_total | stars | updated    |"
    );
    assert_eq!(
        lines[2],
        "|----------------------|---------|-------|-----------|----------|-------|------------|"
    );
    assert_eq!(
        lines[3],
        "| lustre               |   4.2.0 | gleam |    12_345 |     4.5M |     - | 2025-03-21 |"
    );
}

#[test]
fn detail_block() {
    let g = PackageGithubInput {
        stats: GithubStats { stars: 1_234, forks: 56, issues: 7 },
        fetched_at: "now".to_string(),
        source: "live".to_string(),
    };
    let e = PackageExport::from_package(&pkg(), Some(g));
    let lines = detail_lines(&e);
    assert_eq!(
        lines,
        vec![
            "### lustre — v4.2.0\n".to_string(),
            "**Description:** Web apps\n".to_string(),
            "- **Language:** gleam".to_string(),
            "- **Downloads:** 4_521_003 total · 12_345 recent (90d)".to_string(),
            "- **GitHub:** ★ 1_234 · ⑂ 56 · ⊙ 7 open issues".to_string(),
            "- **Updated:** 2025-03-21 · Published: 2023-01-05".to_string(),
            "- **License:** MIT, Apache-2.0".to_string(),
            "- **Docs:** https://hexdocs.pm/lustre".to_string(),
            "- **Repo:** https://github.com/lustre-labs/lustre".to_string(),
        ]
    );
}
