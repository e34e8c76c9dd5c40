//! The export schema: packages and snapshots as the JSON and Markdown outputs and
//! the snapshot files carry them (schema version 1).

use vstd::prelude::*;
use crate::api::{clone_opt_string, clone_strings, view_or_empty, GithubStats, Package};
use crate::text::opt_view;
use crate::types::{views, Language};

verus! {

pub const SCHEMA_VERSION: u8 = 1;

/// One package in the export schema.
pub struct PackageExport {
    pub schema_version: u8,
    pub id: String,
    /// `gleam`, `elixir`, `erlang` or `unknown`.
    pub language: String,
    pub build_tool: String,
    pub release: PackageRelease,
    pub description: String,
    pub downloads: PackageDownloads,
    pub github: Option<PackageGithub>,
    pub links: PackageLinks,
    pub licenses: Vec<String>,
    pub meta: PackageMeta,
}

pub struct PackageRelease {
    pub latest: String,
    pub latest_stable: Option<String>,
    pub published_at: String,
    pub updated_at: String,
}

pub struct PackageDownloads {
    pub all_time: u64,
    pub recent_90d: u64,
}

pub struct PackageGithub {
    pub url: String,
    pub stars: u32,
    pub forks: u32,
    pub open_issues: u32,
    pub fetched_at: String,
    /// `live`, `cached` or `unavailable`.
    pub source: String,
}

pub struct PackageLinks {
    pub hex: String,
    pub docs: Option<String>,
    pub repository: Option<String>,
}

pub struct PackageMeta {
    pub fetched_at: String,
    pub data_source: String,
}

/// GitHub statistics to attach to an export, with when and how they were obtained.
pub struct PackageGithubInput {
    pub stats: GithubStats,
    pub fetched_at: String,
    pub source: String,
}

/// A listing as stored in a snapshot file.
pub struct Snapshot {
    pub schema_version: u8,
    pub query: SnapshotQuery,
    pub meta: SnapshotMeta,
    pub packages: Vec<PackageExport>,
}

pub struct SnapshotQuery {
    pub language: String,
    pub search: String,
    pub sort: String,
    pub page: u32,
}

pub struct SnapshotMeta {
    pub total_results: usize,
    pub fetched_at: String,
    pub app_version: String,
}

/// The language name an export carries: a language's own name, `unknown` for a
/// package of no known language.
pub open spec fn export_language(l: Language) -> Seq<char> {
    match l {
        Language::All => "unknown"@,
        _ => l.spec_name(),
    }
}

/// `r` is the export of `pkg` with `github` attached, up to the time it was made
/// (`meta.fetched_at`).
pub open spec fn exports(r: PackageExport, pkg: Package, github: Option<PackageGithubInput>) -> bool {
    &&& r.schema_version == SCHEMA_VERSION
    &&& r.id@ == pkg.name@
    &&& r.language@ == export_language(pkg.language)
    &&& r.build_tool@ == pkg.build_tool@
    &&& r.release.latest@ == pkg.version@
    &&& opt_view(r.release.latest_stable) == Some(pkg.version@)
    &&& r.release.published_at@ == pkg.inserted_at@
    &&& r.release.updated_at@ == pkg.updated_at@
    &&& r.description@ == pkg.description@
    &&& r.downloads.all_time == pkg.downloads_all
    &&& r.downloads.recent_90d == pkg.downloads_recent
    &&& match github {
        Some(g) => r.github matches Some(h) && h.url@ == view_or_empty(pkg.repo_url) && h.stars
            == g.stats.stars && h.forks == g.stats.forks && h.open_issues == g.stats.issues
            && h.fetched_at@ == g.fetched_at@ && h.source@ == g.source@,
        None => r.github is None,
    }
    &&& r.links.hex@ == view_or_empty(pkg.hex_url)
    &&& opt_view(r.links.docs) == opt_view(pkg.docs_url)
    &&& opt_view(r.links.repository) == opt_view(pkg.repo_url)
    &&& views(r.licenses@) == views(pkg.licenses@)
    &&& r.meta.data_source@ == "hex.pm/api/v1"@
}

/// The time now, in UTC, as RFC 3339: `chrono::Utc::now().to_rfc3339()`. It depends
/// on the clock: nothing is stated of it.
#[verifier::external_body]
fn utc_now_rfc3339() -> (r: String) {
    chrono::Utc::now().to_rfc3339()
}

fn string_or_empty(o: &Option<String>) -> (r: String)
    ensures
        r@ == view_or_empty(*o),
{
    match o {
        Some(s) => s.clone(),
        None => String::new(),
    }
}

impl PackageExport {
    /// The export of `pkg`, with `github` attached, made at `fetched_at`.
    pub fn from_package_at(pkg: &Package, github: Option<PackageGithubInput>, fetched_at: String) -> (r:
        PackageExport)
        ensures
            exports(r, *pkg, github),
            r.meta.fetched_at@ == fetched_at@,
    {
        let language = match pkg.language {
            Language::All => "unknown".to_owned(),
            other => other.name().to_owned(),
        };
        let github_field = match github {
            Some(g) => Some(
                PackageGithub {
                    url: string_or_empty(&pkg.repo_url),
                    stars: g.stats.stars,
                    forks: g.stats.forks,
                    open_issues: g.stats.issues,
                    fetched_at: g.fetched_at,
                    source: g.source,
                },
            ),
            None => None,
        };
        let licenses = clone_strings(&pkg.licenses);
        PackageExport {
            schema_version: SCHEMA_VERSION,
            id: pkg.name.clone(),
            language,
            build_tool: pkg.build_tool.clone(),
            release: PackageRelease {
                latest: pkg.version.clone(),
                latest_stable: Some(pkg.version.clone()),
                published_at: pkg.inserted_at.clone(),
                updated_at: pkg.updated_at.clone(),
            },
            description: pkg.description.clone(),
            downloads: PackageDownloads {
                all_time: pkg.downloads_all,
                recent_90d: pkg.downloads_recent,
            },
            github: github_field,
            links: PackageLinks {
                hex: string_or_empty(&pkg.hex_url),
                docs: clone_opt_string(&pkg.docs_url),
                repository: clone_opt_string(&pkg.repo_url),
            },
            licenses,
            meta: PackageMeta { fetched_at, data_source: "hex.pm/api/v1".to_owned() },
        }
    }

    /// The export of `pkg`, with `github` attached, made now.
    pub fn from_package(pkg: &Package, github: Option<PackageGithubInput>) -> (r: PackageExport)
        ensures
            exports(r, *pkg, github),
    {
        let now = utc_now_rfc3339();
        PackageExport::from_package_at(pkg, github, now)
    }
}

impl Snapshot {
    /// A snapshot of the first page of a listing: each package exported as of now,
    /// the query it answers, and when and by which version it was made.
    pub fn build(packages: &[Package], language: &str, search: &str, sort: &str) -> (r: Snapshot)
        ensures
            r.schema_version == SCHEMA_VERSION,
            r.query.language@ == language@,
            r.query.search@ == search@,
            r.query.sort@ == sort@,
            r.query.page == 1,
            r.meta.total_results == packages@.len(),
            r.meta.app_version@ == "0.1.3"@,
            r.packages@.len() == packages@.len(),
            forall|i: int|
                0 <= i < packages@.len() ==> exports(#[trigger] r.packages@[i], packages@[i], None),
    {
        let mut exported: Vec<PackageExport> = Vec::new();
        let mut i: usize = 0;
        while i < packages.len()
            invariant
                i <= packages@.len(),
                exported@.len() == i,
                forall|j: int| 0 <= j < i ==> exports(#[trigger] exported@[j], packages@[j], None),
            decreases packages@.len() - i,
        {
            let e = PackageExport::from_package(&packages[i], None);
            exported.push(e);
            i = i + 1;
        }
        let n = exported.len();
        Snapshot {
            schema_version: SCHEMA_VERSION,
            query: SnapshotQuery {
                language: language.to_owned(),
                search: search.to_owned(),
                sort: sort.to_owned(),
                page: 1,
            },
            meta: SnapshotMeta {
                total_results: n,
                fetched_at: utc_now_rfc3339(),
                app_version: "0.1.3".to_owned(),
            },
            packages: exported,
        }
    }
}

} // verus!
