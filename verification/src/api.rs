//! HEX.pm and GitHub data: the package model, the mapping from raw API records,
//! ordering, de-duplication and filtering of listings, and GitHub URL handling.
//! The HTTP requests themselves are made by the application.

use vstd::prelude::*;
use crate::text::opt_view;
use crate::types::{infer_language, Language, Sort};
use crate::text::{chars_eq, chars_of, contains, str_is, to_lowercase};

verus! {

// ── Raw HEX.pm records (as the JSON API delivers them) ───────────────────────

/// A JSON object of string values, in the order its entries were read.
pub type Links = Vec<(String, String)>;

pub struct RawDownloads {
    pub all: Option<u64>,
    pub recent: Option<u64>,
}

pub struct RawMeta {
    pub description: Option<String>,
    pub licenses: Option<Vec<String>>,
    pub links: Option<Links>,
    pub build_tools: Option<Vec<String>>,
}

pub struct RawRelease {
    pub version: String,
}

/// One package record of the HEX.pm API.
pub struct HexRaw {
    pub name: String,
    pub latest_version: Option<String>,
    pub latest_stable_version: Option<String>,
    pub updated_at: Option<String>,
    pub inserted_at: Option<String>,
    pub downloads: Option<RawDownloads>,
    pub meta: Option<RawMeta>,
    pub links: Option<Links>,
    pub docs_html_url: Option<String>,
    pub html_url: Option<String>,
    /// Present only in the single-package response.
    pub releases: Option<Vec<RawRelease>>,
}

// ── The package model ────────────────────────────────────────────────────────

/// A package as the lists and the detail view show it.
#[derive(Debug)]
pub struct Package {
    pub name: String,
    pub version: String,
    pub description: String,
    pub updated_at: String,
    pub inserted_at: String,
    pub downloads_all: u64,
    pub downloads_recent: u64,
    pub repo_url: Option<String>,
    pub docs_url: Option<String>,
    pub hex_url: Option<String>,
    pub licenses: Vec<String>,
    /// Language inferred from `build_tools`; `All` means unknown.
    pub language: Language,
    /// The first build tool HEX.pm lists (empty when none).
    pub build_tool: String,
    /// All published versions, newest first (empty for listing records).
    pub versions: Vec<String>,
}

/// What a package holds, as plain values.
pub struct PackageModel {
    pub name: Seq<char>,
    pub version: Seq<char>,
    pub description: Seq<char>,
    pub updated_at: Seq<char>,
    pub inserted_at: Seq<char>,
    pub downloads_all: u64,
    pub downloads_recent: u64,
    pub repo_url: Option<Seq<char>>,
    pub docs_url: Option<Seq<char>>,
    pub hex_url: Option<Seq<char>>,
    pub licenses: Seq<Seq<char>>,
    pub language: Language,
    pub build_tool: Seq<char>,
    pub versions: Seq<Seq<char>>,
}

pub open spec fn string_views(v: Seq<String>) -> Seq<Seq<char>> {
    v.map_values(|s: String| s@)
}

impl View for Package {
    type V = PackageModel;

    open spec fn view(&self) -> PackageModel {
        PackageModel {
            name: self.name@,
            version: self.version@,
            description: self.description@,
            updated_at: self.updated_at@,
            inserted_at: self.inserted_at@,
            downloads_all: self.downloads_all,
            downloads_recent: self.downloads_recent,
            repo_url: opt_view(self.repo_url),
            docs_url: opt_view(self.docs_url),
            hex_url: opt_view(self.hex_url),
            licenses: string_views(self.licenses@),
            language: self.language,
            build_tool: self.build_tool@,
            versions: string_views(self.versions@),
        }
    }
}

/// The models of a list of packages.
pub open spec fn models(v: Seq<Package>) -> Seq<PackageModel> {
    v.map_values(|p: Package| p@)
}

pub fn clone_opt_string(o: &Option<String>) -> (r: Option<String>)
    ensures
        r == *o,
{
    match o {
        Some(s) => Some(s.clone()),
        None => None,
    }
}

pub fn clone_strings(v: &Vec<String>) -> (r: Vec<String>)
    ensures
        r@ == v@,
{
    let mut out: Vec<String> = Vec::new();
    let mut i: usize = 0;
    while i < v.len()
        invariant
            i <= v@.len(),
            out@ == v@.take(i as int),
        decreases v@.len() - i,
    {
        out.push(v[i].clone());
        assert(out@ =~= v@.take(i + 1));
        i = i + 1;
    }
    assert(v@.take(v@.len() as int) =~= v@);
    out
}

impl Package {
    /// A copy of the package.
    pub fn duplicate(&self) -> (r: Package)
        ensures
            r@ == self@,
    {
        let r = Package {
            name: self.name.clone(),
            version: self.version.clone(),
            description: self.description.clone(),
            updated_at: self.updated_at.clone(),
            inserted_at: self.inserted_at.clone(),
            downloads_all: self.downloads_all,
            downloads_recent: self.downloads_recent,
            repo_url: clone_opt_string(&self.repo_url),
            docs_url: clone_opt_string(&self.docs_url),
            hex_url: clone_opt_string(&self.hex_url),
            licenses: clone_strings(&self.licenses),
            language: self.language,
            build_tool: self.build_tool.clone(),
            versions: clone_strings(&self.versions),
        };
        assert(r@.licenses =~= self@.licenses);
        assert(r@.versions =~= self@.versions);
        r
    }
}

impl Clone for Package {
    fn clone(&self) -> Package {
        self.duplicate()
    }
}

/// A copy of a list of packages.
pub fn clone_packages(v: &Vec<Package>) -> (r: Vec<Package>)
    ensures
        models(r@) == models(v@),
{
    let mut out: Vec<Package> = Vec::new();
    let mut i: usize = 0;
    while i < v.len()
        invariant
            i <= v@.len(),
            models(out@) == models(v@).take(i as int),
        decreases v@.len() - i,
    {
        let c = v[i].duplicate();
        assert(c@ == models(v@)[i as int]);
        let ghost before = out@;
        out.push(c);
        assert(models(out@) =~= models(before).push(c@));
        assert(models(out@) =~= models(v@).take(i + 1));
        i = i + 1;
    }
    assert(models(v@).take(i as int) =~= models(v@));
    out
}

// ── Repository discovery ─────────────────────────────────────────────────────

/// Keys under which a package names its source repository, in priority order.
pub open spec fn repo_keys() -> Seq<Seq<char>> {
    seq![
        "Repository"@,
        "GitHub"@,
        "Github"@,
        "repository"@,
        "github"@,
        "Source"@,
        "source"@,
    ]
}

pub open spec fn link_views(m: Seq<(String, String)>) -> Seq<(Seq<char>, Seq<char>)> {
    m.map_values(|e: (String, String)| (e.0@, e.1@))
}

/// The value of the first entry with key `k`.
pub open spec fn lookup(m: Seq<(Seq<char>, Seq<char>)>, k: Seq<char>) -> Option<Seq<char>>
    decreases m.len(),
{
    if m.len() == 0 {
        None
    } else if m[0].0 == k {
        Some(m[0].1)
    } else {
        lookup(m.drop_first(), k)
    }
}

/// The value of the first key of `keys` that `m` holds.
pub open spec fn lookup_first_key(m: Seq<(Seq<char>, Seq<char>)>, keys: Seq<Seq<char>>) -> Option<
    Seq<char>,
>
    decreases keys.len(),
{
    if keys.len() == 0 {
        None
    } else {
        match lookup(m, keys[0]) {
            Some(v) => Some(v),
            None => lookup_first_key(m, keys.drop_first()),
        }
    }
}

/// A URL of a git forge (GitHub or GitLab).
pub open spec fn is_forge_url(u: Seq<char>) -> bool {
    crate::text::contains_seq(u, "github.com"@) || crate::text::contains_seq(u, "gitlab.com"@)
}

/// The first value, in entry order, that is a forge URL.
pub open spec fn first_forge_value(m: Seq<(Seq<char>, Seq<char>)>) -> Option<Seq<char>>
    decreases m.len(),
{
    if m.len() == 0 {
        None
    } else if is_forge_url(m[0].1) {
        Some(m[0].1)
    } else {
        first_forge_value(m.drop_first())
    }
}

/// The repository a link map names: a priority key's value, else a forge URL.
pub open spec fn repo_in(m: Seq<(Seq<char>, Seq<char>)>) -> Option<Seq<char>> {
    match lookup_first_key(m, repo_keys()) {
        Some(v) => Some(v),
        None => first_forge_value(m),
    }
}

pub open spec fn opt_links(o: Option<Links>) -> Option<Seq<(Seq<char>, Seq<char>)>> {
    match o {
        Some(l) => Some(link_views(l@)),
        None => None,
    }
}

/// The repository of a package: looked for in the top-level links, then in the metadata links.
pub open spec fn spec_find_repo(
    top: Option<Seq<(Seq<char>, Seq<char>)>>,
    meta: Option<Seq<(Seq<char>, Seq<char>)>>,
) -> Option<Seq<char>> {
    let t = match top {
        Some(m) => repo_in(m),
        None => None,
    };
    match t {
        Some(v) => Some(v),
        None => match meta {
            Some(m) => repo_in(m),
            None => None,
        },
    }
}

/// The value under key `key` (first such entry), cloned.
pub fn links_get(m: &Links, key: &str) -> (r: Option<String>)
    ensures
        opt_view(r) == lookup(link_views(m@), key@),
{
    let ghost mv = link_views(m@);
    let mut i: usize = 0;
    assert(mv.skip(0) =~= mv);
    while i < m.len()
        invariant
            i <= m@.len(),
            mv == link_views(m@),
            lookup(mv, key@) == lookup(mv.skip(i as int), key@),
        decreases m@.len() - i,
    {
        assert(mv.skip(i as int)[0] == (m@[i as int].0@, m@[i as int].1@));
        assert(mv.skip(i as int).drop_first() =~= mv.skip(i + 1));
        if str_is(m[i].0.as_str(), key) {
            return Some(m[i].1.clone());
        }
        i = i + 1;
    }
    assert(mv.len() == m@.len());
    assert(mv.skip(i as int).len() == 0);
    None
}

fn repo_in_links(m: &Links) -> (r: Option<String>)
    ensures
        opt_view(r) == repo_in(link_views(m@)),
{
    let ghost mv = link_views(m@);
    let keys: [&str; 7] = ["Repository", "GitHub", "Github", "repository", "github", "Source", "source"];
    let mut k: usize = 0;
    assert(repo_keys().skip(0) =~= repo_keys());
    while k < 7
        invariant
            k <= 7,
            mv == link_views(m@),
            keys@ == seq!["Repository", "GitHub", "Github", "repository", "github", "Source", "source"],
            lookup_first_key(mv, repo_keys()) == lookup_first_key(mv, repo_keys().skip(k as int)),
        decreases 7 - k,
    {
        assert(keys[k as int]@ == repo_keys()[k as int]) by {
            reveal_strlit("Repository");
            reveal_strlit("GitHub");
            reveal_strlit("Github");
            reveal_strlit("repository");
            reveal_strlit("github");
            reveal_strlit("Source");
            reveal_strlit("source");
        }
        assert(repo_keys().skip(k as int)[0] == repo_keys()[k as int]);
        assert(repo_keys().skip(k as int).drop_first() =~= repo_keys().skip(k + 1));
        match links_get(m, keys[k]) {
            Some(v) => {
                return Some(v);
            },
            None => {},
        }
        k = k + 1;
    }
    assert(repo_keys().skip(7).len() == 0);
    assert(lookup_first_key(mv, repo_keys()) is None);
    let github = chars_of("github.com");
    let gitlab = chars_of("gitlab.com");
    let mut i: usize = 0;
    assert(mv.skip(0) =~= mv);
    while i < m.len()
        invariant
            i <= m@.len(),
            mv == link_views(m@),
            github@ == "github.com"@,
            gitlab@ == "gitlab.com"@,
            lookup_first_key(mv, repo_keys()) is None,
            first_forge_value(mv) == first_forge_value(mv.skip(i as int)),
        decreases m@.len() - i,
    {
        assert(mv.skip(i as int)[0] == (m@[i as int].0@, m@[i as int].1@));
        assert(mv.skip(i as int).drop_first() =~= mv.skip(i + 1));
        let v = chars_of(m[i].1.as_str());
        if contains(&v, &github) || contains(&v, &gitlab) {
            return Some(m[i].1.clone());
        }
        i = i + 1;
    }
    assert(mv.len() == m@.len());
    assert(mv.skip(i as int).len() == 0);
    None
}

/// The source repository of a package: in the top-level links, else in the metadata links;
/// in each, the first of the priority keys present, else the first value (in entry order)
/// that points to GitHub or GitLab.
pub fn find_repo(top: Option<&Links>, meta: Option<&Links>) -> (r: Option<String>)
    ensures
        opt_view(r) == spec_find_repo(
            match top {
                Some(t) => Some(link_views(t@)),
                None => None,
            },
            match meta {
                Some(m) => Some(link_views(m@)),
                None => None,
            },
        ),
{
    let t = match top {
        Some(m) => repo_in_links(m),
        None => None,
    };
    match t {
        Some(v) => Some(v),
        None => match meta {
            Some(m) => repo_in_links(m),
            None => None,
        },
    }
}


// ── From raw records ─────────────────────────────────────────────────────────

pub open spec fn view_or_empty(o: Option<String>) -> Seq<char> {
    match o {
        Some(s) => s@,
        None => seq![],
    }
}

pub open spec fn raw_build_tools(r: HexRaw) -> Seq<Seq<char>> {
    match r.meta {
        Some(m) => match m.build_tools {
            Some(t) => string_views(t@),
            None => seq![],
        },
        None => seq![],
    }
}

/// The package a raw HEX.pm record describes.
pub open spec fn spec_into_package(r: HexRaw) -> PackageModel {
    let tools = raw_build_tools(r);
    PackageModel {
        name: r.name@,
        version: match r.latest_stable_version {
            Some(v) => v@,
            None => match r.latest_version {
                Some(v) => v@,
                None => "0.0.0"@,
            },
        },
        description: match r.meta {
            Some(m) => view_or_empty(m.description),
            None => seq![],
        },
        updated_at: view_or_empty(r.updated_at),
        inserted_at: view_or_empty(r.inserted_at),
        downloads_all: match r.downloads {
            Some(d) => match d.all {
                Some(n) => n,
                None => 0,
            },
            None => 0,
        },
        downloads_recent: match r.downloads {
            Some(d) => match d.recent {
                Some(n) => n,
                None => 0,
            },
            None => 0,
        },
        repo_url: spec_find_repo(
            opt_links(r.links),
            match r.meta {
                Some(m) => opt_links(m.links),
                None => None,
            },
        ),
        docs_url: match match r.links {
            Some(l) => lookup(link_views(l@), "Documentation"@),
            None => None,
        } {
            Some(d) => Some(d),
            None => opt_view(r.docs_html_url),
        },
        hex_url: opt_view(r.html_url),
        licenses: match r.meta {
            Some(m) => match m.licenses {
                Some(l) => string_views(l@),
                None => seq![],
            },
            None => seq![],
        },
        language: crate::types::spec_infer_language(tools),
        build_tool: if tools.len() > 0 {
            tools[0]
        } else {
            seq![]
        },
        versions: match r.releases {
            Some(rs) => rs@.map_values(|x: RawRelease| x.version@),
            None => seq![],
        },
    }
}

fn string_or_empty(o: Option<String>) -> (r: String)
    ensures
        r@ == view_or_empty(o),
{
    match o {
        Some(s) => s,
        None => String::new(),
    }
}

fn release_versions(rs: &Vec<RawRelease>) -> (r: Vec<String>)
    ensures
        string_views(r@) == rs@.map_values(|x: RawRelease| x.version@),
{
    let mut out: Vec<String> = Vec::new();
    let mut i: usize = 0;
    while i < rs.len()
        invariant
            i <= rs@.len(),
            string_views(out@) == rs@.take(i as int).map_values(|x: RawRelease| x.version@),
        decreases rs@.len() - i,
    {
        let ghost old_out = out@;
        let v = rs[i].version.clone();
        out.push(v);
        assert(out@ == old_out.push(v));
        assert(string_views(out@) =~= string_views(old_out).push(v@));
        assert(rs@.take(i + 1) =~= rs@.take(i as int).push(rs@[i as int]));
        assert(rs@.take(i + 1).map_values(|x: RawRelease| x.version@) =~= rs@.take(
            i as int,
        ).map_values(|x: RawRelease| x.version@).push(rs@[i as int].version@));
        i = i + 1;
    }
    assert(rs@.take(rs@.len() as int) =~= rs@);
    out
}

/// The package a raw HEX.pm record describes: stable version before latest version
/// (`0.0.0` when neither is given), missing texts as empty, missing counts as 0, the
/// repository as `find_repo` finds it, the docs link from `Documentation` or else
/// `docs_html_url`, the language inferred from the build tools.
pub fn into_package(r: HexRaw) -> (p: Package)
    ensures
        p@ == spec_into_package(r),
{
    let ghost r0 = r;
    let repo_url = find_repo(
        match &r.links {
            Some(l) => Some(l),
            None => None,
        },
        match &r.meta {
            Some(m) => match &m.links {
                Some(l) => Some(l),
                None => None,
            },
            None => None,
        },
    );
    let from_links = match &r.links {
        Some(l) => links_get(l, "Documentation"),
        None => None,
    };
    let docs_url = match from_links {
        Some(d) => Some(d),
        None => r.docs_html_url,
    };
    let (description, licenses, build_tools) = match r.meta {
        Some(m) => (
            string_or_empty(m.description),
            match m.licenses {
                Some(l) => l,
                None => Vec::new(),
            },
            match m.build_tools {
                Some(t) => t,
                None => Vec::new(),
            },
        ),
        None => (String::new(), Vec::new(), Vec::new()),
    };
    assert(string_views(build_tools@) == raw_build_tools(r0));
    let language = infer_language(&build_tools);
    let build_tool = if build_tools.len() > 0 {
        build_tools[0].clone()
    } else {
        String::new()
    };
    let version = match r.latest_stable_version {
        Some(v) => v,
        None => match r.latest_version {
            Some(v) => v,
            None => "0.0.0".to_owned(),
        },
    };
    let (downloads_all, downloads_recent) = match r.downloads {
        Some(d) => (
            match d.all {
                Some(n) => n,
                None => 0,
            },
            match d.recent {
                Some(n) => n,
                None => 0,
            },
        ),
        None => (0, 0),
    };
    let versions = match r.releases {
        Some(rs) => release_versions(&rs),
        None => Vec::new(),
    };
    let p = Package {
        name: r.name,
        version,
        description,
        updated_at: string_or_empty(r.updated_at),
        inserted_at: string_or_empty(r.inserted_at),
        downloads_all,
        downloads_recent,
        repo_url,
        docs_url,
        hex_url: r.html_url,
        licenses,
        language,
        build_tool,
        versions,
    };
    assert(p@.licenses =~= spec_into_package(r0).licenses);
    assert(p@.versions =~= spec_into_package(r0).versions);
    p
}


// ── Ordering ─────────────────────────────────────────────────────────────────

/// `a` goes strictly before `b` in a listing sorted by `key`: downloads and
/// dates descending, names ascending.
pub open spec fn sort_before(a: PackageModel, b: PackageModel, key: Sort) -> bool {
    match key {
        Sort::RecentDownloads => a.downloads_recent > b.downloads_recent,
        Sort::Downloads => a.downloads_all > b.downloads_all,
        Sort::Updated => crate::text::lex_lt(b.updated_at, a.updated_at),
        Sort::Newest => crate::text::lex_lt(b.inserted_at, a.inserted_at),
        Sort::Name => crate::text::lex_lt(a.name, b.name),
    }
}

/// Where a stable insertion puts `x` into `s`: before the first element
/// (from `j` on) that `x` goes strictly before.
pub open spec fn insert_pos(s: Seq<PackageModel>, x: PackageModel, key: Sort, j: int) -> int
    decreases s.len() - j,
{
    if j < 0 || j >= s.len() {
        s.len() as int
    } else if sort_before(x, s[j], key) {
        j
    } else {
        insert_pos(s, x, key, j + 1)
    }
}

/// The stable sort of `s` by `key` (equal elements keep their order).
pub open spec fn stable_sort(s: Seq<PackageModel>, key: Sort) -> Seq<PackageModel>
    decreases s.len(),
{
    if s.len() == 0 {
        s
    } else {
        let t = stable_sort(s.drop_last(), key);
        t.insert(insert_pos(t, s.last(), key, 0), s.last())
    }
}

/// The sort an API sort parameter names (exactly one of the five).
pub open spec fn sort_of_param(p: Seq<char>) -> Option<Sort> {
    if p == "recent_downloads"@ {
        Some(Sort::RecentDownloads)
    } else if p == "downloads"@ {
        Some(Sort::Downloads)
    } else if p == "updated_at"@ {
        Some(Sort::Updated)
    } else if p == "inserted_at"@ {
        Some(Sort::Newest)
    } else if p == "name"@ {
        Some(Sort::Name)
    } else {
        None
    }
}

/// A listing sorted client-side by an API sort parameter (unknown parameters leave it as is).
pub open spec fn spec_sort_packages(s: Seq<PackageModel>, param: Seq<char>) -> Seq<PackageModel> {
    match sort_of_param(param) {
        Some(k) => stable_sort(s, k),
        None => s,
    }
}

pub proof fn lemma_insert_pos_bound(s: Seq<PackageModel>, x: PackageModel, key: Sort, j: int)
    requires
        0 <= j <= s.len(),
    ensures
        j <= insert_pos(s, x, key, j) <= s.len(),
    decreases s.len() - j,
{
    if j < s.len() && !sort_before(x, s[j], key) {
        lemma_insert_pos_bound(s, x, key, j + 1);
    }
}

fn package_before(a: &Package, b: &Package, key: Sort) -> (r: bool)
    ensures
        r == sort_before(a@, b@, key),
{
    match key {
        Sort::RecentDownloads => a.downloads_recent > b.downloads_recent,
        Sort::Downloads => a.downloads_all > b.downloads_all,
        Sort::Updated => crate::text::lex_order(
            &chars_of(b.updated_at.as_str()),
            &chars_of(a.updated_at.as_str()),
        ) == -1,
        Sort::Newest => crate::text::lex_order(
            &chars_of(b.inserted_at.as_str()),
            &chars_of(a.inserted_at.as_str()),
        ) == -1,
        Sort::Name => crate::text::lex_order(
            &chars_of(a.name.as_str()),
            &chars_of(b.name.as_str()),
        ) == -1,
    }
}

pub proof fn lemma_models_insert(v: Seq<Package>, i: int, x: Package)
    requires
        0 <= i <= v.len(),
    ensures
        models(v.insert(i, x)) == models(v).insert(i, x@),
{
    assert(models(v.insert(i, x)) =~= models(v).insert(i, x@));
}

pub proof fn lemma_models_push(v: Seq<Package>, x: Package)
    ensures
        models(v.push(x)) == models(v).push(x@),
{
    assert(models(v.push(x)) =~= models(v).push(x@));
}

pub proof fn lemma_models_take_push(v: Seq<Package>, i: int)
    requires
        0 <= i < v.len(),
    ensures
        models(v).take(i + 1) == models(v).take(i).push(v[i]@),
        models(v).take(i + 1).drop_last() == models(v).take(i),
        models(v).take(i + 1).last() == v[i]@,
{
    assert(models(v).take(i + 1) =~= models(v).take(i).push(v[i]@));
    assert(models(v).take(i + 1).drop_last() =~= models(v).take(i));
}

/// Stable sort by `key`.
pub fn sort_by_key(packages: Vec<Package>, key: Sort) -> (r: Vec<Package>)
    ensures
        models(r@) == stable_sort(models(packages@), key),
{
    let ghost orig = packages@;
    let mut rest = packages;
    let _n = rest.len();
    let mut out: Vec<Package> = Vec::new();
    let mut k: usize = 0;
    assert(orig.skip(0) =~= orig);
    assert(models(orig).take(0) =~= Seq::<PackageModel>::empty());
    while rest.len() > 0
        invariant
            k + rest@.len() == orig.len(),
            orig.len() <= usize::MAX,
            rest@ == orig.skip(k as int),
            models(out@) == stable_sort(models(orig).take(k as int), key),
        decreases rest@.len(),
    {
        let x = rest.remove(0);
        assert(rest@ =~= orig.skip(k + 1));
        let mut j: usize = 0;
        let ghost t = models(out@);
        while j < out.len() && !package_before(&x, &out[j], key)
            invariant
                j <= out@.len(),
                t == models(out@),
                insert_pos(t, x@, key, 0) == insert_pos(t, x@, key, j as int),
            decreases out@.len() - j,
        {
            j = j + 1;
        }
        proof {
            lemma_insert_pos_bound(t, x@, key, j as int);
            lemma_models_insert(out@, j as int, x);
            lemma_models_take_push(orig, k as int);
            assert(orig[k as int] == x);
        }
        out.insert(j, x);
        k = k + 1;
    }
    assert(models(orig).take(k as int) =~= models(orig));
    out
}

/// Sort a listing client-side by a HEX.pm sort parameter.
pub fn sort_packages(packages: Vec<Package>, sort: &str) -> (r: Vec<Package>)
    ensures
        models(r@) == spec_sort_packages(models(packages@), sort@),
{
    let key = if str_is(sort, "recent_downloads") {
        Some(Sort::RecentDownloads)
    } else if str_is(sort, "downloads") {
        Some(Sort::Downloads)
    } else if str_is(sort, "updated_at") {
        Some(Sort::Updated)
    } else if str_is(sort, "inserted_at") {
        Some(Sort::Newest)
    } else if str_is(sort, "name") {
        Some(Sort::Name)
    } else {
        None
    };
    match key {
        Some(k) => sort_by_key(packages, k),
        None => packages,
    }
}

// ── De-duplication and filtering ─────────────────────────────────────────────

/// Some element of `s` has name `n`.
pub open spec fn has_name(s: Seq<PackageModel>, n: Seq<char>) -> bool {
    exists|j: int| 0 <= j < s.len() && s[j].name == n
}

/// `s` without the packages whose name already appeared earlier.
pub open spec fn dedup_by_name(s: Seq<PackageModel>) -> Seq<PackageModel>
    decreases s.len(),
{
    if s.len() == 0 {
        s
    } else {
        let d = dedup_by_name(s.drop_last());
        if has_name(s.drop_last(), s.last().name) {
            d
        } else {
            d.push(s.last())
        }
    }
}

fn seen_contains(seen: &Vec<Vec<char>>, n: &Vec<char>) -> (r: bool)
    ensures
        r == (exists|j: int| 0 <= j < seen@.len() && seen@[j]@ == n@),
{
    let mut i: usize = 0;
    while i < seen.len()
        invariant
            i <= seen@.len(),
            forall|j: int| 0 <= j < i ==> seen@[j]@ != n@,
        decreases seen@.len() - i,
    {
        if chars_eq(&seen[i], n) {
            return true;
        }
        i = i + 1;
    }
    false
}

/// Drop every package whose name already occurred earlier in the list.
pub fn dedup_packages(packages: Vec<Package>) -> (r: Vec<Package>)
    ensures
        models(r@) == dedup_by_name(models(packages@)),
{
    let ghost orig = packages@;
    let mut rest = packages;
    let _n = rest.len();
    let mut out: Vec<Package> = Vec::new();
    let mut seen: Vec<Vec<char>> = Vec::new();
    let mut k: usize = 0;
    assert(orig.skip(0) =~= orig);
    while rest.len() > 0
        invariant
            k + rest@.len() == orig.len(),
            orig.len() <= usize::MAX,
            rest@ == orig.skip(k as int),
            seen@.len() == k,
            forall|j: int| 0 <= j < k ==> #[trigger] seen@[j]@ == orig[j].name@,
            models(out@) == dedup_by_name(models(orig).take(k as int)),
        decreases rest@.len(),
    {
        let x = rest.remove(0);
        assert(rest@ =~= orig.skip(k + 1));
        assert(orig[k as int] == x);
        let n = chars_of(x.name.as_str());
        let dup = seen_contains(&seen, &n);
        proof {
            lemma_models_take_push(orig, k as int);
            let p = models(orig).take(k as int);
            if dup {
                let j = choose|j: int| 0 <= j < seen@.len() && seen@[j]@ == n@;
                assert(p[j].name == x@.name);
            }
            if has_name(p, x@.name) {
                let j = choose|j: int| 0 <= j < p.len() && p[j].name == x@.name;
                assert(seen@[j]@ == n@);
            }
            lemma_models_push(out@, x);
        }
        if !dup {
            out.push(x);
        }
        seen.push(n);
        k = k + 1;
    }
    assert(models(orig).take(k as int) =~= models(orig));
    out
}

/// A package matches a lower-cased query when its lower-cased name or description contains it.
pub open spec fn matches_query(p: PackageModel, q_lower: Seq<char>) -> bool {
    crate::text::contains_seq(crate::text::lowercase(p.name), q_lower)
        || crate::text::contains_seq(crate::text::lowercase(p.description), q_lower)
}

/// The packages of `s` that match `q_lower`, in order.
pub open spec fn filter_query(s: Seq<PackageModel>, q_lower: Seq<char>) -> Seq<PackageModel>
    decreases s.len(),
{
    if s.len() == 0 {
        s
    } else {
        let f = filter_query(s.drop_last(), q_lower);
        if matches_query(s.last(), q_lower) {
            f.push(s.last())
        } else {
            f
        }
    }
}

/// Keep the packages whose lower-cased name or description contains `q_lower`.
pub fn filter_packages(packages: Vec<Package>, q_lower: &str) -> (r: Vec<Package>)
    ensures
        models(r@) == filter_query(models(packages@), q_lower@),
{
    let ghost orig = packages@;
    let q = chars_of(q_lower);
    let mut rest = packages;
    let _n = rest.len();
    let mut out: Vec<Package> = Vec::new();
    let mut k: usize = 0;
    assert(orig.skip(0) =~= orig);
    while rest.len() > 0
        invariant
            q@ == q_lower@,
            k + rest@.len() == orig.len(),
            orig.len() <= usize::MAX,
            rest@ == orig.skip(k as int),
            models(out@) == filter_query(models(orig).take(k as int), q_lower@),
        decreases rest@.len(),
    {
        let x = rest.remove(0);
        assert(rest@ =~= orig.skip(k + 1));
        assert(orig[k as int] == x);
        let name_l = to_lowercase(x.name.as_str());
        let desc_l = to_lowercase(x.description.as_str());
        let keep = contains(&chars_of(name_l.as_str()), &q) || contains(
            &chars_of(desc_l.as_str()),
            &q,
        );
        proof {
            lemma_models_take_push(orig, k as int);
            lemma_models_push(out@, x);
        }
        if keep {
            out.push(x);
        }
        k = k + 1;
    }
    assert(models(orig).take(k as int) =~= models(orig));
    out
}

/// Every package with its language set to `lang`.
pub open spec fn relabel(s: Seq<PackageModel>, lang: Language) -> Seq<PackageModel> {
    s.map_values(|p: PackageModel| PackageModel { language: lang, ..p })
}

/// Set the language of every package.
pub fn set_language(packages: Vec<Package>, lang: Language) -> (r: Vec<Package>)
    ensures
        models(r@) == relabel(models(packages@), lang),
{
    let ghost orig = packages@;
    let mut rest = packages;
    let _n = rest.len();
    let mut out: Vec<Package> = Vec::new();
    let mut k: usize = 0;
    assert(orig.skip(0) =~= orig);
    while rest.len() > 0
        invariant
            k + rest@.len() == orig.len(),
            orig.len() <= usize::MAX,
            rest@ == orig.skip(k as int),
            models(out@) == relabel(models(orig).take(k as int), lang),
        decreases rest@.len(),
    {
        let mut x = rest.remove(0);
        assert(rest@ =~= orig.skip(k + 1));
        assert(orig[k as int] == x);
        let ghost x0 = x@;
        x.language = lang;
        proof {
            lemma_models_take_push(orig, k as int);
            lemma_models_push(out@, x);
            assert(relabel(models(orig).take(k + 1), lang) =~= relabel(
                models(orig).take(k as int),
                lang,
            ).push(PackageModel { language: lang, ..x0 }));
            assert(x@ == PackageModel { language: lang, ..x0 });
        }
        out.push(x);
        k = k + 1;
    }
    assert(models(orig).take(k as int) =~= models(orig));
    out
}


// ── Assembling listings ──────────────────────────────────────────────────────

/// What to fetch for a listing request.
#[derive(Debug)]
pub enum FetchPlan {
    /// All BEAM: page `page` of the Gleam, Elixir and Erlang listings.
    AllBeam { page: u32 },
    /// A search within one language: pages 1 to 5 of the `filter` listing.
    Search { filter: String },
    /// Browsing one language: page `page` of the `filter` listing.
    Browse { filter: String, page: u32 },
}

/// Which listings a request for `query` in `language` at `page` needs.
pub fn fetch_plan(query: &str, language: Language, page: u32) -> (r: FetchPlan)
    ensures
        match r {
            FetchPlan::AllBeam { page: p } => language == Language::All && p == page,
            FetchPlan::Search { filter } => language != Language::All
                && language.spec_hex_filter() == Some(filter@) && crate::text::trim(query@).len()
                > 0,
            FetchPlan::Browse { filter, page: p } => language != Language::All
                && language.spec_hex_filter() == Some(filter@) && crate::text::trim(query@).len()
                == 0 && p == page,
        },
{
    match language.hex_filter() {
        None => FetchPlan::AllBeam { page },
        Some(f) => {
            let q = crate::text::trimmed(query);
            if q.as_str().unicode_len() > 0 {
                FetchPlan::Search { filter: f.to_owned() }
            } else {
                FetchPlan::Browse { filter: f.to_owned(), page }
            }
        },
    }
}

/// A listing was full (100 entries): a next page likely exists.
pub open spec fn is_full(o: Option<Seq<PackageModel>>) -> bool {
    match o {
        Some(s) => s.len() >= 100,
        None => false,
    }
}

pub open spec fn bucket(o: Option<Seq<PackageModel>>, lang: Language) -> Seq<PackageModel> {
    match o {
        Some(s) => relabel(s, lang),
        None => seq![],
    }
}

pub open spec fn opt_models(o: Option<Vec<Package>>) -> Option<Seq<PackageModel>> {
    match o {
        Some(v) => Some(models(v@)),
        None => None,
    }
}

/// De-duplicated, and filtered by the trimmed, lower-cased query when it is not empty.
pub open spec fn dedup_and_filter(s: Seq<PackageModel>, query: Seq<char>) -> Seq<PackageModel> {
    let d = dedup_by_name(s);
    let q = crate::text::trim(query);
    if q.len() > 0 {
        filter_query(d, crate::text::lowercase(q))
    } else {
        d
    }
}

/// The All BEAM listing built from the three ecosystems' pages (a missing one failed):
/// each labelled with its language, concatenated, de-duplicated (first wins, so Gleam
/// wins), filtered by the query, sorted by the sort parameter; plus whether any page was full.
pub open spec fn spec_merge_all_beam(
    gleam: Option<Seq<PackageModel>>,
    elixir: Option<Seq<PackageModel>>,
    erlang: Option<Seq<PackageModel>>,
    query: Seq<char>,
    sort: Seq<char>,
) -> (Seq<PackageModel>, bool) {
    let merged = bucket(gleam, Language::Gleam) + bucket(elixir, Language::Elixir) + bucket(
        erlang,
        Language::Erlang,
    );
    (
        spec_sort_packages(dedup_and_filter(merged, query), sort),
        is_full(gleam) || is_full(elixir) || is_full(erlang),
    )
}

fn take_bucket(o: Option<Vec<Package>>, lang: Language) -> (r: (Vec<Package>, bool))
    ensures
        models(r.0@) == bucket(opt_models(o), lang),
        r.1 == is_full(opt_models(o)),
{
    match o {
        Some(v) => {
            let full = v.len() >= 100;
            (set_language(v, lang), full)
        },
        None => (Vec::new(), false),
    }
}

pub proof fn lemma_models_concat(a: Seq<Package>, b: Seq<Package>)
    ensures
        models(a + b) == models(a) + models(b),
{
    assert(models(a + b) =~= models(a) + models(b));
}

fn dedup_filter(packages: Vec<Package>, query: &str) -> (r: Vec<Package>)
    ensures
        models(r@) == dedup_and_filter(models(packages@), query@),
{
    let d = dedup_packages(packages);
    let q = crate::text::trimmed(query);
    if q.as_str().unicode_len() > 0 {
        let ql = to_lowercase(q.as_str());
        filter_packages(d, ql.as_str())
    } else {
        d
    }
}

/// Merge the three All BEAM pages (see `spec_merge_all_beam`).
pub fn merge_all_beam(
    gleam: Option<Vec<Package>>,
    elixir: Option<Vec<Package>>,
    erlang: Option<Vec<Package>>,
    query: &str,
    sort: &str,
) -> (r: (Vec<Package>, bool))
    ensures
        (models(r.0@), r.1) == spec_merge_all_beam(
            opt_models(gleam),
            opt_models(elixir),
            opt_models(erlang),
            query@,
            sort@,
        ),
{
    let (mut all, f1) = take_bucket(gleam, Language::Gleam);
    let (mut b, f2) = take_bucket(elixir, Language::Elixir);
    let (mut c, f3) = take_bucket(erlang, Language::Erlang);
    let ghost a0 = all@;
    let ghost b0 = b@;
    let ghost c0 = c@;
    all.append(&mut b);
    all.append(&mut c);
    proof {
        lemma_models_concat(a0, b0);
        lemma_models_concat(a0 + b0, c0);
    }
    let filtered = dedup_filter(all, query);
    (sort_packages(filtered, sort), f1 || f2 || f3)
}

/// The listing of one language: every package labelled with that language (the API
/// filter decides it), de-duplicated, filtered by the query.
pub fn finish_language(packages: Vec<Package>, language: Language, query: &str) -> (r: Vec<Package>)
    ensures
        models(r@) == dedup_and_filter(relabel(models(packages@), language), query@),
{
    let l = set_language(packages, language);
    dedup_filter(l, query)
}

/// A browsed page of one language: its listing (see `finish_language`) and
/// whether a next page likely exists, which is when the page was full (100
/// packages, HEX.pm's page size).
pub fn finish_page(packages: Vec<Package>, language: Language, query: &str) -> (r: (Vec<Package>, bool))
    ensures
        models(r.0@) == dedup_and_filter(relabel(models(packages@), language), query@),
        r.1 == (packages@.len() >= 100),
{
    let full = packages.len() >= 100;
    (finish_language(packages, language, query), full)
}

pub open spec fn flatten_pages(pages: Seq<Option<Vec<Package>>>) -> Seq<PackageModel>
    decreases pages.len(),
{
    if pages.len() == 0 {
        seq![]
    } else {
        flatten_pages(pages.drop_last()) + match pages.last() {
            Some(v) => models(v@),
            None => seq![],
        }
    }
}

/// The packages of the pages that arrived, in page order.
pub fn concat_pages(pages: Vec<Option<Vec<Package>>>) -> (r: Vec<Package>)
    ensures
        models(r@) == flatten_pages(pages@),
{
    let ghost orig = pages@;
    let mut rest = pages;
    let _n = rest.len();
    let mut out: Vec<Package> = Vec::new();
    let mut k: usize = 0;
    assert(orig.skip(0) =~= orig);
    assert(orig.take(0) =~= Seq::<Option<Vec<Package>>>::empty());
    while rest.len() > 0
        invariant
            k + rest@.len() == orig.len(),
            orig.len() <= usize::MAX,
            rest@ == orig.skip(k as int),
            models(out@) == flatten_pages(orig.take(k as int)),
        decreases rest@.len(),
    {
        let x = rest.remove(0);
        assert(rest@ =~= orig.skip(k + 1));
        assert(orig[k as int] == x);
        assert(orig.take(k + 1).drop_last() =~= orig.take(k as int));
        let ghost o0 = out@;
        match x {
            Some(mut v) => {
                let ghost v0 = v@;
                out.append(&mut v);
                proof {
                    lemma_models_concat(o0, v0);
                }
            },
            None => {
                assert(models(out@) =~= flatten_pages(orig.take(k + 1)));
            },
        }
        k = k + 1;
    }
    assert(orig.take(k as int) =~= orig);
    out
}

/// A search that found nothing falls back to an exact-name lookup of the trimmed query.
pub fn fallback_name(results: &Vec<Package>, query: &str) -> (r: Option<String>)
    ensures
        match r {
            Some(n) => results@.len() == 0 && n@ == crate::text::trim(query@) && n@.len() > 0,
            None => results@.len() > 0 || crate::text::trim(query@).len() == 0,
        },
{
    let q = crate::text::trimmed(query);
    let ql = chars_of(q.as_str());
    if results.len() == 0 && ql.len() > 0 {
        Some(q)
    } else {
        None
    }
}

/// The fallback package is shown only when its own language is the selected one.
pub fn accept_fallback(package: &Package, language: Language) -> (r: bool)
    ensures
        r == (package.language == language),
{
    package.language == language
}

/// A searched listing with the exact-name lookup added: when the listing is empty
/// and the trimmed query is not, the looked-up package `found`, if there is one
/// and it is of the selected language, is the whole listing.
pub open spec fn spec_with_fallback(
    listing: Seq<PackageModel>,
    language: Language,
    query: Seq<char>,
    found: Option<PackageModel>,
) -> Seq<PackageModel> {
    if listing.len() == 0 && crate::text::trim(query).len() > 0 {
        match found {
            Some(p) => if p.language == language {
                seq![p]
            } else {
                listing
            },
            None => listing,
        }
    } else {
        listing
    }
}

pub open spec fn opt_model(o: Option<Package>) -> Option<PackageModel> {
    match o {
        Some(p) => Some(p@),
        None => None,
    }
}

/// The end of a language search: the listing, completed by the exact-name
/// lookup of `fallback_name` when that asked for one (`found` is what the lookup
/// gave, `None` when it failed or was not made), and no next page.
pub fn add_fallback(listing: Vec<Package>, language: Language, query: &str, found: Option<Package>) -> (r: (
    Vec<Package>,
    bool,
))
    ensures
        models(r.0@) == spec_with_fallback(models(listing@), language, query@, opt_model(found)),
        !r.1,
{
    let mut listing = listing;
    let name = fallback_name(&listing, query);
    if name.is_some() {
        if let Some(p) = found {
            if accept_fallback(&p, language) {
                let ghost l0 = listing@;
                listing.push(p);
                proof {
                    lemma_models_push(l0, p);
                    assert(models(l0) =~= Seq::<PackageModel>::empty());
                    assert(models(listing@) =~= seq![p@]);
                }
            }
        }
    }
    (listing, false)
}

/// Every package of `s` has language `lang`.
pub open spec fn all_of_language(s: Seq<PackageModel>, lang: Language) -> bool {
    forall|i: int| 0 <= i < s.len() ==> (#[trigger] s[i]).language == lang
}

/// No two packages of `s` share a name.
pub open spec fn distinct_names(s: Seq<PackageModel>) -> bool {
    forall|i: int, j: int| 0 <= i < j < s.len() ==> #[trigger] s[i].name != #[trigger] s[j].name
}

proof fn lemma_dedup_members(s: Seq<PackageModel>)
    ensures
        forall|i: int| 0 <= i < dedup_by_name(s).len() ==> s.contains(#[trigger] dedup_by_name(s)[i]),
    decreases s.len(),
{
    if s.len() > 0 {
        let t = s.drop_last();
        lemma_dedup_members(t);
        let d = dedup_by_name(t);
        assert forall|i: int| 0 <= i < dedup_by_name(s).len() implies s.contains(
            #[trigger] dedup_by_name(s)[i],
        ) by {
            if i < d.len() {
                assert(dedup_by_name(s)[i] == d[i]);
                let k = choose|k: int| 0 <= k < t.len() && t[k] == d[i];
                assert(s[k] == t[k]);
            } else {
                assert(s[s.len() - 1] == s.last());
            }
        }
    }
}

proof fn lemma_filter_query_members(s: Seq<PackageModel>, q: Seq<char>)
    ensures
        forall|i: int| 0 <= i < filter_query(s, q).len() ==> s.contains(#[trigger] filter_query(s, q)[i]),
        distinct_names(s) ==> distinct_names(filter_query(s, q)),
    decreases s.len(),
{
    if s.len() > 0 {
        let t = s.drop_last();
        lemma_filter_query_members(t, q);
        let f = filter_query(t, q);
        let r = filter_query(s, q);
        assert forall|i: int| 0 <= i < r.len() implies s.contains(#[trigger] r[i]) by {
            if i < f.len() {
                assert(r[i] == f[i]);
                let k = choose|k: int| 0 <= k < t.len() && t[k] == f[i];
                assert(s[k] == t[k]);
            } else {
                assert(s[s.len() - 1] == s.last());
            }
        }
        if distinct_names(s) {
            assert(distinct_names(t)) by {
                assert forall|i: int, j: int| 0 <= i < j < t.len() implies #[trigger] t[i].name
                    != #[trigger] t[j].name by {
                    assert(s[i] == t[i] && s[j] == t[j]);
                }
            }
            assert forall|i: int, j: int| 0 <= i < j < r.len() implies #[trigger] r[i].name
                != #[trigger] r[j].name by {
                assert(r[i] == f[i]);
                if j == f.len() {
                    let k = choose|k: int| 0 <= k < t.len() && t[k] == f[i];
                    assert(s[k] == t[k]);
                    assert(s[s.len() - 1] == s.last());
                } else {
                    assert(r[j] == f[j]);
                }
            }
        }
    }
}

/// A language search: with `pages` the HEX.pm result pages that arrived, and
/// `found` the exact-name lookup of the trimmed query, the listing has distinct
/// names, every package is of the selected language, and it is the de-duplicated,
/// filtered pages when they hold anything; otherwise the looked-up package when it
/// is of that language, or nothing.
pub proof fn lemma_language_search(
    pages: Seq<Option<Vec<Package>>>,
    language: Language,
    query: Seq<char>,
    found: Option<PackageModel>,
)
    ensures
        ({
            let m = dedup_and_filter(relabel(flatten_pages(pages), language), query);
            let r = spec_with_fallback(m, language, query, found);
            &&& distinct_names(r)
            &&& all_of_language(r, language)
            &&& m.len() > 0 ==> r == m
            &&& m.len() == 0 ==> r == (match found {
                Some(p) => if p.language == language && crate::text::trim(query).len() > 0 {
                    seq![p]
                } else {
                    seq![]
                },
                None => seq![],
            })
        }),
{
    let l = relabel(flatten_pages(pages), language);
    let d = dedup_by_name(l);
    let m = dedup_and_filter(l, query);
    lemma_dedup_unique(l);
    lemma_dedup_members(l);
    assert(distinct_names(d));
    assert(all_of_language(d, language)) by {
        assert forall|i: int| 0 <= i < d.len() implies (#[trigger] d[i]).language == language by {
            let k = choose|k: int| 0 <= k < l.len() && l[k] == d[i];
        }
    }
    let q = crate::text::trim(query);
    if q.len() > 0 {
        let ql = crate::text::lowercase(q);
        lemma_filter_query_members(d, ql);
        assert(all_of_language(m, language)) by {
            assert forall|i: int| 0 <= i < m.len() implies (#[trigger] m[i]).language == language by {
                let k = choose|k: int| 0 <= k < d.len() && d[k] == m[i];
            }
        }
    }
    if m.len() == 0 {
        assert(m =~= Seq::<PackageModel>::empty());
    }
}

// ── GitHub ───────────────────────────────────────────────────────────────────

/// Repository statistics from GitHub.
#[derive(Debug, Clone, Copy, PartialEq, Eq, Structural)]
pub struct GithubStats {
    pub stars: u32,
    pub forks: u32,
    pub issues: u32,
}

/// The outcome of a GitHub stats request.
#[derive(Debug, Clone, Copy, PartialEq, Eq, Structural)]
pub enum GhResult {
    Fetched(GithubStats),
    RateLimited,
    /// 401 Unauthorized: the token is invalid or expired.
    BadToken,
    Unavailable,
}

/// The `/`-separated path of a repository URL, without scheme, host and trailing `/`.
pub open spec fn github_path(url: Seq<char>) -> Seq<char> {
    crate::text::strip_prefix_all(
        crate::text::strip_prefix_all(
            crate::text::strip_prefix_all(crate::text::strip_suffix_all(url, seq!['/']), "https://"@),
            "http://"@,
        ),
        "github.com/"@,
    )
}

/// Owner and repository name of a GitHub URL: the first two `/`-separated parts of its
/// path, `.git` removed from the repository; `None` for other URLs or empty parts.
pub open spec fn spec_github_repo(url: Seq<char>) -> Option<(Seq<char>, Seq<char>)> {
    if !crate::text::contains_seq(url, "github.com"@) {
        None
    } else {
        let path = github_path(url);
        match crate::text::find_char(path, '/', 0) {
            None => None,
            Some(i) => {
                let owner = path.take(i);
                let repo = crate::text::strip_suffix_all(crate::text::up_to_char(path.skip(i + 1), '/'), ".git"@);
                if owner.len() == 0 || repo.len() == 0 {
                    None
                } else {
                    Some((owner, repo))
                }
            },
        }
    }
}

/// Owner and repository of a GitHub URL (see `spec_github_repo`).
pub fn github_repo(repo_url: &str) -> (r: Option<(String, String)>)
    ensures
        match r {
            Some((o, n)) => spec_github_repo(repo_url@) == Some((o@, n@)),
            None => spec_github_repo(repo_url@) is None,
        },
{
    let v = chars_of(repo_url);
    if !contains(&v, &chars_of("github.com")) {
        return None;
    }
    let len = v.len();
    assert(v@.subrange(0, len as int) =~= v@);
    let e = crate::text::strip_suffix_end(&v, 0, len, &['/']);
    assert(seq!['/'] =~= [ '/' ]@);
    let b1 = crate::text::strip_prefix_start(&v, 0, e, &chars_of("https://"));
    let b2 = crate::text::strip_prefix_start(&v, b1, e, &chars_of("http://"));
    let b3 = crate::text::strip_prefix_start(&v, b2, e, &chars_of("github.com/"));
    let ghost path = v@.subrange(b3 as int, e as int);
    assert(path == github_path(repo_url@));
    match crate::text::find_char_in(&v, b3, e, '/') {
        None => None,
        Some(i) => {
            assert(path.take(i - b3) =~= v@.subrange(b3 as int, i as int));
            assert(path.skip(i - b3 + 1) =~= v@.subrange(i + 1, e as int));
            let stop = match crate::text::find_char_in(&v, i + 1, e, '/') {
                Some(j) => {
                    assert(v@.subrange(i + 1, e as int).take(j - (i + 1)) =~= v@.subrange(
                        i + 1,
                        j as int,
                    ));
                    j
                },
                None => {
                    e
                },
            };
            let re = crate::text::strip_suffix_end(&v, i + 1, stop, &chars_of(".git"));
            if i == b3 || re == i + 1 {
                None
            } else {
                let owner = crate::text::string_from_range(&v, b3, i);
                let repo = crate::text::string_from_range(&v, i + 1, re);
                Some((owner, repo))
            }
        },
    }
}

/// The GitHub API address of a repository.
pub fn github_api_url(owner: &str, repo: &str) -> (r: String)
    ensures
        r@ == "https://api.github.com/repos/"@ + owner@ + "/"@ + repo@,
{
    let mut u = "https://api.github.com/repos/".to_owned();
    u.append(owner);
    u.append("/");
    u.append(repo);
    u
}

/// The outcome that an HTTP status decides by itself: 401 is a bad token, 403 and 429
/// a rate limit, any other status from 400 up unavailability; `None` means the body
/// holds the statistics.
pub open spec fn github_status_result_spec(status: u16) -> Option<GhResult> {
    if status == 401 {
        Some(GhResult::BadToken)
    } else if status == 403 || status == 429 {
        Some(GhResult::RateLimited)
    } else if status >= 400 {
        Some(GhResult::Unavailable)
    } else {
        None
    }
}

/// The outcome that an HTTP status decides by itself (see `github_status_result_spec`).
pub fn github_status_result(status: u16) -> (r: Option<GhResult>)
    ensures
        r == github_status_result_spec(status),
{
    if status == 401 {
        Some(GhResult::BadToken)
    } else if status == 403 || status == 429 {
        Some(GhResult::RateLimited)
    } else if status >= 400 {
        Some(GhResult::Unavailable)
    } else {
        None
    }
}

/// The outcome of a GitHub request (see `github_outcome`).
pub open spec fn spec_github_outcome(status: u16, stats: Option<GithubStats>) -> Option<GhResult> {
    match github_status_result_spec(status) {
        Some(x) => Some(x),
        None => match stats {
            Some(s) => Some(GhResult::Fetched(s)),
            None => None,
        },
    }
}

/// The outcome of a GitHub request whose answer had status `status` and whose
/// body read as `stats` (`None` when it did not): what the status decides by
/// itself, else the statistics; `None` when the statistics were needed and the
/// body did not hold them.
pub fn github_outcome(status: u16, stats: Option<GithubStats>) -> (r: Option<GhResult>)
    ensures
        r == spec_github_outcome(status, stats),
{
    match github_status_result(status) {
        Some(x) => Some(x),
        None => match stats {
            Some(s) => Some(GhResult::Fetched(s)),
            None => None,
        },
    }
}

// ── Laws ─────────────────────────────────────────────────────────────────────

/// `sort_before` is a strict order: never both ways, and transitive.
pub proof fn lemma_sort_before_strict(a: PackageModel, b: PackageModel, c: PackageModel, key: Sort)
    ensures
        !(sort_before(a, b, key) && sort_before(b, a, key)),
        sort_before(a, b, key) && sort_before(b, c, key) ==> sort_before(a, c, key),
{
    match key {
        Sort::Updated => {
            crate::text::lemma_lex_lt_trichotomy(a.updated_at, b.updated_at);
            if sort_before(a, b, key) && sort_before(b, c, key) {
                crate::text::lemma_lex_lt_transitive(c.updated_at, b.updated_at, a.updated_at);
            }
        },
        Sort::Newest => {
            crate::text::lemma_lex_lt_trichotomy(a.inserted_at, b.inserted_at);
            if sort_before(a, b, key) && sort_before(b, c, key) {
                crate::text::lemma_lex_lt_transitive(c.inserted_at, b.inserted_at, a.inserted_at);
            }
        },
        Sort::Name => {
            crate::text::lemma_lex_lt_trichotomy(a.name, b.name);
            if sort_before(a, b, key) && sort_before(b, c, key) {
                crate::text::lemma_lex_lt_transitive(a.name, b.name, c.name);
            }
        },
        _ => {},
    }
}

/// No package of a listing sorted by `key` goes strictly before one listed earlier.
pub open spec fn sorted_by_key(s: Seq<PackageModel>, key: Sort) -> bool {
    forall|i: int, j: int| 0 <= i < j < s.len() ==> !sort_before(#[trigger] s[j], #[trigger] s[i], key)
}

proof fn lemma_insert_pos_props(s: Seq<PackageModel>, x: PackageModel, key: Sort, j: int)
    requires
        0 <= j <= s.len(),
    ensures
        forall|i: int| j <= i < insert_pos(s, x, key, j) ==> !sort_before(x, #[trigger] s[i], key),
        insert_pos(s, x, key, j) < s.len() ==> sort_before(x, s[insert_pos(s, x, key, j)], key),
    decreases s.len() - j,
{
    if j < s.len() && !sort_before(x, s[j], key) {
        lemma_insert_pos_props(s, x, key, j + 1);
    }
}

/// A stable sort orders the packages by `key` and keeps every one of them, as
/// often as it occurs.
pub proof fn lemma_stable_sort(s: Seq<PackageModel>, key: Sort)
    ensures
        sorted_by_key(stable_sort(s, key), key),
        stable_sort(s, key).to_multiset() == s.to_multiset(),
    decreases s.len(),
{
    broadcast use vstd::seq_lib::group_to_multiset_ensures;
    broadcast use vstd::multiset::group_multiset_axioms;

    if s.len() > 0 {
        let t = stable_sort(s.drop_last(), key);
        let x = s.last();
        lemma_stable_sort(s.drop_last(), key);
        let p = insert_pos(t, x, key, 0);
        lemma_insert_pos_bound(t, x, key, 0);
        lemma_insert_pos_props(t, x, key, 0);
        let r = t.insert(p, x);
        assert(r == stable_sort(s, key));
        assert forall|i: int, j: int| 0 <= i < j < r.len() implies !sort_before(
            #[trigger] r[j],
            #[trigger] r[i],
            key,
        ) by {
            if j < p {
                assert(r[i] == t[i] && r[j] == t[j]);
            } else if j == p {
                assert(r[i] == t[i]);
            } else if i < p {
                assert(r[i] == t[i] && r[j] == t[j - 1]);
            } else if i == p {
                assert(r[j] == t[j - 1]);
                lemma_sort_before_strict(t[j - 1], x, t[p], key);
                if p < j - 1 {
                    assert(!sort_before(t[j - 1], t[p], key));
                } else {
                    lemma_sort_before_strict(t[p], x, t[p], key);
                }
            } else {
                assert(r[i] == t[i - 1] && r[j] == t[j - 1]);
            }
        }
        assert(t =~= t.take(p) + t.skip(p));
        assert(r =~= t.take(p).push(x) + t.skip(p));
        vstd::seq_lib::lemma_multiset_commutative(t.take(p), t.skip(p));
        vstd::seq_lib::lemma_multiset_commutative(t.take(p).push(x), t.skip(p));
        assert(s =~= s.drop_last().push(x));
        assert(r.to_multiset() =~= s.to_multiset());
    }
}

/// After de-duplication no two packages share a name.
pub proof fn lemma_dedup_unique(s: Seq<PackageModel>)
    ensures
        forall|i: int, j: int|
            0 <= i < j < dedup_by_name(s).len() ==> #[trigger] dedup_by_name(s)[i].name
                != #[trigger] dedup_by_name(s)[j].name,
        forall|i: int| 0 <= i < dedup_by_name(s).len() ==> has_name(s, #[trigger] dedup_by_name(s)[i].name),
    decreases s.len(),
{
    if s.len() > 0 {
        let t = s.drop_last();
        lemma_dedup_unique(t);
        let d = dedup_by_name(t);
        assert forall|i: int| 0 <= i < d.len() implies has_name(s, #[trigger] d[i].name) by {
            let k = choose|k: int| 0 <= k < t.len() && t[k].name == d[i].name;
            assert(s[k] == t[k]);
        }
        if !has_name(t, s.last().name) {
            let e = d.push(s.last());
            assert forall|i: int, j: int| 0 <= i < j < e.len() implies #[trigger] e[i].name
                != #[trigger] e[j].name by {
                if j == d.len() {
                    assert(e[i] == d[i]);
                    assert(has_name(t, d[i].name));
                }
            }
            assert(has_name(s, s.last().name)) by {
                assert(s[s.len() - 1] == s.last());
            }
        }
    }
}

/// De-duplicating a list whose names are distinct leaves it as it is; in
/// particular, de-duplicating twice is de-duplicating once.
pub proof fn lemma_dedup_idempotent(s: Seq<PackageModel>)
    ensures
        dedup_by_name(dedup_by_name(s)) == dedup_by_name(s),
{
    lemma_dedup_unique(s);
    lemma_dedup_distinct_identity(dedup_by_name(s));
}

proof fn lemma_dedup_distinct_identity(s: Seq<PackageModel>)
    requires
        forall|i: int, j: int| 0 <= i < j < s.len() ==> #[trigger] s[i].name != #[trigger] s[j].name,
    ensures
        dedup_by_name(s) == s,
    decreases s.len(),
{
    if s.len() > 0 {
        let t = s.drop_last();
        assert forall|i: int, j: int| 0 <= i < j < t.len() implies #[trigger] t[i].name
            != #[trigger] t[j].name by {
            assert(t[i] == s[i] && t[j] == s[j]);
        }
        lemma_dedup_distinct_identity(t);
        if has_name(t, s.last().name) {
            let k = choose|k: int| 0 <= k < t.len() && t[k].name == s.last().name;
            assert(s[k].name == s[s.len() - 1].name);
        }
        assert(t.push(s.last()) =~= s);
    }
}

// ── Laws on what the operations are for ─────────────────────────────────────

/// `into_package` copies each field of the record from the field it comes from:
/// the name; the stable version, else the latest version, else `0.0.0`; the
/// description (empty when missing); `updated_at` from `updated_at` and
/// `inserted_at` from `inserted_at` (empty when missing); the total and recent
/// download counts (0 when missing); the HEX.pm page; the licences; and the
/// versions of the releases, in order.
pub proof fn lemma_into_package_fields(r: HexRaw)
    ensures
        ({
            let p = spec_into_package(r);
            &&& p.name == r.name@
            &&& p.version == (if r.latest_stable_version is Some {
                r.latest_stable_version->0@
            } else if r.latest_version is Some {
                r.latest_version->0@
            } else {
                "0.0.0"@
            })
            &&& p.description == (if r.meta is Some && r.meta->0.description is Some {
                r.meta->0.description->0@
            } else {
                Seq::<char>::empty()
            })
            &&& p.updated_at == (if r.updated_at is Some {
                r.updated_at->0@
            } else {
                Seq::<char>::empty()
            })
            &&& p.inserted_at == (if r.inserted_at is Some {
                r.inserted_at->0@
            } else {
                Seq::<char>::empty()
            })
            &&& p.downloads_all == (if r.downloads is Some && r.downloads->0.all is Some {
                r.downloads->0.all->0
            } else {
                0
            })
            &&& p.downloads_recent == (if r.downloads is Some && r.downloads->0.recent is Some {
                r.downloads->0.recent->0
            } else {
                0
            })
            &&& p.hex_url == (if r.html_url is Some {
                Some(r.html_url->0@)
            } else {
                None::<Seq<char>>
            })
            &&& p.licenses.len() == (if r.meta is Some && r.meta->0.licenses is Some {
                r.meta->0.licenses->0@.len()
            } else {
                0
            })
            &&& forall|i: int|
                0 <= i < p.licenses.len() ==> #[trigger] p.licenses[i] == r.meta->0.licenses->0@[i]@
            &&& p.versions.len() == (if r.releases is Some {
                r.releases->0@.len()
            } else {
                0
            })
            &&& forall|i: int| 0 <= i < p.versions.len() ==> #[trigger] p.versions[i] == r.releases->0@[i].version@
            &&& r.links is None ==> p.docs_url == (if r.docs_html_url is Some {
                Some(r.docs_html_url->0@)
            } else {
                None::<Seq<char>>
            })
            &&& r.links is Some && lookup(link_views(r.links->0@), "Documentation"@) is Some ==> p.docs_url
                == lookup(link_views(r.links->0@), "Documentation"@)
            &&& p.repo_url == spec_find_repo(
                opt_links(r.links),
                if r.meta is Some {
                    opt_links(r.meta->0.links)
                } else {
                    None
                },
            )
            &&& raw_build_tools(r).contains("gleam"@) ==> p.language == Language::Gleam
            &&& !raw_build_tools(r).contains("gleam"@) && raw_build_tools(r).contains("rebar3"@)
                ==> p.language == Language::Erlang
            &&& raw_build_tools(r).len() == 1 && raw_build_tools(r)[0] == "mix"@ ==> p.language
                == Language::Elixir
            &&& raw_build_tools(r).len() == 0 ==> p.language == Language::All && p.build_tool.len() == 0
            &&& raw_build_tools(r).len() > 0 ==> p.build_tool == raw_build_tools(r)[0]
        }),
{
    reveal_strlit("mix");
    reveal_strlit("gleam");
    reveal_strlit("rebar3");
    reveal_strlit("erlang.mk");
    reveal_strlit("erlang");
    let t = raw_build_tools(r);
    if t.len() == 1 && t[0] == "mix"@ {
        assert("mix"@.len() == 3 && "gleam"@.len() == 5 && "rebar3"@.len() == 6 && "erlang.mk"@.len() == 9
            && "erlang"@.len() == 6);
        assert(t.contains("mix"@));
        assert(!t.contains("gleam"@) && !t.contains("rebar3"@) && !t.contains("erlang.mk"@)
            && !t.contains("erlang"@));
    }
}

/// Filtering by a lower-cased query keeps exactly the packages whose lower-cased
/// name or lower-cased description contains it: every such package of the input
/// is kept, every kept package is one of the input's and is such a package, the
/// order is kept, and a list whose packages all match is kept whole.
pub proof fn lemma_filter_query_law(s: Seq<PackageModel>, q: Seq<char>)
    ensures
        ({
            let r = filter_query(s, q);
            &&& forall|i: int|
                0 <= i < s.len() && (crate::text::contains_seq(crate::text::lowercase(s[i].name), q)
                    || crate::text::contains_seq(crate::text::lowercase(s[i].description), q))
                    ==> r.contains(#[trigger] s[i])
            &&& forall|j: int|
                0 <= j < r.len() ==> s.contains(#[trigger] r[j]) && (crate::text::contains_seq(
                    crate::text::lowercase(r[j].name),
                    q,
                ) || crate::text::contains_seq(crate::text::lowercase(r[j].description), q))
            &&& r.len() <= s.len()
            &&& (forall|i: int|
                0 <= i < s.len() ==> crate::text::contains_seq(crate::text::lowercase(#[trigger] s[i].name), q)
                    || crate::text::contains_seq(crate::text::lowercase(s[i].description), q)) ==> r == s
        }),
    decreases s.len(),
{
    if s.len() > 0 {
        let t = s.drop_last();
        lemma_filter_query_law(t, q);
        let f = filter_query(t, q);
        let r = filter_query(s, q);
        let x = s.last();
        assert forall|i: int|
            0 <= i < s.len() && (crate::text::contains_seq(crate::text::lowercase(s[i].name), q)
                || crate::text::contains_seq(crate::text::lowercase(s[i].description), q))
                implies r.contains(#[trigger] s[i]) by {
            if i < t.len() {
                assert(s[i] == t[i]);
                assert(f.contains(t[i]));
                let k = choose|k: int| 0 <= k < f.len() && f[k] == t[i];
                if matches_query(x, q) {
                    assert(r[k] == f[k]);
                } else {
                    assert(r == f);
                }
            } else {
                assert(s[i] == x);
                assert(r[r.len() - 1] == x);
            }
        }
        assert forall|j: int| 0 <= j < r.len() implies s.contains(#[trigger] r[j]) && (
        crate::text::contains_seq(crate::text::lowercase(r[j].name), q)
            || crate::text::contains_seq(crate::text::lowercase(r[j].description), q)) by {
            if j < f.len() {
                assert(r[j] == f[j]);
                let k = choose|k: int| 0 <= k < t.len() && t[k] == f[j];
                assert(s[k] == t[k]);
            } else {
                assert(r[j] == x);
                assert(s[s.len() - 1] == x);
            }
        }
        if forall|i: int|
            0 <= i < s.len() ==> crate::text::contains_seq(crate::text::lowercase(#[trigger] s[i].name), q)
                || crate::text::contains_seq(crate::text::lowercase(s[i].description), q) {
            assert forall|i: int|
                0 <= i < t.len() implies crate::text::contains_seq(
                crate::text::lowercase(#[trigger] t[i].name),
                q,
            ) || crate::text::contains_seq(crate::text::lowercase(t[i].description), q) by {
                assert(t[i] == s[i]);
            }
            assert(s[s.len() - 1] == x);
            assert(s =~= t.push(x));
        }
    }
}

proof fn lemma_stable_sort_of_sorted(s: Seq<PackageModel>, key: Sort)
    requires
        sorted_by_key(s, key),
    ensures
        stable_sort(s, key) == s,
    decreases s.len(),
{
    if s.len() > 0 {
        let t = s.drop_last();
        let x = s.last();
        assert(sorted_by_key(t, key)) by {
            assert forall|i: int, j: int| 0 <= i < j < t.len() implies !sort_before(
                #[trigger] t[j],
                #[trigger] t[i],
                key,
            ) by {
                assert(t[i] == s[i] && t[j] == s[j]);
            }
        }
        lemma_stable_sort_of_sorted(t, key);
        assert forall|j: int| 0 <= j < t.len() implies !sort_before(x, #[trigger] t[j], key) by {
            assert(t[j] == s[j]);
            assert(x == s[s.len() - 1]);
        }
        lemma_insert_pos_bound(t, x, key, 0);
        lemma_insert_pos_props(t, x, key, 0);
        assert(insert_pos(t, x, key, 0) == t.len());
        assert(t.insert(t.len() as int, x) =~= s);
    }
}

/// What `sort_packages` does with each HEX.pm sort parameter: it keeps every
/// package, as often as it occurs, and orders them by `downloads` most total
/// downloads first, by `recent_downloads` most recent downloads first, by `name`
/// alphabetically, by `updated_at` most recently updated first and by
/// `inserted_at` most recently published first; a list already in that order
/// stays as it is (equal packages keep their order), and any other parameter
/// leaves the list untouched.
pub proof fn lemma_sort_packages_law(s: Seq<PackageModel>, p: Seq<char>)
    ensures
        ({
            let r = spec_sort_packages(s, p);
            &&& r.to_multiset() == s.to_multiset()
            &&& p == "downloads"@ ==> (forall|i: int, j: int|
                0 <= i < j < r.len() ==> #[trigger] r[i].downloads_all >= #[trigger] r[j].downloads_all)
                && ((forall|i: int, j: int|
                0 <= i < j < s.len() ==> #[trigger] s[i].downloads_all >= #[trigger] s[j].downloads_all)
                ==> r == s)
            &&& p == "recent_downloads"@ ==> (forall|i: int, j: int|
                0 <= i < j < r.len() ==> #[trigger] r[i].downloads_recent >= #[trigger] r[j].downloads_recent)
                && ((forall|i: int, j: int|
                0 <= i < j < s.len() ==> #[trigger] s[i].downloads_recent >= #[trigger] s[j].downloads_recent)
                ==> r == s)
            &&& p == "name"@ ==> (forall|i: int, j: int|
                0 <= i < j < r.len() ==> !crate::text::lex_lt(#[trigger] r[j].name, #[trigger] r[i].name))
                && ((forall|i: int, j: int|
                0 <= i < j < s.len() ==> !crate::text::lex_lt(#[trigger] s[j].name, #[trigger] s[i].name))
                ==> r == s)
            &&& p == "updated_at"@ ==> (forall|i: int, j: int|
                0 <= i < j < r.len() ==> !crate::text::lex_lt(
                    #[trigger] r[i].updated_at,
                    #[trigger] r[j].updated_at,
                )) && ((forall|i: int, j: int|
                0 <= i < j < s.len() ==> !crate::text::lex_lt(
                    #[trigger] s[i].updated_at,
                    #[trigger] s[j].updated_at,
                )) ==> r == s)
            &&& p == "inserted_at"@ ==> (forall|i: int, j: int|
                0 <= i < j < r.len() ==> !crate::text::lex_lt(
                    #[trigger] r[i].inserted_at,
                    #[trigger] r[j].inserted_at,
                )) && ((forall|i: int, j: int|
                0 <= i < j < s.len() ==> !crate::text::lex_lt(
                    #[trigger] s[i].inserted_at,
                    #[trigger] s[j].inserted_at,
                )) ==> r == s)
            &&& !(p == "downloads"@ || p == "recent_downloads"@ || p == "name"@ || p == "updated_at"@
                || p == "inserted_at"@) ==> r == s
        }),
{
    reveal_strlit("recent_downloads");
    reveal_strlit("downloads");
    reveal_strlit("updated_at");
    reveal_strlit("inserted_at");
    reveal_strlit("name");
    assert("recent_downloads"@.len() == 16);
    assert("downloads"@.len() == 9);
    assert("updated_at"@.len() == 10);
    assert("inserted_at"@.len() == 11);
    assert("name"@.len() == 4);
    assert("updated_at"@[0] != "inserted_at"@[0]);
    match sort_of_param(p) {
        Some(k) => {
            lemma_stable_sort(s, k);
            let r = stable_sort(s, k);
            assert(sorted_by_key(r, k));
            if sorted_by_key(s, k) {
                lemma_stable_sort_of_sorted(s, k);
            }
            match k {
                Sort::Downloads => {
                    assert forall|i: int, j: int| 0 <= i < j < r.len() implies #[trigger] r[i].downloads_all
                        >= #[trigger] r[j].downloads_all by {
                        assert(!sort_before(r[j], r[i], k));
                    }
                    if forall|i: int, j: int|
                        0 <= i < j < s.len() ==> #[trigger] s[i].downloads_all >= #[trigger] s[j].downloads_all {
                        assert(sorted_by_key(s, k));
                        lemma_stable_sort_of_sorted(s, k);
                    }
                },
                Sort::RecentDownloads => {
                    assert forall|i: int, j: int| 0 <= i < j < r.len() implies #[trigger] r[i].downloads_recent
                        >= #[trigger] r[j].downloads_recent by {
                        assert(!sort_before(r[j], r[i], k));
                    }
                    if forall|i: int, j: int|
                        0 <= i < j < s.len() ==> #[trigger] s[i].downloads_recent >= #[trigger] s[j].downloads_recent {
                        assert(sorted_by_key(s, k));
                        lemma_stable_sort_of_sorted(s, k);
                    }
                },
                Sort::Name => {
                    assert forall|i: int, j: int| 0 <= i < j < r.len() implies !crate::text::lex_lt(
                        #[trigger] r[j].name,
                        #[trigger] r[i].name,
                    ) by {
                        assert(!sort_before(r[j], r[i], k));
                    }
                    if forall|i: int, j: int|
                        0 <= i < j < s.len() ==> !crate::text::lex_lt(#[trigger] s[j].name, #[trigger] s[i].name) {
                        assert(sorted_by_key(s, k));
                        lemma_stable_sort_of_sorted(s, k);
                    }
                },
                Sort::Updated => {
                    assert forall|i: int, j: int| 0 <= i < j < r.len() implies !crate::text::lex_lt(
                        #[trigger] r[i].updated_at,
                        #[trigger] r[j].updated_at,
                    ) by {
                        assert(!sort_before(r[j], r[i], k));
                    }
                    if forall|i: int, j: int|
                        0 <= i < j < s.len() ==> !crate::text::lex_lt(
                            #[trigger] s[i].updated_at,
                            #[trigger] s[j].updated_at,
                        ) {
                        assert(sorted_by_key(s, k));
                        lemma_stable_sort_of_sorted(s, k);
                    }
                },
                Sort::Newest => {
                    assert forall|i: int, j: int| 0 <= i < j < r.len() implies !crate::text::lex_lt(
                        #[trigger] r[i].inserted_at,
                        #[trigger] r[j].inserted_at,
                    ) by {
                        assert(!sort_before(r[j], r[i], k));
                    }
                    if forall|i: int, j: int|
                        0 <= i < j < s.len() ==> !crate::text::lex_lt(
                            #[trigger] s[i].inserted_at,
                            #[trigger] s[j].inserted_at,
                        ) {
                        assert(sorted_by_key(s, k));
                        lemma_stable_sort_of_sorted(s, k);
                    }
                },
            }
        },
        None => {},
    }
}

/// No `c` in `s`.
pub open spec fn lacks(s: Seq<char>, c: char) -> bool {
    forall|i: int| 0 <= i < s.len() ==> s[i] != c
}

proof fn lemma_find_split(a: Seq<char>, b: Seq<char>, c: char)
    requires
        lacks(a, c),
    ensures
        crate::text::find_char(a + seq![c] + b, c, 0) == Some(a.len() as int),
        crate::text::find_char(a, c, 0) is None,
{
    let s = a + seq![c] + b;
    crate::docs::lemma_find_char_bound(s, c, 0);
    crate::docs::lemma_find_char_bound(a, c, 0);
    assert(s[a.len() as int] == c);
    match crate::text::find_char(s, c, 0) {
        Some(i) => {
            if i < a.len() {
                assert(s[i] == a[i]);
            }
        },
        None => {},
    }
}

/// The prefixes a GitHub repository URL is written with.
pub open spec fn github_prefix(k: int) -> Seq<char> {
    if k == 0 {
        "https://github.com/"@
    } else if k == 1 {
        "http://github.com/"@
    } else {
        "github.com/"@
    }
}

proof fn lemma_github_path_tail(o: Seq<char>, rg: Seq<char>)
    requires
        o.len() > 0,
        lacks(o, '/'),
        o != "github.com"@,
    ensures
        ({
            let u1 = "github.com/"@ + o + "/"@ + rg;
            let u2 = o + "/"@ + rg;
            &&& crate::text::strip_prefix_all(u1, "https://"@) == u1
            &&& crate::text::strip_prefix_all(u1, "http://"@) == u1
            &&& crate::text::strip_prefix_all(u1, "github.com/"@) == u2
            &&& crate::text::occurs_at(u1, "github.com"@, 0)
        }),
{
    reveal_strlit("https://");
    reveal_strlit("http://");
    reveal_strlit("github.com/");
    reveal_strlit("github.com");
    reveal_strlit("/");
    let u1 = "github.com/"@ + o + "/"@ + rg;
    let u2 = o + "/"@ + rg;
    assert(u1.subrange(0, 10) =~= "github.com"@);
    assert(!crate::text::starts_with(u1, "https://"@)) by {
        if crate::text::starts_with(u1, "https://"@) {
            assert(u1.take(8)[0] == u1[0]);
        }
    }
    assert(!crate::text::starts_with(u1, "http://"@)) by {
        if crate::text::starts_with(u1, "http://"@) {
            assert(u1.take(7)[0] == u1[0]);
        }
    }
    assert(u1.skip(11) =~= u2);
    assert(crate::text::starts_with(u1, "github.com/"@)) by {
        assert(u1.take(11) =~= "github.com/"@);
    }
    assert(!crate::text::starts_with(u2, "github.com/"@)) by {
        if crate::text::starts_with(u2, "github.com/"@) {
            assert(u2.take(11) == "github.com/"@);
            if o.len() < 10 {
                assert(u2[o.len() as int] == '/');
                assert(u2.take(11)[o.len() as int] == u2[o.len() as int]);
            } else if o.len() == 10 {
                assert(o =~= "github.com"@) by {
                    assert forall|i: int| 0 <= i < 10 implies o[i] == "github.com"@[i] by {
                        assert(u2[i] == o[i]);
                        assert(u2.take(11)[i] == u2[i]);
                    }
                }
            } else {
                assert(u2[10] == o[10]);
                assert(u2.take(11)[10] == u2[10]);
            }
        }
    }
    assert(crate::text::strip_prefix_all(u2, "github.com/"@) == u2);
    assert(crate::text::strip_prefix_all(u1, "github.com/"@) == crate::text::strip_prefix_all(
        u1.skip(11),
        "github.com/"@,
    ));
}

/// What `github_repo` reads from a repository URL: for
/// `https://github.com/<owner>/<repo>`, `http://github.com/<owner>/<repo>` or
/// `github.com/<owner>/<repo>`, with or without a trailing `.git`, and with or
/// without a trailing `/`, it gives the owner and the repository name without
/// `.git` (neither part holding `/`, the name not itself ending in `.git`, and
/// the owner not `github.com`, which the prefix removal would also take away).
#[verifier::spinoff_prover]
#[verifier::rlimit(60)]
pub proof fn lemma_github_repo_law(k: int, o: Seq<char>, r: Seq<char>, git: bool, slash: bool)
    requires
        0 <= k < 3,
        o.len() > 0,
        r.len() > 0,
        lacks(o, '/'),
        lacks(r, '/'),
        o != "github.com"@,
        !crate::text::ends_with(r, ".git"@),
    ensures
        spec_github_repo(
            github_prefix(k) + o + "/"@ + r + (if git {
                ".git"@
            } else {
                ""@
            }) + (if slash {
                "/"@
            } else {
                ""@
            }),
        ) == Some((o, r)),
{
    reveal_strlit("https://github.com/");
    reveal_strlit("http://github.com/");
    reveal_strlit("https://");
    reveal_strlit("http://");
    reveal_strlit("github.com/");
    reveal_strlit("github.com");
    reveal_strlit("/");
    reveal_strlit(".git");
    reveal_strlit("");
    let g: Seq<char> = if git {
        ".git"@
    } else {
        ""@
    };
    let sl: Seq<char> = if slash {
        "/"@
    } else {
        ""@
    };
    let rg = r + g;
    let u1 = "github.com/"@ + o + "/"@ + rg;
    let u2 = o + "/"@ + rg;
    let base = if k == 0 {
        "https://"@ + u1
    } else if k == 1 {
        "http://"@ + u1
    } else {
        u1
    };
    let url = github_prefix(k) + o + "/"@ + r + g + sl;
    assert(url =~= base + sl);
    assert(lacks(rg, '/')) by {
        assert forall|i: int| 0 <= i < rg.len() implies rg[i] != '/' by {
            if i < r.len() {
                assert(rg[i] == r[i]);
            } else {
                assert(rg[i] == g[i - r.len()]);
            }
        }
    }
    lemma_github_path_tail(o, rg);
    let off: int = if k == 0 {
        8
    } else if k == 1 {
        7
    } else {
        0
    };
    assert(base.skip(off) =~= u1);
    // The URL names github.com.
    assert(crate::text::occurs_at(url, "github.com"@, off)) by {
        assert(url.subrange(off, off + 10) =~= u1.subrange(0, 10));
    }
    assert(crate::text::contains_seq(url, "github.com"@));
    // At most one trailing `/` to remove.
    assert(base.last() != '/') by {
        if git {
            assert(base.last() == 't');
        } else {
            assert(base.last() == r.last());
        }
    }
    assert(crate::text::strip_suffix_all(base, seq!['/']) == base) by {
        if crate::text::ends_with(base, seq!['/']) {
            assert(base.skip(base.len() - 1)[0] == base.last());
        }
    }
    if slash {
        assert(crate::text::ends_with(url, seq!['/'])) by {
            assert(url.skip(url.len() - 1) =~= seq!['/']);
        }
        assert(url.take(url.len() - 1) =~= base);
    } else {
        assert(url =~= base);
    }
    assert(crate::text::strip_suffix_all(url, seq!['/']) == base);
    // The scheme, then the host, are removed.
    if k == 0 {
        assert(crate::text::starts_with(base, "https://"@)) by {
            assert(base.take(8) =~= "https://"@);
        }
        assert(crate::text::strip_prefix_all(base, "https://"@) == u1);
    } else if k == 1 {
        assert(!crate::text::starts_with(base, "https://"@)) by {
            if crate::text::starts_with(base, "https://"@) {
                assert(base.take(8)[4] == base[4]);
            }
        }
        assert(crate::text::starts_with(base, "http://"@)) by {
            assert(base.take(7) =~= "http://"@);
        }
        assert(crate::text::strip_prefix_all(base, "http://"@) == u1);
    }
    assert(github_path(url) == u2);
    // Owner, then repository.
    assert(u2 =~= o + seq!['/'] + rg);
    lemma_find_split(o, rg, '/');
    assert(u2.take(o.len() as int) =~= o);
    assert(u2.skip(o.len() as int + 1) =~= rg);
    lemma_find_split(rg, Seq::empty(), '/');
    assert(crate::text::up_to_char(rg, '/') == rg);
    if git {
        assert(crate::text::ends_with(rg, ".git"@)) by {
            assert(rg.skip(rg.len() - 4) =~= ".git"@);
        }
        assert(rg.take(rg.len() - 4) =~= r);
        assert(crate::text::strip_suffix_all(rg, ".git"@) == crate::text::strip_suffix_all(r, ".git"@));
    } else {
        assert(rg =~= r);
    }
    assert(crate::text::strip_suffix_all(r, ".git"@) == r);
}

/// What a GitHub answer gives, by its status: 401 a bad token, 403 and 429 a
/// rate limit, any other status from 400 up no statistics to show; below 400 the
/// statistics the body holds, and nothing (an error) when it holds none.
pub proof fn lemma_github_outcome_law(status: u16, stats: Option<GithubStats>)
    ensures
        ({
            let r = spec_github_outcome(status, stats);
            &&& status == 401 ==> r == Some(GhResult::BadToken)
            &&& (status == 403 || status == 429) ==> r == Some(GhResult::RateLimited)
            &&& (400 <= status && status != 401 && status != 403 && status != 429) ==> r == Some(
                GhResult::Unavailable,
            )
            &&& status < 400 ==> r == (match stats {
                Some(st) => Some(GhResult::Fetched(st)),
                None => None,
            })
        }),
{
}

/// One of the link names that point at a repository.
pub open spec fn names_repository(k: Seq<char>) -> bool {
    k == "Repository"@ || k == "GitHub"@ || k == "Github"@ || k == "repository"@ || k == "github"@
        || k == "Source"@ || k == "source"@
}

/// An entry of a link map that designates a repository: under a repository name,
/// or with a GitHub or GitLab URL as its value.
pub open spec fn repo_entry(e: (Seq<char>, Seq<char>)) -> bool {
    names_repository(e.0) || crate::text::contains_seq(e.1, "github.com"@)
        || crate::text::contains_seq(e.1, "gitlab.com"@)
}

proof fn lemma_lookup_facts(m: Seq<(Seq<char>, Seq<char>)>, k: Seq<char>)
    ensures
        lookup(m, k) matches Some(v) ==> exists|i: int| 0 <= i < m.len() && m[i].0 == k && m[i].1 == v,
        lookup(m, k) is None ==> forall|i: int| 0 <= i < m.len() ==> m[i].0 != k,
        forall|i: int| 0 <= i < m.len() && m[i].0 == k && (forall|j: int| 0 <= j < i ==> m[j].0 != k)
            ==> lookup(m, k) == Some(m[i].1),
    decreases m.len(),
{
    if m.len() > 0 {
        let t = m.drop_first();
        lemma_lookup_facts(t, k);
        if m[0].0 != k {
            if let Some(v) = lookup(m, k) {
                let i = choose|i: int| 0 <= i < t.len() && t[i].0 == k && t[i].1 == v;
                assert(m[i + 1] == t[i]);
            }
            if lookup(m, k) is None {
                assert forall|i: int| 0 <= i < m.len() implies m[i].0 != k by {
                    if i > 0 {
                        assert(m[i] == t[i - 1]);
                    }
                }
            }
            assert forall|i: int|
                0 <= i < m.len() && m[i].0 == k && (forall|j: int| 0 <= j < i ==> m[j].0 != k) implies lookup(
                m,
                k,
            ) == Some(m[i].1) by {
                assert(i > 0);
                assert(m[i] == t[i - 1]);
                assert forall|j: int| 0 <= j < i - 1 implies t[j].0 != k by {
                    assert(t[j] == m[j + 1]);
                }
            }
        }
    }
}

proof fn lemma_lookup_first_key_facts(m: Seq<(Seq<char>, Seq<char>)>, keys: Seq<Seq<char>>)
    ensures
        lookup_first_key(m, keys) matches Some(v) ==> exists|i: int|
            0 <= i < m.len() && keys.contains(m[i].0) && m[i].1 == v,
        lookup_first_key(m, keys) is None ==> forall|i: int| 0 <= i < m.len() ==> !keys.contains(m[i].0),
    decreases keys.len(),
{
    if keys.len() > 0 {
        lemma_lookup_facts(m, keys[0]);
        lemma_lookup_first_key_facts(m, keys.drop_first());
        if let Some(v) = lookup(m, keys[0]) {
            let i = choose|i: int| 0 <= i < m.len() && m[i].0 == keys[0] && m[i].1 == v;
            assert(keys.contains(m[i].0));
        } else {
            if let Some(v) = lookup_first_key(m, keys.drop_first()) {
                let i = choose|i: int| 0 <= i < m.len() && keys.drop_first().contains(m[i].0) && m[i].1 == v;
                let j = choose|j: int| 0 <= j < keys.drop_first().len() && keys.drop_first()[j] == m[i].0;
                assert(keys[j + 1] == m[i].0);
            } else {
                assert forall|i: int| 0 <= i < m.len() implies !keys.contains(m[i].0) by {
                    if keys.contains(m[i].0) {
                        let j = choose|j: int| 0 <= j < keys.len() && keys[j] == m[i].0;
                        if j > 0 {
                            assert(keys.drop_first()[j - 1] == m[i].0);
                        }
                    }
                }
            }
        }
    }
}

proof fn lemma_first_forge_facts(m: Seq<(Seq<char>, Seq<char>)>)
    ensures
        first_forge_value(m) matches Some(v) ==> exists|i: int| 0 <= i < m.len() && m[i].1 == v && is_forge_url(v),
        first_forge_value(m) is None ==> forall|i: int| 0 <= i < m.len() ==> !is_forge_url(m[i].1),
    decreases m.len(),
{
    if m.len() > 0 {
        let t = m.drop_first();
        lemma_first_forge_facts(t);
        if !is_forge_url(m[0].1) {
            if let Some(v) = first_forge_value(t) {
                let i = choose|i: int| 0 <= i < t.len() && t[i].1 == v && is_forge_url(v);
                assert(m[i + 1] == t[i]);
            } else {
                assert forall|i: int| 0 <= i < m.len() implies !is_forge_url(m[i].1) by {
                    if i > 0 {
                        assert(m[i] == t[i - 1]);
                    }
                }
            }
        }
    }
}

proof fn lemma_repo_keys_names()
    ensures
        forall|k: Seq<char>| repo_keys().contains(k) <==> names_repository(k),
{
    assert forall|k: Seq<char>| repo_keys().contains(k) <==> names_repository(k) by {
        if names_repository(k) {
            if k == "Repository"@ {
                assert(repo_keys()[0] == k);
            } else if k == "GitHub"@ {
                assert(repo_keys()[1] == k);
            } else if k == "Github"@ {
                assert(repo_keys()[2] == k);
            } else if k == "repository"@ {
                assert(repo_keys()[3] == k);
            } else if k == "github"@ {
                assert(repo_keys()[4] == k);
            } else if k == "Source"@ {
                assert(repo_keys()[5] == k);
            } else {
                assert(repo_keys()[6] == k);
            }
        }
    }
}

proof fn lemma_repo_in_facts(m: Seq<(Seq<char>, Seq<char>)>)
    ensures
        repo_in(m) matches Some(v) ==> exists|i: int| 0 <= i < m.len() && m[i].1 == v && repo_entry(m[i]),
        repo_in(m) is None ==> forall|i: int| 0 <= i < m.len() ==> !repo_entry(#[trigger] m[i]),
        lookup(m, "Repository"@) matches Some(v) ==> repo_in(m) == Some(v),
{
    lemma_repo_keys_names();
    lemma_lookup_first_key_facts(m, repo_keys());
    lemma_first_forge_facts(m);
    if let Some(v) = lookup(m, "Repository"@) {
        assert(repo_keys()[0] == "Repository"@);
        assert(repo_keys().drop_first().len() == 6);
    }
}

/// Where `find_repo` finds a package's repository: a `Repository` link among the
/// top-level links is taken first; a repository found is always the value of an
/// entry of the top-level or the metadata links that is named as a repository
/// (`Repository`, `GitHub`, `Github`, `repository`, `github`, `Source`,
/// `source`) or is a GitHub or GitLab URL, and the top-level links are preferred:
/// the metadata links give the repository only when the top-level links hold no
/// such entry; when neither holds one there is none.
pub proof fn lemma_find_repo_law(
    top: Option<Seq<(Seq<char>, Seq<char>)>>,
    meta: Option<Seq<(Seq<char>, Seq<char>)>>,
)
    ensures
        top is Some && lookup(top->0, "Repository"@) is Some ==> spec_find_repo(top, meta) == lookup(
            top->0,
            "Repository"@,
        ),
        spec_find_repo(top, meta) matches Some(u) ==> (top matches Some(m) && exists|i: int|
            0 <= i < m.len() && m[i].1 == u && repo_entry(m[i])) || (meta matches Some(m) && exists|i: int|
            0 <= i < m.len() && m[i].1 == u && repo_entry(m[i])),
        top is Some && (exists|i: int| 0 <= i < top->0.len() && repo_entry(#[trigger] top->0[i]))
            ==> spec_find_repo(top, meta) == repo_in(top->0),
        (top matches Some(m) ==> forall|i: int| 0 <= i < m.len() ==> !repo_entry(#[trigger] m[i])) && (
        meta matches Some(m) ==> forall|i: int| 0 <= i < m.len() ==> !repo_entry(#[trigger] m[i]))
            ==> spec_find_repo(top, meta) is None,
{
    if let Some(m) = top {
        lemma_repo_in_facts(m);
    }
    if let Some(m) = meta {
        lemma_repo_in_facts(m);
    }
}

} // verus!
