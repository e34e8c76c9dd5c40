//! Snapshot bookkeeping: the persisted configuration, snapshot file names,
//! which snapshots a retention window removes, and the storage status report.
//!
//! The directory itself is read and written by the application; this module
//! decides over the file names (and sizes) it is handed.

use vstd::prelude::*;
use crate::text::opt_view;
use vstd::relations::sorted_by;
use crate::strmap::StrMap;
use crate::text::{
    chars_of, ends_with, find_char, find_char_in, has_prefix, has_suffix, lex_le_rel, lex_order,
    starts_with, string_from_range,
};
use crate::types::{views, ColorScheme, Language, LinkStyle};

verus! {

// ── Configuration ────────────────────────────────────────────────────────────

/// The user's storage and display settings, kept in `meta.json`.
#[derive(Debug, Clone, Copy, PartialEq, Eq, Structural)]
pub struct StorageConfig {
    /// Number of weeks to retain snapshots. `0` disables snapshot writing.
    pub keep_weeks: u32,
    /// Gzip compress snapshots.
    pub compress: bool,
    pub color_scheme: ColorScheme,
    /// Language opened when `--lang` is not given.
    pub default_language: Language,
    /// How the selected link is highlighted in the detail view.
    pub link_style: LinkStyle,
}

impl StorageConfig {
    pub open spec fn spec_default() -> StorageConfig {
        StorageConfig {
            keep_weeks: 12,
            compress: false,
            color_scheme: ColorScheme::Default,
            default_language: Language::Gleam,
            link_style: LinkStyle::Cursor,
        }
    }
}

impl Default for StorageConfig {
    /// Twelve weeks of snapshots, uncompressed, default colours, Gleam, cursor links.
    fn default() -> (r: StorageConfig)
        ensures
            r == StorageConfig::spec_default(),
    {
        StorageConfig {
            keep_weeks: 12,
            compress: false,
            color_scheme: ColorScheme::Default,
            default_language: Language::Gleam,
            link_style: LinkStyle::Cursor,
        }
    }
}

/// The digest table of a fresh `meta.json`: every language's name, never run.
pub open spec fn never_digested(langs: Seq<Language>) -> Map<Seq<char>, Option<String>>
    decreases langs.len(),
{
    if langs.len() == 0 {
        Map::empty()
    } else {
        never_digested(langs.drop_last()).insert(langs.last().spec_name(), None)
    }
}

/// The contents of `meta.json`.
pub struct Meta {
    pub schema_version: u8,
    pub app_version: String,
    pub config: StorageConfig,
    /// Date and time of the last prune run.
    pub last_prune: Option<String>,
    /// Date and time of the last digest per language name (`None` = never run).
    pub last_digest: StrMap<Option<String>>,
}

impl Default for Meta {
    /// Schema 1, this version, the default configuration, never pruned, and every
    /// language listed as never digested.
    fn default() -> (r: Meta)
        ensures
            r.schema_version == 1,
            r.app_version@ == "0.1.3"@,
            r.config == StorageConfig::spec_default(),
            r.last_prune is None,
            r.last_digest@ == never_digested(
                seq![Language::Gleam, Language::Elixir, Language::Erlang, Language::All],
            ),
    {
        let langs = Language::all();
        let mut last_digest: StrMap<Option<String>> = StrMap::new();
        let mut i: usize = 0;
        while i < langs.len()
            invariant
                i <= langs@.len(),
                langs@ == seq![Language::Gleam, Language::Elixir, Language::Erlang, Language::All],
                last_digest@ == never_digested(langs@.take(i as int)),
            decreases langs@.len() - i,
        {
            assert(langs@.take(i + 1).drop_last() =~= langs@.take(i as int));
            last_digest.insert(langs[i].name().to_owned(), None);
            i = i + 1;
        }
        assert(langs@.take(i as int) =~= langs@);
        Meta {
            schema_version: 1,
            app_version: "0.1.3".to_owned(),
            config: StorageConfig::default(),
            last_prune: None,
            last_digest,
        }
    }
}

// ── Snapshot file names ──────────────────────────────────────────────────────

/// `{lang}_{date}.json`.
pub fn snapshot_filename(lang: Language, date: &str) -> (r: String)
    ensures
        r@ == lang.spec_name() + seq!['_'] + date@ + seq!['.', 'j', 's', 'o', 'n'],
{
    let mut s = lang.name().to_owned();
    s.append("_");
    s.append(date);
    s.append(".json");
    proof {
        reveal_strlit("_");
        reveal_strlit(".json");
    }
    s
}

/// A file name that holds a snapshot of `lang`: `{lang}_…​.json`.
pub open spec fn is_snapshot_of(name: Seq<char>, lang: Language) -> bool {
    starts_with(name, lang.spec_name().push('_')) && ends_with(name, seq!['.', 'j', 's', 'o', 'n'])
}

/// Index of the last `.` in `s`.
pub open spec fn last_dot(s: Seq<char>) -> Option<int>
    decreases s.len(),
{
    if s.len() == 0 {
        None
    } else if s.last() == '.' {
        Some(s.len() - 1)
    } else {
        last_dot(s.drop_last())
    }
}

/// `Path::file_stem` of a file name: the part before the last `.`; the whole name
/// when its only `.` leads it, when it has none, and for `..`.
pub open spec fn file_stem(name: Seq<char>) -> Seq<char> {
    if name == seq!['.', '.'] {
        name
    } else {
        match last_dot(name) {
            Some(i) => if i == 0 {
                name
            } else {
                name.take(i)
            },
            None => name,
        }
    }
}

/// The date part of a snapshot file name: what follows the first `_` of its stem,
/// or nothing when the stem has no `_`.
pub open spec fn date_part(name: Seq<char>) -> Seq<char> {
    let stem = file_stem(name);
    match find_char(stem, '_', 0) {
        Some(i) => stem.skip(i + 1),
        None => Seq::empty(),
    }
}

/// Length of the stem of the file name `v`.
fn stem_len(v: &[char]) -> (r: usize)
    ensures
        r <= v@.len(),
        v@.take(r as int) == file_stem(v@),
{
    if v.len() == 2 && v[0] == '.' && v[1] == '.' {
        assert(v@ =~= seq!['.', '.']);
        assert(v@.take(2) =~= v@);
        return 2;
    }
    let mut i: usize = v.len();
    assert(v@.take(i as int) =~= v@);
    while i > 0 && v[i - 1] != '.'
        invariant
            i <= v@.len(),
            last_dot(v@) == last_dot(v@.take(i as int)),
        decreases i,
    {
        assert(v@.take(i as int).drop_last() =~= v@.take(i - 1));
        i = i - 1;
    }
    if i <= 1 {
        proof {
            if i == 1 {
                assert(v@.take(1).last() == '.');
            }
        }
        assert(v@.take(v@.len() as int) =~= v@);
        v.len()
    } else {
        assert(v@.take(i as int).last() == '.');
        i - 1
    }
}

/// The date part of the snapshot file name `name` (see `date_part`).
pub fn snapshot_date(name: &str) -> (r: String)
    ensures
        r@ == date_part(name@),
{
    let v = chars_of(name);
    let s = stem_len(&v);
    assert(v@.subrange(0, s as int) =~= v@.take(s as int));
    match find_char_in(&v, 0, s, '_') {
        Some(i) => {
            let r = string_from_range(&v, i + 1, s);
            assert(v@.subrange(i + 1, s as int) =~= file_stem(name@).skip(i + 1));
            r
        },
        None => {
            let r = String::new();
            assert(r@ =~= Seq::<char>::empty());
            r
        },
    }
}

// ── Listing ──────────────────────────────────────────────────────────────────

/// The snapshot files of `lang` among the file names `names`, in name order; names
/// carry the date as `YYYYMMDD`, so this is oldest first.
pub open spec fn spec_snapshot_files(names: Seq<Seq<char>>, lang: Language) -> Seq<Seq<char>> {
    names.filter(snapshot_pred(lang)).sort_by(lex_le_rel())
}

/// `is_snapshot_of` for a fixed language, as a predicate value.
pub open spec fn snapshot_pred(lang: Language) -> spec_fn(Seq<char>) -> bool {
    |n: Seq<char>| is_snapshot_of(n, lang)
}

/// Whether `name` (as characters) is a snapshot file of `lang`.
fn is_snapshot_name(v: &[char], lang: Language) -> (r: bool)
    ensures
        r == is_snapshot_of(v@, lang),
{
    let mut prefix = chars_of(lang.name());
    prefix.push('_');
    let suffix = chars_of(".json");
    proof {
        reveal_strlit(".json");
        assert(suffix@ =~= seq!['.', 'j', 's', 'o', 'n']);
    }
    has_prefix(v, &prefix) && has_suffix(v, &suffix)
}

/// `sorted` with `x` inserted before the first element that sorts after it.
fn insert_sorted(sorted: &mut Vec<String>, x: String)
    requires
        sorted_by(views(old(sorted)@), lex_le_rel()),
    ensures
        sorted_by(views(final(sorted)@), lex_le_rel()),
        views(final(sorted)@).to_multiset() == views(old(sorted)@).to_multiset().insert(x@),
{
    proof {
        crate::text::lemma_lex_le_total();
    }
    let xv = chars_of(x.as_str());
    let mut j: usize = 0;
    let mut found = false;
    while j < sorted.len() && !found
        invariant
            j <= sorted@.len(),
            sorted@ == old(sorted)@,
            xv@ == x@,
            vstd::relations::total_ordering(lex_le_rel()),
            forall|k: int| 0 <= k < j ==> #[trigger] lex_le_rel()(sorted@[k]@, x@),
            found ==> j < sorted@.len() && crate::text::lex_lt(x@, sorted@[j as int]@),
        decreases sorted@.len() - j + (if found { 0int } else { 1int }),
    {
        let c = lex_order(&chars_of(sorted[j].as_str()), &xv);
        if c == 1 {
            found = true;
        } else {
            assert(lex_le_rel()(sorted@[j as int]@, x@));
            j = j + 1;
        }
    }
    let ghost before = views(sorted@);
    proof {
        if j < sorted@.len() {
            crate::text::lemma_lex_lt_trichotomy(sorted@[j as int]@, x@);
            assert(lex_le_rel()(x@, sorted@[j as int]@));
            assert forall|k: int| j <= k < before.len() implies #[trigger] lex_le_rel()(x@, before[k]) by {
                assert(lex_le_rel()(before[j as int], before[k]));
            }
        }
    }
    sorted.insert(j, x);
    proof {
        let after = views(sorted@);
        assert(after =~= before.insert(j as int, x@));
        assert(before =~= before.take(j as int) + before.skip(j as int));
        assert(after =~= before.take(j as int).push(x@) + before.skip(j as int));
        vstd::seq_lib::lemma_multiset_commutative(before.take(j as int), before.skip(j as int));
        vstd::seq_lib::lemma_multiset_commutative(before.take(j as int).push(x@), before.skip(j as int));
        broadcast use vstd::seq_lib::group_to_multiset_ensures;
        broadcast use vstd::multiset::group_multiset_axioms;
        assert(after.to_multiset() =~= before.to_multiset().insert(x@));
        assert forall|a: int, b: int| 0 <= a < b < after.len() implies #[trigger] lex_le_rel()(after[a], after[b]) by {
            if b < j {
            } else if b == j {
            } else if a < j {
                assert(lex_le_rel()(after[a], x@));
                assert(lex_le_rel()(x@, after[b]));
            } else if a == j {
            } else {
                assert(after[a] == before[a - 1]);
                assert(after[b] == before[b - 1]);
            }
        }
    }
}

/// The snapshot files of `lang` among `names`, oldest first.
pub fn snapshot_files(names: &[String], lang: Language) -> (r: Vec<String>)
    ensures
        views(r@) == spec_snapshot_files(views(names@), lang),
{
    let ghost pred = snapshot_pred(lang);
    let mut picked: Vec<String> = Vec::new();
    let mut i: usize = 0;
    assert(views(names@).take(0).filter(pred) =~= Seq::<Seq<char>>::empty()) by {
        reveal(Seq::filter);
    }
    assert(views(picked@) =~= Seq::<Seq<char>>::empty());
    while i < names.len()
        invariant
            i <= names@.len(),
            pred == snapshot_pred(lang),
            views(picked@) == views(names@).take(i as int).filter(pred),
        decreases names@.len() - i,
    {
        let ghost t = views(names@).take(i + 1);
        assert(t.drop_last() =~= views(names@).take(i as int));
        assert(t.last() == names@[i as int]@);
        assert(t.filter(pred) == if pred(t.last()) {
            t.drop_last().filter(pred).push(t.last())
        } else {
            t.drop_last().filter(pred)
        }) by {
            reveal(Seq::filter);
        }
        let v = chars_of(names[i].as_str());
        assert(v@ == t.last());
        if is_snapshot_name(&v, lang) {
            assert(pred(t.last()));
            picked.push(names[i].clone());
            assert(views(picked@) =~= views(names@).take(i as int).filter(pred).push(names@[i as int]@));
            assert(views(picked@) == t.filter(pred));
        } else {
            assert(!pred(t.last()));
            assert(views(picked@) == t.filter(pred));
        }
        i = i + 1;
    }
    assert(views(names@).take(i as int) =~= views(names@));
    sort_names(picked)
}

/// `v` sorted by name.
fn sort_names(v: Vec<String>) -> (r: Vec<String>)
    ensures
        views(r@) == views(v@).sort_by(lex_le_rel()),
{
    let ghost filtered = views(v@);
    let mut out: Vec<String> = Vec::new();
    let mut k: usize = 0;
    assert(views(out@) =~= filtered.take(0));
    while k < v.len()
        invariant
            k <= v@.len(),
            filtered == views(v@),
            sorted_by(views(out@), lex_le_rel()),
            views(out@).to_multiset() == filtered.take(k as int).to_multiset(),
        decreases v@.len() - k,
    {
        assert(filtered.take(k + 1) =~= filtered.take(k as int).push(filtered[k as int]));
        proof {
            vstd::seq_lib::to_multiset_build(filtered.take(k as int), filtered[k as int]);
        }
        insert_sorted(&mut out, v[k].clone());
        k = k + 1;
    }
    assert(filtered.take(k as int) =~= filtered);
    proof {
        crate::text::lemma_lex_le_total();
        filtered.lemma_sort_by_ensures(lex_le_rel());
        vstd::seq_lib::lemma_sorted_unique(views(out@), filtered.sort_by(lex_le_rel()), lex_le_rel());
    }
    out
}

/// The most recent snapshot file of `lang` among `names`.
pub fn latest_snapshot(names: &[String], lang: Language) -> (r: Option<String>)
    ensures
        ({
            let files = spec_snapshot_files(views(names@), lang);
            match r {
                Some(n) => files.len() > 0 && n@ == files.last(),
                None => files.len() == 0,
            }
        }),
{
    let files = snapshot_files(names, lang);
    if files.len() == 0 {
        None
    } else {
        Some(files[files.len() - 1].clone())
    }
}

/// The second most recent snapshot file of `lang` among `names` (the one a diff
/// compares against).
pub fn previous_snapshot(names: &[String], lang: Language) -> (r: Option<String>)
    ensures
        ({
            let files = spec_snapshot_files(views(names@), lang);
            match r {
                Some(n) => files.len() >= 2 && n@ == files[files.len() - 2],
                None => files.len() < 2,
            }
        }),
{
    let files = snapshot_files(names, lang);
    if files.len() < 2 {
        None
    } else {
        Some(files[files.len() - 2].clone())
    }
}

// ── GitHub token ─────────────────────────────────────────────────────────────

/// The GitHub token in effect: `GITHUB_TOKEN` from the environment (`env`) when it
/// is set and not empty, else the stored one.
pub fn effective_token(env: Option<String>, stored: Option<String>) -> (r: Option<String>)
    ensures
        r == (if env is Some && env->0@.len() > 0 {
            env
        } else {
            stored
        }),
{
    match env {
        Some(t) => if t.unicode_len() > 0 {
            Some(t)
        } else {
            stored
        },
        None => stored,
    }
}

// ── Dates and retention ──────────────────────────────────────────────────────

/// Day number of the earliest date chrono represents, `NaiveDate::MIN`
/// (January 1 of year 1 is day 1).
pub const MIN_DAY: i64 = -95746129;

/// What `chrono::NaiveDate::parse_from_str(s, "%Y%m%d")` gives, taken by its day number.
pub uninterp spec fn ymd_day(s: Seq<char>) -> Option<int>;

/// `chrono::NaiveDate::parse_from_str(s, "%Y%m%d")`, the parsed date converted to its day
/// number by `Datelike::num_days_from_ce` (consecutive dates get consecutive numbers, so
/// dates compare as their numbers do). The contract names the result and says nothing
/// more of it: chrono's parsing rules are chrono's.
#[verifier::external_body]
fn parse_date(s: &str) -> (r: Option<i32>)
    ensures
        ymd_day(s@) == match r {
            Some(d) => Some(d as int),
            None => None::<int>,
        },
{
    match chrono::NaiveDate::parse_from_str(s, "%Y%m%d") {
        Ok(d) => Some(chrono::Datelike::num_days_from_ce(&d)),
        Err(_) => None,
    }
}

/// Today in the local time zone, `chrono::Local::now().date_naive()`, as its day number
/// (`Datelike::num_days_from_ce`). Which day it is depends on the clock and the time
/// zone and is not stated; it is a `NaiveDate`, so its number is at least that of
/// `NaiveDate::MIN`.
#[verifier::external_body]
fn local_today() -> (r: i32)
    ensures
        r >= MIN_DAY,
{
    chrono::Datelike::num_days_from_ce(&chrono::Local::now().date_naive())
}

/// The first day a retention window of `keep_weeks` weeks ending on `today` keeps;
/// `None` where that day would precede the earliest date chrono represents (there
/// chrono's date subtraction panics).
pub open spec fn spec_cutoff(today: int, keep_weeks: nat) -> Option<int> {
    if today - 7 * keep_weeks >= MIN_DAY {
        Some(today - 7 * keep_weeks)
    } else {
        None
    }
}

/// The first day kept by a window of `keep_weeks` weeks ending on `today`.
pub fn retention_cutoff(today: i32, keep_weeks: u32) -> (r: Option<i64>)
    ensures
        match r {
            Some(c) => spec_cutoff(today as int, keep_weeks as nat) == Some(c as int),
            None => spec_cutoff(today as int, keep_weeks as nat) is None,
        },
{
    let c: i64 = today as i64 - 7 * (keep_weeks as i64);
    if c >= MIN_DAY {
        Some(c)
    } else {
        None
    }
}

/// `r` is what `retention_cutoff` gives for `today` and `keep_weeks`.
pub open spec fn is_cutoff_on(r: Option<i64>, today: int, keep_weeks: nat) -> bool {
    match r {
        Some(c) => spec_cutoff(today, keep_weeks) == Some(c as int),
        None => spec_cutoff(today, keep_weeks) is None,
    }
}

/// The cutoff of a window of `keep_weeks` weeks ending today (local time): the
/// `retention_cutoff` of the day the clock gives, which is a representable date; so a
/// window of no weeks always has its cutoff (today).
pub fn cutoff_today(keep_weeks: u32) -> (r: Option<i64>)
    ensures
        exists|today: i32| today >= MIN_DAY && #[trigger] is_cutoff_on(r, today as int, keep_weeks as nat),
        keep_weeks == 0 ==> r is Some,
        r matches Some(c) ==> c >= MIN_DAY,
{
    let today = local_today();
    let r = retention_cutoff(today, keep_weeks);
    assert(is_cutoff_on(r, today as int, keep_weeks as nat));
    r
}

/// A file that a window starting on day `cutoff` no longer keeps: one whose date part
/// parses to an earlier day. Files without a parsable date are kept.
pub open spec fn expired(name: Seq<char>, cutoff: int) -> bool {
    match ymd_day(date_part(name)) {
        Some(d) => d < cutoff,
        None => false,
    }
}

/// `expired` for a fixed cutoff, as a predicate value.
pub open spec fn expired_pred(cutoff: int) -> spec_fn(Seq<char>) -> bool {
    |n: Seq<char>| expired(n, cutoff)
}

/// Whether the file `name` is dated before `cutoff`.
pub fn is_expired(name: &str, cutoff: i64) -> (r: bool)
    ensures
        r == expired(name@, cutoff as int),
{
    let d = snapshot_date(name);
    match parse_date(d.as_str()) {
        Some(day) => (day as i64) < cutoff,
        None => false,
    }
}

/// The names among `files` dated before `cutoff`, in their order.
fn keep_expired(files: &[String], cutoff: i64) -> (r: Vec<String>)
    ensures
        views(r@) == views(files@).filter(expired_pred(cutoff as int)),
{
    let ghost pred = expired_pred(cutoff as int);
    let mut out: Vec<String> = Vec::new();
    let mut i: usize = 0;
    assert(views(files@).take(0).filter(pred) =~= Seq::<Seq<char>>::empty()) by {
        reveal(Seq::filter);
    }
    assert(views(out@) =~= Seq::<Seq<char>>::empty());
    while i < files.len()
        invariant
            i <= files@.len(),
            pred == expired_pred(cutoff as int),
            views(out@) == views(files@).take(i as int).filter(pred),
        decreases files@.len() - i,
    {
        let ghost t = views(files@).take(i + 1);
        assert(t.drop_last() =~= views(files@).take(i as int));
        assert(t.last() == files@[i as int]@);
        assert(t.filter(pred) == if pred(t.last()) {
            t.drop_last().filter(pred).push(t.last())
        } else {
            t.drop_last().filter(pred)
        }) by {
            reveal(Seq::filter);
        }
        if is_expired(files[i].as_str(), cutoff) {
            out.push(files[i].clone());
            assert(views(out@) =~= views(files@).take(i as int).filter(pred).push(files@[i as int]@));
        }
        i = i + 1;
    }
    assert(views(files@).take(i as int) =~= views(files@));
    out
}

/// The snapshot files of `lang` that a `keep_weeks`-week window ending on `today`
/// removes, oldest first; none when `keep_weeks` is 0 (retention disabled).
pub open spec fn spec_prune(names: Seq<Seq<char>>, lang: Language, keep_weeks: nat, today: int) -> Seq<
    Seq<char>,
> {
    if keep_weeks == 0 {
        Seq::empty()
    } else {
        spec_snapshot_files(names, lang).filter(
            expired_pred(spec_cutoff(today, keep_weeks).unwrap()),
        )
    }
}

/// The snapshot files of `lang` among `names` that are older than `keep_weeks` weeks
/// on `today`: the files to remove.
pub fn prune(names: &[String], lang: Language, keep_weeks: u32, today: i32) -> (r: Vec<String>)
    requires
        keep_weeks > 0 ==> spec_cutoff(today as int, keep_weeks as nat) is Some,
    ensures
        views(r@) == spec_prune(views(names@), lang, keep_weeks as nat, today as int),
{
    if keep_weeks == 0 {
        let r: Vec<String> = Vec::new();
        assert(views(r@) =~= Seq::<Seq<char>>::empty());
        return r;
    }
    let cutoff = match retention_cutoff(today, keep_weeks) {
        Some(c) => c,
        None => {
            return Vec::new();
        },
    };
    let files = snapshot_files(names, lang);
    keep_expired(&files, cutoff)
}

/// The files `prune` removes for each of `langs`, one language after the other.
pub open spec fn spec_prune_langs(
    names: Seq<Seq<char>>,
    langs: Seq<Language>,
    keep_weeks: nat,
    today: int,
) -> Seq<Seq<char>>
    decreases langs.len(),
{
    if langs.len() == 0 {
        Seq::empty()
    } else {
        spec_prune_langs(names, langs.drop_last(), keep_weeks, today) + spec_prune(
            names,
            langs.last(),
            keep_weeks,
            today,
        )
    }
}

/// `prune` for every language, in tab order.
pub fn prune_all(names: &[String], keep_weeks: u32, today: i32) -> (r: Vec<String>)
    requires
        keep_weeks > 0 ==> spec_cutoff(today as int, keep_weeks as nat) is Some,
    ensures
        views(r@) == spec_prune_langs(
            views(names@),
            seq![Language::Gleam, Language::Elixir, Language::Erlang, Language::All],
            keep_weeks as nat,
            today as int,
        ),
{
    let langs = Language::all();
    let mut all: Vec<String> = Vec::new();
    let mut i: usize = 0;
    assert(views(all@) =~= Seq::<Seq<char>>::empty());
    while i < langs.len()
        invariant
            i <= langs@.len(),
            langs@ == seq![Language::Gleam, Language::Elixir, Language::Erlang, Language::All],
            keep_weeks > 0 ==> spec_cutoff(today as int, keep_weeks as nat) is Some,
            views(all@) == spec_prune_langs(views(names@), langs@.take(i as int), keep_weeks as nat, today as int),
        decreases langs@.len() - i,
    {
        assert(langs@.take(i + 1).drop_last() =~= langs@.take(i as int));
        let mut part = prune(names, langs[i], keep_weeks, today);
        let ghost before = all@;
        let ghost p = part@;
        all.append(&mut part);
        assert(views(all@) =~= views(before) + views(p));
        i = i + 1;
    }
    assert(langs@.take(i as int) =~= langs@);
    all
}

/// Every file among `names` (of any language) that a `keep_weeks`-week window ending on
/// `today` removes, in name order; none when `keep_weeks` is 0.
pub open spec fn spec_stale(names: Seq<Seq<char>>, keep_weeks: nat, today: int) -> Seq<Seq<char>> {
    if keep_weeks == 0 {
        Seq::empty()
    } else {
        names.filter(expired_pred(spec_cutoff(today, keep_weeks).unwrap())).sort_by(lex_le_rel())
    }
}

/// The files among `names` that `storage prune` lists and removes.
pub fn stale_files(names: &[String], keep_weeks: u32, today: i32) -> (r: Vec<String>)
    requires
        keep_weeks > 0 ==> spec_cutoff(today as int, keep_weeks as nat) is Some,
    ensures
        views(r@) == spec_stale(views(names@), keep_weeks as nat, today as int),
{
    if keep_weeks == 0 {
        let r: Vec<String> = Vec::new();
        assert(views(r@) =~= Seq::<Seq<char>>::empty());
        return r;
    }
    let cutoff = match retention_cutoff(today, keep_weeks) {
        Some(c) => c,
        None => {
            return Vec::new();
        },
    };
    let stale = keep_expired(names, cutoff);
    sort_names(stale)
}

/// The names in `r`, if any.
pub open spec fn names_view(r: Option<Vec<String>>) -> Option<Seq<Seq<char>>> {
    match r {
        Some(v) => Some(views(v@)),
        None => None,
    }
}

/// `r` is what `stale_files` gives on day `today`, or `None` when the window of
/// `keep_weeks` (more than none) would reach before the earliest representable date.
pub open spec fn is_stale_on(r: Option<Seq<Seq<char>>>, names: Seq<Seq<char>>, keep_weeks: nat, today: int) -> bool {
    if keep_weeks > 0 && spec_cutoff(today, keep_weeks) is None {
        r is None
    } else {
        r == Some(spec_stale(names, keep_weeks, today))
    }
}

/// `stale_files` on today's date (local time), which is a representable date; `None`
/// where the window would reach before the earliest date chrono represents (never
/// for a window of no weeks).
pub fn stale_files_today(names: &[String], keep_weeks: u32) -> (r: Option<Vec<String>>)
    ensures
        exists|today: i32| today >= MIN_DAY && #[trigger] is_stale_on(
            names_view(r),
            views(names@),
            keep_weeks as nat,
            today as int,
        ),
        keep_weeks == 0 ==> r is Some,
{
    let today = local_today();
    if keep_weeks > 0 && retention_cutoff(today, keep_weeks).is_none() {
        assert(is_stale_on(names_view(None), views(names@), keep_weeks as nat, today as int));
        return None;
    }
    let r = Some(stale_files(names, keep_weeks, today));
    assert(is_stale_on(names_view(r), views(names@), keep_weeks as nat, today as int));
    r
}

// ── Status ───────────────────────────────────────────────────────────────────

/// What the snapshots of one language occupy.
pub struct LangStatus {
    pub lang: Language,
    pub count: usize,
    pub total_bytes: u64,
    /// Date part of the oldest snapshot (`YYYYMMDD`).
    pub oldest: Option<String>,
    /// Date part of the newest snapshot (`YYYYMMDD`).
    pub newest: Option<String>,
}

/// What the cache directory holds, as `storage status` reports it.
pub struct StorageStatus {
    pub gh_cache_bytes: u64,
    pub gh_cache_entries: usize,
    pub languages: Vec<LangStatus>,
    pub total_bytes: u64,
    pub config: StorageConfig,
    pub last_prune: Option<String>,
}

/// The names of directory entries given as (name, size in bytes).
pub open spec fn entry_names(e: Seq<(String, u64)>) -> Seq<Seq<char>> {
    e.map_values(|p: (String, u64)| p.0@)
}

/// The bytes the snapshot files of `lang` among the entries take.
pub open spec fn snapshot_bytes(e: Seq<(String, u64)>, lang: Language) -> nat
    decreases e.len(),
{
    if e.len() == 0 {
        0
    } else {
        snapshot_bytes(e.drop_last(), lang) + if is_snapshot_of(e.last().0@, lang) {
            e.last().1 as nat
        } else {
            0
        }
    }
}

proof fn lemma_snapshot_bytes_prefix(e: Seq<(String, u64)>, lang: Language, i: int)
    requires
        0 <= i <= e.len(),
    ensures
        snapshot_bytes(e.take(i), lang) <= snapshot_bytes(e, lang),
    decreases e.len() - i,
{
    if i < e.len() {
        lemma_snapshot_bytes_prefix(e, lang, i + 1);
        assert(e.take(i + 1).drop_last() =~= e.take(i));
    } else {
        assert(e.take(i) =~= e);
    }
}

/// The option of a date part of the file at `i` of `files`, if there is one.
pub open spec fn date_at(files: Seq<Seq<char>>, i: int) -> Option<Seq<char>> {
    if 0 <= i < files.len() {
        Some(date_part(files[i]))
    } else {
        None
    }
}

/// The status of `lang`'s snapshots among the directory entries `entries`: how many, how
/// many bytes, and the dates of the oldest and newest.
pub fn lang_status(entries: &[(String, u64)], lang: Language) -> (r: LangStatus)
    requires
        snapshot_bytes(entries@, lang) <= u64::MAX,
    ensures
        ({
            let files = spec_snapshot_files(entry_names(entries@), lang);
            &&& r.lang == lang
            &&& r.count == files.len()
            &&& r.total_bytes == snapshot_bytes(entries@, lang)
            &&& opt_view(r.oldest) == date_at(files, 0)
            &&& opt_view(r.newest) == date_at(files, files.len() - 1)
        }),
{
    let mut names: Vec<String> = Vec::new();
    let mut total: u64 = 0;
    let mut i: usize = 0;
    assert(views(names@) =~= entry_names(entries@).take(0));
    while i < entries.len()
        invariant
            i <= entries@.len(),
            snapshot_bytes(entries@, lang) <= u64::MAX,
            views(names@) == entry_names(entries@).take(i as int),
            total == snapshot_bytes(entries@.take(i as int), lang),
        decreases entries@.len() - i,
    {
        assert(entries@.take(i + 1).drop_last() =~= entries@.take(i as int));
        proof {
            lemma_snapshot_bytes_prefix(entries@, lang, i + 1);
        }
        let v = chars_of(entries[i].0.as_str());
        if is_snapshot_name(&v, lang) {
            total = total + entries[i].1;
        }
        let name = entries[i].0.clone();
        assert(name@ == entry_names(entries@)[i as int]);
        let ghost before = names@;
        names.push(name);
        assert(names@ == before.push(name));
        assert(views(names@) =~= views(before).push(name@));
        assert(entry_names(entries@).take(i + 1) =~= entry_names(entries@).take(i as int).push(name@));
        assert(views(names@) =~= entry_names(entries@).take(i + 1));
        i = i + 1;
    }
    assert(entries@.take(i as int) =~= entries@);
    assert(entry_names(entries@).take(i as int) =~= entry_names(entries@));
    let files = snapshot_files(&names, lang);
    let n = files.len();
    let oldest = if n > 0 {
        Some(snapshot_date(files[0].as_str()))
    } else {
        None
    };
    let newest = if n > 0 {
        Some(snapshot_date(files[n - 1].as_str()))
    } else {
        None
    };
    LangStatus { lang, count: n, total_bytes: total, oldest, newest }
}

/// The bytes the snapshots of `langs` take, summed.
pub open spec fn langs_bytes(e: Seq<(String, u64)>, langs: Seq<Language>) -> nat
    decreases langs.len(),
{
    if langs.len() == 0 {
        0
    } else {
        langs_bytes(e, langs.drop_last()) + snapshot_bytes(e, langs.last())
    }
}

proof fn lemma_langs_bytes_prefix(e: Seq<(String, u64)>, langs: Seq<Language>, i: int)
    requires
        0 <= i <= langs.len(),
    ensures
        langs_bytes(e, langs.take(i)) <= langs_bytes(e, langs),
    decreases langs.len() - i,
{
    if i < langs.len() {
        lemma_langs_bytes_prefix(e, langs, i + 1);
        assert(langs.take(i + 1).drop_last() =~= langs.take(i));
    } else {
        assert(langs.take(i) =~= langs);
    }
}

/// The storage status: the GitHub cache's size and entry count as given, one
/// `lang_status` per language in tab order, the total of all of them, and the
/// configuration and last prune from `meta`.
pub fn status(entries: &[(String, u64)], gh_cache_bytes: u64, gh_cache_entries: usize, meta: &Meta) -> (r:
    StorageStatus)
    requires
        gh_cache_bytes + langs_bytes(
            entries@,
            seq![Language::Gleam, Language::Elixir, Language::Erlang, Language::All],
        ) <= u64::MAX,
    ensures
        r.gh_cache_bytes == gh_cache_bytes,
        r.gh_cache_entries == gh_cache_entries,
        r.languages@.len() == 4,
        forall|i: int|
            0 <= i < 4 ==> (#[trigger] r.languages@[i]).lang == seq![
                Language::Gleam,
                Language::Elixir,
                Language::Erlang,
                Language::All,
            ][i] && r.languages@[i].count == spec_snapshot_files(
                entry_names(entries@),
                r.languages@[i].lang,
            ).len() && r.languages@[i].total_bytes == snapshot_bytes(entries@, r.languages@[i].lang)
                && opt_view(r.languages@[i].oldest) == date_at(
                spec_snapshot_files(entry_names(entries@), r.languages@[i].lang),
                0,
            ) && opt_view(r.languages@[i].newest) == date_at(
                spec_snapshot_files(entry_names(entries@), r.languages@[i].lang),
                spec_snapshot_files(entry_names(entries@), r.languages@[i].lang).len() - 1,
            ),
        r.total_bytes == gh_cache_bytes + langs_bytes(
            entries@,
            seq![Language::Gleam, Language::Elixir, Language::Erlang, Language::All],
        ),
        r.config == meta.config,
        opt_view(r.last_prune) == opt_view(meta.last_prune),
{
    let langs = Language::all();
    let mut out: Vec<LangStatus> = Vec::new();
    let mut total: u64 = gh_cache_bytes;
    let mut i: usize = 0;
    while i < langs.len()
        invariant
            i <= langs@.len(),
            langs@ == seq![Language::Gleam, Language::Elixir, Language::Erlang, Language::All],
            gh_cache_bytes + langs_bytes(entries@, langs@) <= u64::MAX,
            total == gh_cache_bytes + langs_bytes(entries@, langs@.take(i as int)),
            out@.len() == i,
            forall|k: int|
                0 <= k < i ==> (#[trigger] out@[k]).lang == langs@[k] && out@[k].count
                    == spec_snapshot_files(entry_names(entries@), out@[k].lang).len()
                    && out@[k].total_bytes == snapshot_bytes(entries@, out@[k].lang) && opt_view(
                    out@[k].oldest,
                ) == date_at(spec_snapshot_files(entry_names(entries@), out@[k].lang), 0)
                    && opt_view(out@[k].newest) == date_at(
                    spec_snapshot_files(entry_names(entries@), out@[k].lang),
                    spec_snapshot_files(entry_names(entries@), out@[k].lang).len() - 1,
                ),
        decreases langs@.len() - i,
    {
        assert(langs@.take(i + 1).drop_last() =~= langs@.take(i as int));
        proof {
            lemma_langs_bytes_prefix(entries@, langs@, i + 1);
        }
        let st = lang_status(entries, langs[i]);
        total = total + st.total_bytes;
        out.push(st);
        i = i + 1;
    }
    assert(langs@.take(i as int) =~= langs@);
    let last_prune = match &meta.last_prune {
        Some(p) => Some(p.clone()),
        None => None,
    };
    StorageStatus {
        gh_cache_bytes,
        gh_cache_entries,
        languages: out,
        total_bytes: total,
        config: meta.config,
        last_prune,
    }
}

// ── Laws ─────────────────────────────────────────────────────────────────────

/// The newest snapshot is the last in name order: no snapshot of the language
/// sorts after it.
pub proof fn lemma_latest_is_newest(names: Seq<Seq<char>>, lang: Language)
    requires
        spec_snapshot_files(names, lang).len() > 0,
    ensures
        ({
            let files = spec_snapshot_files(names, lang);
            forall|i: int| 0 <= i < files.len() ==> crate::text::lex_le(#[trigger] files[i], files.last())
        }),
{
    let f = names.filter(snapshot_pred(lang));
    crate::text::lemma_lex_le_total();
    f.lemma_sort_by_ensures(lex_le_rel());
    let files = spec_snapshot_files(names, lang);
    assert forall|i: int| 0 <= i < files.len() implies crate::text::lex_le(#[trigger] files[i], files.last()) by {
        if i < files.len() - 1 {
            assert(lex_le_rel()(files[i], files[files.len() - 1]));
        } else {
            assert(lex_le_rel()(files.last(), files.last()));
        }
    }
}

/// `prune` removes only snapshots of its language, found among the names, that are
/// dated before the window.
pub proof fn lemma_prune_only_expired(
    names: Seq<Seq<char>>,
    lang: Language,
    keep_weeks: nat,
    today: int,
    n: Seq<char>,
)
    requires
        keep_weeks > 0,
        spec_cutoff(today, keep_weeks) is Some,
        spec_prune(names, lang, keep_weeks, today).contains(n),
    ensures
        names.contains(n),
        is_snapshot_of(n, lang),
        expired(n, spec_cutoff(today, keep_weeks).unwrap()),
{
    let c = spec_cutoff(today, keep_weeks).unwrap();
    let f = names.filter(snapshot_pred(lang));
    let sorted = f.sort_by(lex_le_rel());
    let pruned = sorted.filter(expired_pred(c));
    let i = choose|i: int| 0 <= i < pruned.len() && pruned[i] == n;
    sorted.lemma_filter_pred(expired_pred(c), i);
    sorted.lemma_filter_contains_rev(expired_pred(c), n);
    crate::text::lemma_lex_le_total();
    f.lemma_sort_by_ensures(lex_le_rel());
    let j = choose|j: int| 0 <= j < f.len() && f[j] == n;
    names.lemma_filter_pred(snapshot_pred(lang), j);
    names.lemma_filter_contains_rev(snapshot_pred(lang), n);
}

} // verus!
