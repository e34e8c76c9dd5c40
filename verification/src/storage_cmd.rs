//! What the `hexplorer storage …` commands decide and print: the reading of a
//! `key=value` setting, the prune listing, the status report, and the masking
//! and size formats they use. Reading the disk and the terminal is the
//! application's part.

use vstd::prelude::*;
use crate::docs::{parse_u32_radix, spec_parse_u32};
use crate::fmt::{double_of, f64_of_u64, printed, printed_quotient, tenths, tenths_chars};
use crate::output::{pad_left, pad_right};
use crate::storage::{LangStatus, StorageConfig, StorageStatus};
use crate::text::{
    chars_of, decimal, digit_char, find_char, find_char_in, opt_view, string_from_chars,
    string_from_range, trim, trim_bounds, u64_to_string,
};
use crate::types::{views, Language};

verus! {

// ── Formats ──────────────────────────────────────────────────────────────────

/// A token shown masked: `***` when it has at most eight characters, else its
/// first four and last four around `…`.
pub open spec fn spec_mask_token(t: Seq<char>) -> Seq<char> {
    if t.len() <= 8 {
        "***"@
    } else {
        t.take(4) + "…"@ + t.skip(t.len() - 4)
    }
}

/// Mask a token for display.
pub fn mask_token(t: &str) -> (r: String)
    ensures
        r@ == spec_mask_token(t@),
{
    let chars = chars_of(t);
    if chars.len() <= 8 {
        "***".to_owned()
    } else {
        let mut out = string_from_range(&chars, 0, 4);
        out.append("…");
        let tail = string_from_range(&chars, chars.len() - 4, chars.len());
        out.append(tail.as_str());
        assert(chars@.subrange(0, 4) =~= t@.take(4));
        assert(chars@.subrange(chars@.len() - 4, chars@.len() as int) =~= t@.skip(t@.len() - 4));
        out
    }
}

/// A byte count for people: megabytes or kilobytes with one decimal, computed
/// and printed in double precision (see `crate::fmt::printed_quotient`), or plain
/// bytes below a thousand.
pub open spec fn spec_human_bytes(b: nat) -> Seq<char> {
    if b >= 1_000_000 {
        tenths(printed_quotient(f64_of_u64(b), 1_000_000, 10)) + " MB"@
    } else if b >= 1000 {
        tenths(printed_quotient(f64_of_u64(b), 1000, 10)) + " KB"@
    } else {
        decimal(b) + " B"@
    }
}

/// Format a byte count: `1.2 MB`, `3.4 KB`, `512 B`.
pub fn human_bytes(b: u64) -> (r: String)
    ensures
        r@ == spec_human_bytes(b as nat),
{
    proof {
        vstd::arithmetic::power2::lemma2_to64();
        vstd::arithmetic::power2::lemma2_to64_rest();
    }
    if b >= 1_000_000 {
        let t = printed(double_of(b), 1_000_000, 10);
        let mut out = string_from_chars(&tenths_chars(t));
        out.append(" MB");
        out
    } else if b >= 1000 {
        let t = printed(double_of(b), 1000, 10);
        let mut out = string_from_chars(&tenths_chars(t));
        out.append(" KB");
        out
    } else {
        let mut out = u64_to_string(b);
        out.append(" B");
        out
    }
}

// ── storage config key=value ─────────────────────────────────────────────────

/// A setting `storage config key=value` asks for.
pub enum ConfigChange {
    /// Snapshot retention in weeks.
    KeepWeeks(u32),
    /// Whether snapshots are compressed.
    Compress(bool),
    /// The GitHub token to store; `None` clears it.
    GithubToken(Option<String>),
    /// The language to open on when `--lang` is not given.
    DefaultLanguage(Language),
}

/// Why a `key=value` argument is refused; `message` gives the text shown.
pub enum ConfigError {
    /// No `=` in the argument (which is carried).
    NotKeyValue(String),
    /// `keep_weeks` with a value that is not a `u32`.
    BadKeepWeeks,
    /// `default_language` with a value that names no language; the message of
    /// `Language::parse_name` is carried.
    BadDefaultLanguage(String),
    /// A key other than the four known ones (the trimmed key is carried).
    UnknownKey(String),
}

pub enum ConfigChangeModel {
    KeepWeeks(u32),
    Compress(bool),
    GithubToken(Option<Seq<char>>),
    DefaultLanguage(Language),
}

pub enum ConfigErrorModel {
    NotKeyValue(Seq<char>),
    BadKeepWeeks,
    BadDefaultLanguage(Seq<char>),
    UnknownKey(Seq<char>),
}

impl View for ConfigChange {
    type V = ConfigChangeModel;

    open spec fn view(&self) -> ConfigChangeModel {
        match self {
            ConfigChange::KeepWeeks(w) => ConfigChangeModel::KeepWeeks(*w),
            ConfigChange::Compress(b) => ConfigChangeModel::Compress(*b),
            ConfigChange::GithubToken(t) => ConfigChangeModel::GithubToken(opt_view(*t)),
            ConfigChange::DefaultLanguage(l) => ConfigChangeModel::DefaultLanguage(*l),
        }
    }
}

impl View for ConfigError {
    type V = ConfigErrorModel;

    open spec fn view(&self) -> ConfigErrorModel {
        match self {
            ConfigError::NotKeyValue(s) => ConfigErrorModel::NotKeyValue(s@),
            ConfigError::BadKeepWeeks => ConfigErrorModel::BadKeepWeeks,
            ConfigError::BadDefaultLanguage(m) => ConfigErrorModel::BadDefaultLanguage(m@),
            ConfigError::UnknownKey(k) => ConfigErrorModel::UnknownKey(k@),
        }
    }
}

impl ConfigError {
    pub open spec fn spec_message(self) -> Seq<char> {
        match self {
            ConfigError::NotKeyValue(s) => "expected key=value, got '"@ + s@ + "'"@,
            ConfigError::BadKeepWeeks => "keep_weeks must be an integer"@,
            ConfigError::BadDefaultLanguage(m) => m@,
            ConfigError::UnknownKey(k) => "unknown config key: '"@ + k@
                + "' (valid: keep_weeks, compress, github_token, default_language)"@,
        }
    }

    /// The error's text.
    pub fn message(&self) -> (r: String)
        ensures
            r@ == self.spec_message(),
    {
        match self {
            ConfigError::NotKeyValue(s) => {
                let mut m = "expected key=value, got '".to_owned();
                m.append(s.as_str());
                m.append("'");
                m
            },
            ConfigError::BadKeepWeeks => "keep_weeks must be an integer".to_owned(),
            ConfigError::BadDefaultLanguage(m) => m.as_str().to_owned(),
            ConfigError::UnknownKey(k) => {
                let mut m = "unknown config key: '".to_owned();
                m.append(k.as_str());
                m.append("' (valid: keep_weeks, compress, github_token, default_language)");
                m
            },
        }
    }
}

/// The setting `kv` asks for: the key (trimmed) before its first `=` names it, the
/// value (trimmed) after it gives it. `keep_weeks` takes a `u32`; `compress` is on
/// for `true`, `1` or `yes` and off otherwise; `github_token` stores the value, or
/// clears the token when the value is empty; `default_language` takes a language
/// name (`gleam`, `elixir`, `erlang`, `all`, in any case).
pub open spec fn spec_config_change(kv: Seq<char>) -> Result<ConfigChangeModel, ConfigErrorModel> {
    match find_char(kv, '=', 0) {
        None => Err(ConfigErrorModel::NotKeyValue(kv)),
        Some(i) => {
            let key = trim(kv.take(i));
            let val = trim(kv.skip(i + 1));
            if key == "keep_weeks"@ {
                match spec_parse_u32(val, 10) {
                    Some(w) => Ok(ConfigChangeModel::KeepWeeks(w)),
                    None => Err(ConfigErrorModel::BadKeepWeeks),
                }
            } else if key == "compress"@ {
                Ok(ConfigChangeModel::Compress(val == "true"@ || val == "1"@ || val == "yes"@))
            } else if key == "github_token"@ {
                Ok(
                    ConfigChangeModel::GithubToken(
                        if val.len() == 0 {
                            None
                        } else {
                            Some(val)
                        },
                    ),
                )
            } else if key == "default_language"@ {
                match Language::spec_parse(val) {
                    Some(l) => Ok(ConfigChangeModel::DefaultLanguage(l)),
                    None => Err(
                        ConfigErrorModel::BadDefaultLanguage(
                            "unknown language: '"@ + crate::text::lowercase(val)
                                + "' (valid: gleam, elixir, erlang, all)"@,
                        ),
                    ),
                }
            } else {
                Err(ConfigErrorModel::UnknownKey(key))
            }
        },
    }
}

/// Read the argument of `storage config key=value`.
pub fn parse_config_arg(kv: &str) -> (r: Result<ConfigChange, ConfigError>)
    ensures
        match r {
            Ok(c) => spec_config_change(kv@) == Ok::<ConfigChangeModel, ConfigErrorModel>(c@),
            Err(e) => spec_config_change(kv@) == Err::<ConfigChangeModel, ConfigErrorModel>(e@),
        },
{
    let v = chars_of(kv);
    let i = match find_char_in(&v, 0, v.len(), '=') {
        Some(i) => i,
        None => {
            assert(v@.subrange(0, v@.len() as int) =~= kv@);
            return Err(ConfigError::NotKeyValue(kv.to_owned()));
        },
    };
    assert(v@.subrange(0, v@.len() as int) =~= kv@);
    let (ka, kb) = trim_bounds(&v, 0, i);
    let (va, vb) = trim_bounds(&v, i + 1, v.len());
    assert(v@.subrange(0, i as int) =~= kv@.take(i as int));
    assert(v@.subrange(i + 1, v@.len() as int) =~= kv@.skip(i + 1));
    let key = string_from_range(&v, ka, kb);
    let kc = chars_of(key.as_str());
    if crate::text::chars_eq(&kc, &chars_of("keep_weeks")) {
        match parse_u32_radix(&v, va, vb, 10) {
            Some(w) => Ok(ConfigChange::KeepWeeks(w)),
            None => Err(ConfigError::BadKeepWeeks),
        }
    } else if crate::text::chars_eq(&kc, &chars_of("compress")) {
        let val = chars_of(string_from_range(&v, va, vb).as_str());
        let on = crate::text::chars_eq(&val, &chars_of("true")) || crate::text::chars_eq(
            &val,
            &chars_of("1"),
        ) || crate::text::chars_eq(&val, &chars_of("yes"));
        Ok(ConfigChange::Compress(on))
    } else if crate::text::chars_eq(&kc, &chars_of("github_token")) {
        if va == vb {
            Ok(ConfigChange::GithubToken(None))
        } else {
            Ok(ConfigChange::GithubToken(Some(string_from_range(&v, va, vb))))
        }
    } else if crate::text::chars_eq(&kc, &chars_of("default_language")) {
        let val = string_from_range(&v, va, vb);
        match Language::parse_name(val.as_str()) {
            Ok(l) => Ok(ConfigChange::DefaultLanguage(l)),
            Err(m) => Err(ConfigError::BadDefaultLanguage(m)),
        }
    } else {
        Err(ConfigError::UnknownKey(key))
    }
}

/// The settings after a `storage config` change (see `apply_config_change`).
pub open spec fn spec_apply_config(config: StorageConfig, change: ConfigChangeModel) -> StorageConfig {
    match change {
        ConfigChangeModel::KeepWeeks(w) => StorageConfig { keep_weeks: w, ..config },
        ConfigChangeModel::Compress(c) => StorageConfig { compress: c, ..config },
        ConfigChangeModel::DefaultLanguage(l) => StorageConfig { default_language: l, ..config },
        ConfigChangeModel::GithubToken(_) => config,
    }
}

/// The settings after a `storage config` change: the named setting takes the
/// new value and the others stay; a GitHub token is not one of these settings
/// (it is kept apart from them), so a token change leaves them as they are.
pub fn apply_config_change(config: StorageConfig, change: &ConfigChange) -> (r: StorageConfig)
    ensures
        r == spec_apply_config(config, change@),
{
    match change {
        ConfigChange::KeepWeeks(w) => StorageConfig { keep_weeks: *w, ..config },
        ConfigChange::Compress(c) => StorageConfig { compress: *c, ..config },
        ConfigChange::DefaultLanguage(l) => StorageConfig { default_language: *l, ..config },
        ConfigChange::GithubToken(_) => config,
    }
}

// ── storage prune ────────────────────────────────────────────────────────────

/// The sum of the sizes.
pub open spec fn total_size(files: Seq<(String, u64)>) -> nat
    decreases files.len(),
{
    if files.len() == 0 {
        0
    } else {
        total_size(files.drop_last()) + (files.last().1 as nat)
    }
}

/// The line listing one file to remove.
pub open spec fn prune_line(f: (String, u64)) -> Seq<char> {
    "    "@ + f.0@ + "   "@ + spec_human_bytes(f.1 as nat)
}

/// What `storage prune` shows before asking: a heading with the retention, one
/// line per file, and the count and the space freed.
pub open spec fn spec_prune_listing(weeks: u32, files: Seq<(String, u64)>) -> Seq<Seq<char>> {
    seq!["\n  Files to remove (older than "@ + decimal(weeks as nat) + " weeks):"@] + files.map_values(
        |f: (String, u64)| prune_line(f),
    ) + seq![
        "\n  "@ + decimal(files.len()) + " files · "@ + spec_human_bytes(total_size(files))
            + " freed\n"@,
    ]
}

proof fn lemma_total_size_prefix(files: Seq<(String, u64)>, i: int)
    requires
        0 <= i <= files.len(),
    ensures
        total_size(files.take(i)) <= total_size(files),
    decreases files.len() - i,
{
    if i < files.len() {
        lemma_total_size_prefix(files, i + 1);
        assert(files.take(i + 1).drop_last() =~= files.take(i));
    } else {
        assert(files.take(i) =~= files);
    }
}

/// The listing of the files `storage prune` removes (name and size each).
pub fn prune_listing(weeks: u32, files: &[(String, u64)]) -> (r: Vec<String>)
    requires
        total_size(files@) <= u64::MAX,
    ensures
        views(r@) == spec_prune_listing(weeks, files@),
{
    let mut lines: Vec<String> = Vec::new();
    let mut head = "\n  Files to remove (older than ".to_owned();
    head.append(u64_to_string(weeks as u64).as_str());
    head.append(" weeks):");
    lines.push(head);
    let mut total: u64 = 0;
    let mut i: usize = 0;
    let ghost first = views(lines@);
    while i < files.len()
        invariant
            i <= files@.len(),
            total_size(files@) <= u64::MAX,
            total == total_size(files@.take(i as int)),
            views(lines@) == first + files@.take(i as int).map_values(
                |f: (String, u64)| prune_line(f),
            ),
        decreases files@.len() - i,
    {
        assert(files@.take(i + 1).drop_last() =~= files@.take(i as int));
        proof {
            lemma_total_size_prefix(files@, i + 1);
        }
        total = total + files[i].1;
        let mut l = "    ".to_owned();
        l.append(files[i].0.as_str());
        l.append("   ");
        l.append(human_bytes(files[i].1).as_str());
        let ghost before = lines@;
        lines.push(l);
        assert(views(lines@) =~= views(before).push(prune_line(files@[i as int])));
        assert(files@.take(i + 1).map_values(|f: (String, u64)| prune_line(f)) =~= files@.take(
            i as int,
        ).map_values(|f: (String, u64)| prune_line(f)).push(prune_line(files@[i as int])));
        i = i + 1;
    }
    assert(files@.take(i as int) =~= files@);
    let mut tail = "\n  ".to_owned();
    tail.append(u64_to_string(files.len() as u64).as_str());
    tail.append(" files · ");
    tail.append(human_bytes(total).as_str());
    tail.append(" freed\n");
    let ghost before = lines@;
    lines.push(tail);
    assert(views(lines@) =~= views(before).push(tail@));
    lines
}

// ── storage status ───────────────────────────────────────────────────────────

/// The snapshot files counted over the languages of a status.
pub open spec fn sum_counts(ls: Seq<LangStatus>) -> nat
    decreases ls.len(),
{
    if ls.len() == 0 {
        0
    } else {
        sum_counts(ls.drop_last()) + (ls.last().count as nat)
    }
}

/// The snapshot bytes counted over the languages of a status.
pub open spec fn sum_bytes(ls: Seq<LangStatus>) -> nat
    decreases ls.len(),
{
    if ls.len() == 0 {
        0
    } else {
        sum_bytes(ls.drop_last()) + (ls.last().total_bytes as nat)
    }
}

/// The report line of one language.
pub open spec fn status_lang_line(l: LangStatus) -> Seq<char> {
    "      ├── "@ + pad_right(l.lang.spec_label(), 8) + "      "@ + pad_left(decimal(l.count as nat), 3)
        + " files  · "@ + pad_left(spec_human_bytes(l.total_bytes as nat), 6) + "  · oldest: "@
        + match l.oldest {
        Some(o) => o@,
        None => "–"@,
    }
}

/// What `storage status` prints for the cache directory `dir`: the GitHub cache and
/// the snapshots with their sizes, one line per language, the retention, the date
/// of the last prune, and the total.
pub open spec fn spec_status_report(s: StorageStatus, dir: Seq<char>) -> Seq<Seq<char>> {
    seq![
        "\n  "@ + dir + "/"@,
        "  ├── gh_stats.json    "@ + pad_left(decimal(s.gh_cache_entries as nat), 4) + " entries  · "@
            + pad_left(spec_human_bytes(s.gh_cache_bytes as nat), 6) + "  · last write: –"@,
        "  └── snapshots/       "@ + pad_left(decimal(sum_counts(s.languages@)), 4) + " files   · "@
            + pad_left(spec_human_bytes(sum_bytes(s.languages@)), 6),
    ] + s.languages@.map_values(|l: LangStatus| status_lang_line(l)) + seq![
        Seq::empty(),
        "  retention policy : "@ + decimal(s.config.keep_weeks as nat) + " weeks"@,
        "  last prune       : "@ + match s.last_prune {
            Some(p) => crate::output::first_bytes(p@, 10),
            None => "never"@,
        },
        "  total            : "@ + spec_human_bytes(s.total_bytes as nat),
        Seq::empty(),
    ]
}

proof fn lemma_sums_prefix(ls: Seq<LangStatus>, i: int)
    requires
        0 <= i <= ls.len(),
    ensures
        sum_counts(ls.take(i)) <= sum_counts(ls),
        sum_bytes(ls.take(i)) <= sum_bytes(ls),
    decreases ls.len() - i,
{
    if i < ls.len() {
        lemma_sums_prefix(ls, i + 1);
        assert(ls.take(i + 1).drop_last() =~= ls.take(i));
    } else {
        assert(ls.take(i) =~= ls);
    }
}

fn padded(s: &str, w: usize, right_align: bool) -> (r: String)
    ensures
        r@ == if right_align {
            pad_left(s@, w as nat)
        } else {
            pad_right(s@, w as nat)
        },
{
    let mut out = String::new();
    crate::output::push_padded(&mut out, s, w, right_align);
    assert(out@ =~= if right_align {
        pad_left(s@, w as nat)
    } else {
        pad_right(s@, w as nat)
    });
    out
}

fn lang_line(l: &LangStatus) -> (r: String)
    ensures
        r@ == status_lang_line(*l),
{
    let mut out = "      ├── ".to_owned();
    out.append(padded(l.lang.label(), 8, false).as_str());
    out.append("      ");
    out.append(padded(u64_to_string(l.count as u64).as_str(), 3, true).as_str());
    out.append(" files  · ");
    out.append(padded(human_bytes(l.total_bytes).as_str(), 6, true).as_str());
    out.append("  · oldest: ");
    match &l.oldest {
        Some(o) => out.append(o.as_str()),
        None => out.append("–"),
    }
    out
}

/// The lines `storage status` prints for the cache directory `dir`. The counts and
/// sizes must add up within their types, and the last prune's time must be cut at
/// ten bytes on a character (summing past the types, or slicing inside a
/// character, fails).
pub fn status_report(s: &StorageStatus, dir: &str) -> (r: Vec<String>)
    requires
        sum_counts(s.languages@) <= u64::MAX,
        sum_bytes(s.languages@) <= u64::MAX,
        s.last_prune matches Some(p) ==> vstd::utf8::is_char_boundary(
            vstd::utf8::encode_utf8(p@),
            10,
        ),
    ensures
        views(r@) == spec_status_report(*s, dir@),
{
    let mut files: u64 = 0;
    let mut bytes: u64 = 0;
    let mut lang_lines: Vec<String> = Vec::new();
    let mut i: usize = 0;
    while i < s.languages.len()
        invariant
            i <= s.languages@.len(),
            sum_counts(s.languages@) <= u64::MAX,
            sum_bytes(s.languages@) <= u64::MAX,
            files == sum_counts(s.languages@.take(i as int)),
            bytes == sum_bytes(s.languages@.take(i as int)),
            views(lang_lines@) == s.languages@.take(i as int).map_values(
                |l: LangStatus| status_lang_line(l),
            ),
        decreases s.languages@.len() - i,
    {
        assert(s.languages@.take(i + 1).drop_last() =~= s.languages@.take(i as int));
        proof {
            lemma_sums_prefix(s.languages@, i + 1);
        }
        files = files + s.languages[i].count as u64;
        bytes = bytes + s.languages[i].total_bytes;
        let l = lang_line(&s.languages[i]);
        let ghost before = lang_lines@;
        lang_lines.push(l);
        assert(views(lang_lines@) =~= views(before).push(l@));
        assert(s.languages@.take(i + 1).map_values(|l: LangStatus| status_lang_line(l))
            =~= s.languages@.take(i as int).map_values(|l: LangStatus| status_lang_line(l)).push(
            status_lang_line(s.languages@[i as int]),
        ));
        i = i + 1;
    }
    assert(s.languages@.take(i as int) =~= s.languages@);
    let mut lines: Vec<String> = Vec::new();
    let mut l1 = "\n  ".to_owned();
    l1.append(dir);
    l1.append("/");
    lines.push(l1);
    let mut l2 = "  ├── gh_stats.json    ".to_owned();
    l2.append(padded(u64_to_string(s.gh_cache_entries as u64).as_str(), 4, true).as_str());
    l2.append(" entries  · ");
    l2.append(padded(human_bytes(s.gh_cache_bytes).as_str(), 6, true).as_str());
    l2.append("  · last write: –");
    lines.push(l2);
    let mut l3 = "  └── snapshots/       ".to_owned();
    l3.append(padded(u64_to_string(files).as_str(), 4, true).as_str());
    l3.append(" files   · ");
    l3.append(padded(human_bytes(bytes).as_str(), 6, true).as_str());
    lines.push(l3);
    let ghost head = views(lines@);
    let ghost mid = lang_lines@;
    lines.append(&mut lang_lines);
    assert(views(lines@) =~= head + views(mid));
    lines.push(String::new());
    let mut r1 = "  retention policy : ".to_owned();
    r1.append(u64_to_string(s.config.keep_weeks as u64).as_str());
    r1.append(" weeks");
    lines.push(r1);
    let mut r2 = "  last prune       : ".to_owned();
    match &s.last_prune {
        Some(p) => r2.append(crate::output::prefix_bytes(p.as_str(), 10)),
        None => r2.append("never"),
    }
    lines.push(r2);
    let mut r3 = "  total            : ".to_owned();
    r3.append(human_bytes(s.total_bytes).as_str());
    lines.push(r3);
    lines.push(String::new());
    assert(views(lines@) =~= spec_status_report(*s, dir@));
    lines
}

proof fn lemma_first_equals(key: Seq<char>, val: Seq<char>)
    requires
        forall|i: int| 0 <= i < key.len() ==> key[i] != '=',
    ensures
        find_char(key + "="@ + val, '=', 0) == Some(key.len() as int),
        (key + "="@ + val).take(key.len() as int) == key,
        (key + "="@ + val).skip(key.len() as int + 1) == val,
{
    reveal_strlit("=");
    let kv = key + "="@ + val;
    crate::docs::lemma_find_char_bound(kv, '=', 0);
    assert(kv[key.len() as int] == '=');
    match find_char(kv, '=', 0) {
        Some(i) => {
            if i < key.len() {
                assert(kv[i] == key[i]);
            }
        },
        None => {},
    }
    assert(kv.take(key.len() as int) =~= key);
    assert(kv.skip(key.len() as int + 1) =~= val);
}

/// `storage config key=value`, key by key: an argument without `=` is refused;
/// otherwise the key (trimmed, up to the first `=`, so holding none) decides.
/// `keep_weeks` takes the trimmed value as a `u32` and sets the retention to it,
/// or is refused; `compress` turns compression on for `true`, `1` or `yes` and
/// off for anything else; `default_language` sets the startup language to the one
/// the trimmed value names, or is refused; `github_token` stores the trimmed
/// value, or clears the token when it is empty, and leaves the other settings as
/// they are; any other key is refused with its name. Each accepted change sets
/// its own setting and leaves the others.
pub proof fn lemma_config_key_value(key: Seq<char>, val: Seq<char>, config: StorageConfig)
    requires
        forall|i: int| 0 <= i < key.len() ==> key[i] != '=',
    ensures
        ({
            let r = spec_config_change(key + "="@ + val);
            let k = trim(key);
            let v = trim(val);
            &&& k == "keep_weeks"@ ==> match spec_parse_u32(v, 10) {
                Some(w) => r == Ok::<ConfigChangeModel, ConfigErrorModel>(ConfigChangeModel::KeepWeeks(w))
                    && spec_apply_config(config, r->Ok_0) == StorageConfig { keep_weeks: w, ..config },
                None => r == Err::<ConfigChangeModel, ConfigErrorModel>(ConfigErrorModel::BadKeepWeeks),
            }
            &&& k == "compress"@ ==> r == Ok::<ConfigChangeModel, ConfigErrorModel>(
                ConfigChangeModel::Compress(v == "true"@ || v == "1"@ || v == "yes"@),
            ) && spec_apply_config(config, r->Ok_0) == StorageConfig {
                compress: v == "true"@ || v == "1"@ || v == "yes"@,
                ..config
            }
            &&& k == "default_language"@ ==> match Language::spec_parse(v) {
                Some(l) => r == Ok::<ConfigChangeModel, ConfigErrorModel>(
                    ConfigChangeModel::DefaultLanguage(l),
                ) && spec_apply_config(config, r->Ok_0) == StorageConfig {
                    default_language: l,
                    ..config
                },
                None => r is Err,
            }
            &&& k == "github_token"@ ==> r == Ok::<ConfigChangeModel, ConfigErrorModel>(
                ConfigChangeModel::GithubToken(
                    if v.len() == 0 {
                        None
                    } else {
                        Some(v)
                    },
                ),
            ) && spec_apply_config(config, r->Ok_0) == config
            &&& !(k == "keep_weeks"@ || k == "compress"@ || k == "default_language"@ || k
                == "github_token"@) ==> r == Err::<ConfigChangeModel, ConfigErrorModel>(
                ConfigErrorModel::UnknownKey(k),
            )
        }),
{
    reveal_strlit("keep_weeks");
    reveal_strlit("compress");
    reveal_strlit("github_token");
    reveal_strlit("default_language");
    lemma_first_equals(key, val);
    let kv = key + "="@ + val;
    assert(trim(kv.take(key.len() as int)) == trim(key));
    assert(trim(kv.skip(key.len() as int + 1)) == trim(val));
    assert("keep_weeks"@.len() == 10);
    assert("compress"@.len() == 8);
    assert("github_token"@.len() == 12);
    assert("default_language"@.len() == 16);
}

/// An argument of `storage config` without `=` is refused, and the error
/// carries it.
pub proof fn lemma_config_needs_equals(kv: Seq<char>)
    requires
        forall|i: int| 0 <= i < kv.len() ==> kv[i] != '=',
    ensures
        spec_config_change(kv) == Err::<ConfigChangeModel, ConfigErrorModel>(
            ConfigErrorModel::NotKeyValue(kv),
        ),
{
    crate::docs::lemma_find_char_bound(kv, '=', 0);
}

} // verus!
