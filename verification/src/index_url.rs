//! Locating a package's documentation search index from its `search.html` page.
//!
//! ExDoc and the Gleam documentation generator name the index differently across
//! versions; the page links it from a `<script src="...">` or mentions its path
//! somewhere in quotes. The scan works on characters; where the page's own text
//! is counted in bytes (an offset carried from one step to the next) the byte
//! count is computed from the characters' UTF-8 widths.

use vstd::prelude::*;
use crate::text::{
    chars_of, contains, contains_seq, find_char, find_from, find_seq, lead_ws, lemma_find_seq,
    occurs_at, opt_view, skip_ws, string_from_range,
};

verus! {

// ── Resolving against the page's URL ────────────────────────────────────────

/// Whether `Url::parse` accepts `base` as an absolute URL.
pub uninterp spec fn url_parse_ok(base: Seq<char>) -> bool;

/// `path` resolved against `base` (`Url::parse(base)` then `Url::join(path)`),
/// serialised; `None` when either step fails.
pub uninterp spec fn url_joined(base: Seq<char>, path: Seq<char>) -> Option<Seq<char>>;

/// `reqwest::Url::parse(base).is_ok()` (the url crate's `Url`). The contract only
/// names the outcome: which strings parse is the url crate's business.
#[verifier::external_body]
fn base_url_parses(base: &str) -> (r: bool)
    ensures
        r == url_parse_ok(base@),
{
    reqwest::Url::parse(base).is_ok()
}

/// `reqwest::Url::parse(base)` followed by `Url::join(path)`, turned into a
/// `String` by `From<Url>`. The contract names the result as a function of the
/// two strings; the resolution rules (RFC 3986 as the url crate implements them)
/// are not restated.
#[verifier::external_body]
fn resolve_url(base: &str, path: &str) -> (r: Option<String>)
    ensures
        opt_view(r) == url_joined(base@, path@),
{
    let base = reqwest::Url::parse(base).ok()?;
    base.join(path).ok().map(String::from)
}

// ── UTF-8 widths ──────────────────────────────────────────────────────────────

/// Bytes the UTF-8 encoding of `c` takes.
pub open spec fn utf8_width(c: char) -> nat {
    let u = c as u32;
    if u < 0x80 {
        1
    } else if u < 0x800 {
        2
    } else if u < 0x10000 {
        3
    } else {
        4
    }
}

/// Bytes the UTF-8 encoding of `s` takes.
pub open spec fn utf8_len(s: Seq<char>) -> nat
    decreases s.len(),
{
    if s.len() == 0 {
        0
    } else {
        utf8_len(s.drop_last()) + utf8_width(s.last())
    }
}

fn char_width(c: char) -> (r: u8)
    ensures
        r == utf8_width(c),
        1 <= r <= 4,
{
    let u = c as u32;
    if u < 0x80 {
        1
    } else if u < 0x800 {
        2
    } else if u < 0x10000 {
        3
    } else {
        4
    }
}

/// Bytes the UTF-8 encoding of `v[from..to]` takes.
fn utf8_len_of(v: &[char], from: usize, to: usize) -> (r: u128)
    requires
        from <= to <= v@.len(),
    ensures
        r == utf8_len(v@.subrange(from as int, to as int)),
        r <= 4 * (to - from),
{
    let mut acc: u128 = 0;
    let mut i: usize = from;
    while i < to
        invariant
            from <= i <= to <= v@.len(),
            acc == utf8_len(v@.subrange(from as int, i as int)),
            acc <= 4 * (i - from),
        decreases to - i,
    {
        assert(v@.subrange(from as int, i + 1).drop_last() =~= v@.subrange(from as int, i as int));
        acc = acc + char_width(v[i]) as u128;
        i = i + 1;
    }
    acc
}

/// The character index reached by moving `k` bytes forward from index `i`;
/// `None` when that lands inside a character or past the end.
pub open spec fn advance_bytes(s: Seq<char>, i: int, k: nat) -> Option<int>
    decreases k,
{
    if k == 0 {
        Some(i)
    } else if i < 0 || i >= s.len() || utf8_width(s[i]) > k {
        None
    } else {
        advance_bytes(s, i + 1, (k - utf8_width(s[i])) as nat)
    }
}

pub proof fn lemma_advance_bytes_bounds(s: Seq<char>, i: int, k: nat)
    requires
        0 <= i <= s.len(),
    ensures
        advance_bytes(s, i, k) matches Some(j) ==> i <= j <= s.len() && (k > 0 ==> j > i),
    decreases k,
{
    if k > 0 && i < s.len() && utf8_width(s[i]) <= k {
        lemma_advance_bytes_bounds(s, i + 1, (k - utf8_width(s[i])) as nat);
    }
}

fn advance(v: &[char], i: usize, k: u128) -> (r: Option<usize>)
    requires
        i <= v@.len(),
    ensures
        match r {
            Some(j) => advance_bytes(v@, i as int, k as nat) == Some(j as int),
            None => advance_bytes(v@, i as int, k as nat) is None,
        },
{
    let mut j: usize = i;
    let mut left: u128 = k;
    while left > 0
        invariant
            j <= v@.len(),
            advance_bytes(v@, i as int, k as nat) == advance_bytes(v@, j as int, left as nat),
        decreases left,
    {
        if j >= v.len() {
            return None;
        }
        let w = char_width(v[j]) as u128;
        if w > left {
            return None;
        }
        left = left - w;
        j = j + 1;
    }
    Some(j)
}

// ── What the page may link ────────────────────────────────────────────────────

/// The path fragments that identify a search index, in the order they are tried.
pub open spec fn candidates() -> Seq<Seq<char>> {
    seq![
        "dist/search_data-"@,
        "dist/search-data-"@,
        "search_data.json"@,
        "search-data.json"@,
        "search_data.js"@,
        "search-data.js"@,
        "dist/search_data.js"@,
        "dist/search-data.js"@,
        "search.json"@,
        "search-index.json"@,
    ]
}

/// The `k`-th candidate fragment.
fn candidate(k: usize) -> (r: &'static str)
    requires
        k < candidates().len(),
    ensures
        r@ == candidates()[k as int],
        r@.len() > 0,
{
    match k {
        0 => {
            proof { reveal_strlit("dist/search_data-"); }
            "dist/search_data-"
        },
        1 => {
            proof { reveal_strlit("dist/search-data-"); }
            "dist/search-data-"
        },
        2 => {
            proof { reveal_strlit("search_data.json"); }
            "search_data.json"
        },
        3 => {
            proof { reveal_strlit("search-data.json"); }
            "search-data.json"
        },
        4 => {
            proof { reveal_strlit("search_data.js"); }
            "search_data.js"
        },
        5 => {
            proof { reveal_strlit("search-data.js"); }
            "search-data.js"
        },
        6 => {
            proof { reveal_strlit("dist/search_data.js"); }
            "dist/search_data.js"
        },
        7 => {
            proof { reveal_strlit("dist/search-data.js"); }
            "dist/search-data.js"
        },
        8 => {
            proof { reveal_strlit("search.json"); }
            "search.json"
        },
        _ => {
            proof { reveal_strlit("search-index.json"); }
            "search-index.json"
        },
    }
}

/// `path` contains one of the candidate fragments.
pub open spec fn any_candidate(path: Seq<char>) -> bool {
    exists|k: int| 0 <= k < candidates().len() && contains_seq(path, #[trigger] candidates()[k])
}

fn has_candidate(path: &[char]) -> (r: bool)
    ensures
        r == any_candidate(path@),
{
    let mut k: usize = 0;
    while k < 10
        invariant
            k <= 10,
            candidates().len() == 10,
            forall|j: int| 0 <= j < k ==> !contains_seq(path@, #[trigger] candidates()[j]),
        decreases 10 - k,
    {
        let c = chars_of(candidate(k));
        if contains(path, &c) {
            return true;
        }
        k = k + 1;
    }
    false
}

pub open spec fn is_quote(c: char) -> bool {
    c == '"' || c == '\''
}

/// The attribute name the first pass looks for.
pub open spec fn src_attr() -> Seq<char> {
    seq!['s', 'r', 'c', '=']
}

// ── The scan ──────────────────────────────────────────────────────────────────

pub proof fn lemma_find_seq_found(hay: Seq<char>, needle: Seq<char>, from: int)
    requires
        0 <= from,
    ensures
        find_seq(hay, needle, from) matches Some(p) ==> from <= p && occurs_at(hay, needle, p),
    decreases hay.len() + 1 - from,
{
    if from <= hay.len() && from + needle.len() <= hay.len() && !occurs_at(hay, needle, from) {
        lemma_find_seq_found(hay, needle, from + 1);
    }
}

/// The first pass, from character `start`: find the next `src=`, skip whitespace,
/// and read a value quoted with `"` or `'` up to the matching quote. A value that
/// contains a candidate fragment and resolves against `base` is the answer. An
/// unquoted attribute is passed over; a value without its closing quote ends the
/// pass. Otherwise the pass resumes at the byte offset just past `src=`, plus one,
/// plus the value's length in bytes (counted from the `src=`, not from the quote:
/// leading whitespace moves the resume point back into the value). `Some(None)`:
/// the pass found nothing; `None`: the resume point falls inside a character,
/// where slicing the text panics.
pub open spec fn src_scan(base: Seq<char>, h: Seq<char>, start: int) -> Option<Option<Seq<char>>>
    decreases h.len() + 1 - start,
{
    if start < 0 {
        Some(None)
    } else {
        match find_seq(h, src_attr(), start) {
            None => Some(None),
            Some(p) => {
                let a = p + 4;
                let t = a + lead_ws(h.skip(a));
                if t < h.len() && is_quote(h[t]) {
                    match find_char(h, h[t], t + 1) {
                        None => Some(None),
                        Some(e) => {
                            let path = h.subrange(t + 1, e);
                            if any_candidate(path) && url_joined(base, path) is Some {
                                Some(url_joined(base, path))
                            } else {
                                match advance_bytes(h, a, (1 + utf8_len(path)) as nat) {
                                    None => None,
                                    Some(j) => {
                                        proof {
                                            lemma_find_seq_found(h, src_attr(), start);
                                            lemma_advance_bytes_bounds(
                                                h,
                                                a,
                                                (1 + utf8_len(path)) as nat,
                                            );
                                        }
                                        src_scan(base, h, j)
                                    },
                                }
                            }
                        },
                    }
                } else {
                    proof {
                        lemma_find_seq_found(h, src_attr(), start);
                    }
                    src_scan(base, h, a)
                }
            },
        }
    }
}

/// Index of the last quote (`"` or `'`) before `pos`.
pub open spec fn last_quote_before(h: Seq<char>, pos: int) -> Option<int>
    decreases pos,
{
    if pos <= 0 {
        None
    } else if is_quote(h[pos - 1]) {
        Some(pos - 1)
    } else {
        last_quote_before(h, pos - 1)
    }
}

/// The quoted text around a fragment found at `pos`: from just after the last
/// quote before `pos` up to the next occurrence, at or after `pos`, of the
/// closing character. That character is read at the *character* index equal to
/// the opening quote's *byte* offset (the two coincide on ASCII text, where it is
/// the opening quote itself).
pub open spec fn quoted_around(h: Seq<char>, pos: int) -> Option<Seq<char>> {
    match last_quote_before(h, pos) {
        None => None,
        Some(q) => {
            let b = utf8_len(h.take(q));
            if b < h.len() {
                match find_char(h, h[b as int], pos) {
                    Some(e) => Some(h.subrange(q + 1, e)),
                    None => None,
                }
            } else {
                None
            }
        },
    }
}

/// The second pass for one fragment `c`, from `start`: each occurrence, in order,
/// whose surrounding quoted text resolves against `base`.
pub open spec fn candidate_scan(base: Seq<char>, h: Seq<char>, c: Seq<char>, start: int) -> Option<
    Seq<char>,
>
    decreases h.len() + 1 - start,
{
    if start < 0 || c.len() == 0 {
        None
    } else {
        match find_seq(h, c, start) {
            None => None,
            Some(p) => {
                proof {
                    lemma_find_seq_found(h, c, start);
                }
                match quoted_around(h, p) {
                    Some(path) => if url_joined(base, path) is Some {
                        url_joined(base, path)
                    } else {
                        candidate_scan(base, h, c, p + c.len())
                    },
                    None => candidate_scan(base, h, c, p + c.len()),
                }
            },
        }
    }
}

/// The second pass over the fragments from the `k`-th on.
pub open spec fn candidates_scan(base: Seq<char>, h: Seq<char>, k: int) -> Option<Seq<char>>
    decreases candidates().len() - k,
{
    if k < 0 || k >= candidates().len() {
        None
    } else {
        match candidate_scan(base, h, candidates()[k], 0) {
            Some(u) => Some(u),
            None => candidates_scan(base, h, k + 1),
        }
    }
}

/// The search index URL the page `h` at `base` links: `None` inside `Some` when
/// `base` does not parse or neither pass finds one; `None` where the first pass
/// would slice inside a character.
pub open spec fn spec_find_index(base: Seq<char>, h: Seq<char>) -> Option<Option<Seq<char>>> {
    if !url_parse_ok(base) {
        Some(None)
    } else {
        match src_scan(base, h, 0) {
            None => None,
            Some(Some(u)) => Some(Some(u)),
            Some(None) => Some(candidates_scan(base, h, 0)),
        }
    }
}

/// Index of the first `c` in `v` at or after `from`.
fn find_char_from(v: &[char], from: usize, c: char) -> (r: Option<usize>)
    requires
        from <= v@.len(),
    ensures
        match r {
            Some(i) => find_char(v@, c, from as int) == Some(i as int) && from <= i < v@.len(),
            None => find_char(v@, c, from as int) is None,
        },
{
    let mut i: usize = from;
    while i < v.len()
        invariant
            from <= i <= v@.len(),
            find_char(v@, c, from as int) == find_char(v@, c, i as int),
        decreases v@.len() - i,
    {
        if v[i] == c {
            return Some(i);
        }
        i = i + 1;
    }
    None
}

fn quoted_path_at(v: &[char], pos: usize) -> (r: Option<String>)
    requires
        pos <= v@.len(),
    ensures
        opt_view(r) == quoted_around(v@, pos as int),
{
    let mut i: usize = pos;
    while i > 0 && !(v[i - 1] == '"' || v[i - 1] == '\'')
        invariant
            i <= pos <= v@.len(),
            last_quote_before(v@, pos as int) == last_quote_before(v@, i as int),
        decreases i,
    {
        i = i - 1;
    }
    if i == 0 {
        return None;
    }
    let q = i - 1;
    let b = utf8_len_of(v, 0, q);
    assert(v@.subrange(0, q as int) =~= v@.take(q as int));
    if b >= v.len() as u128 {
        return None;
    }
    let closing = v[b as usize];
    match find_char_from(v, pos, closing) {
        None => None,
        Some(e) => Some(string_from_range(v, q + 1, e)),
    }
}

fn scan_candidate(base: &str, v: &[char], c: &[char]) -> (r: Option<String>)
    requires
        c@.len() > 0,
    ensures
        opt_view(r) == candidate_scan(base@, v@, c@, 0),
{
    let n = v.len();
    let mut start: usize = 0;
    loop
        invariant
            start <= v@.len(),
            n == v@.len(),
            c@.len() > 0,
            candidate_scan(base@, v@, c@, 0) == candidate_scan(base@, v@, c@, start as int),
        decreases v@.len() + 1 - start,
    {
        let found = find_from(v, start, c);
        proof {
            lemma_find_seq(v@, c@, start as int, found);
        }
        match found {
            None => {
                return None;
            },
            Some(p) => {
                match quoted_path_at(v, p) {
                    Some(path) => {
                        let u = resolve_url(base, path.as_str());
                        if u.is_some() {
                            return u;
                        }
                    },
                    None => {},
                }
                assert(occurs_at(v@, c@, p as int));
                start = p + c.len();
            },
        }
    }
}

fn scan_candidates(base: &str, v: &[char]) -> (r: Option<String>)
    ensures
        opt_view(r) == candidates_scan(base@, v@, 0),
{
    let mut k: usize = 0;
    while k < 10
        invariant
            k <= 10,
            candidates().len() == 10,
            candidates_scan(base@, v@, 0) == candidates_scan(base@, v@, k as int),
        decreases 10 - k,
    {
        let c = chars_of(candidate(k));
        let r = scan_candidate(base, v, &c);
        if r.is_some() {
            return r;
        }
        k = k + 1;
    }
    None
}

fn scan_src(base: &str, v: &[char]) -> (r: Option<Option<String>>)
    ensures
        match r {
            None => src_scan(base@, v@, 0) is None,
            Some(x) => src_scan(base@, v@, 0) == Some(opt_view(x)),
        },
{
    let src = chars_of("src=");
    proof {
        reveal_strlit("src=");
    }
    assert(src@ =~= src_attr());
    let n = v.len();
    let mut start: usize = 0;
    loop
        invariant
            start <= v@.len(),
            n == v@.len(),
            src@ == src_attr(),
            src_scan(base@, v@, 0) == src_scan(base@, v@, start as int),
        decreases v@.len() + 1 - start,
    {
        let found = find_from(v, start, &src);
        proof {
            lemma_find_seq(v@, src@, start as int, found);
        }
        let p = match found {
            None => {
                return Some(None);
            },
            Some(p) => p,
        };
        assert(occurs_at(v@, src@, p as int));
        let a = p + src.len();
        let t = skip_ws(v, a);
        if t < v.len() && (v[t] == '"' || v[t] == '\'') {
            match find_char_from(v, t + 1, v[t]) {
                None => {
                    return Some(None);
                },
                Some(e) => {
                    let path = string_from_range(v, t + 1, e);
                    let pc = chars_of(path.as_str());
                    if has_candidate(&pc) {
                        let u = resolve_url(base, path.as_str());
                        if u.is_some() {
                            return Some(u);
                        }
                    }
                    let k = 1 + utf8_len_of(v, t + 1, e);
                    match advance(v, a, k) {
                        None => {
                            return None;
                        },
                        Some(j) => {
                            proof {
                                lemma_advance_bytes_bounds(v@, a as int, k as nat);
                            }
                            start = j;
                        },
                    }
                },
            }
        } else {
            start = a;
        }
    }
}

fn scan(base: &str, html: &str) -> (r: Option<Option<String>>)
    ensures
        match r {
            None => spec_find_index(base@, html@) is None,
            Some(x) => spec_find_index(base@, html@) == Some(opt_view(x)),
        },
{
    if !base_url_parses(base) {
        return Some(None);
    }
    let v = chars_of(html);
    match scan_src(base, &v) {
        None => None,
        Some(Some(u)) => Some(Some(u)),
        Some(None) => Some(scan_candidates(base, &v)),
    }
}

/// The URL of the search index that `html`, the page at `base_url`, links,
/// resolved against `base_url`: first the value of each quoted `src=` attribute
/// that contains a candidate fragment, in page order; then, fragment by fragment
/// in the order of `candidates()`, the quoted text around each occurrence. `None`
/// when `base_url` is not an absolute URL or nothing resolves. The page must not
/// make the first pass resume inside a character (slicing there panics).
pub fn find_search_index_url(base_url: &str, html: &str) -> (r: Option<String>)
    requires
        spec_find_index(base_url@, html@) is Some,
    ensures
        Some(opt_view(r)) == spec_find_index(base_url@, html@),
{
    match scan(base_url, html) {
        Some(r) => r,
        None => None,
    }
}

/// `find_search_index_url` on any page: `None` for a page on which its first
/// pass would resume inside a character, `Some` of its answer otherwise.
pub fn try_find_search_index_url(base_url: &str, html: &str) -> (r: Option<Option<String>>)
    ensures
        match r {
            None => spec_find_index(base_url@, html@) is None,
            Some(x) => spec_find_index(base_url@, html@) == Some(opt_view(x)),
        },
{
    match scan(base_url, html) {
        Some(_) => Some(find_search_index_url(base_url, html)),
        None => None,
    }
}

} // verus!
