//! Character-level string utilities shared by the parsers and formatters.
//!
//! Strings are handled as sequences of Unicode scalar values (`Seq<char>`),
//! the view of a `String` or a `&str`.

use vstd::prelude::*;

verus! {

// ── Conversions ──────────────────────────────────────────────────────────────

/// The characters of an optional string.
pub open spec fn opt_view(o: Option<String>) -> Option<Seq<char>> {
    match o {
        Some(s) => Some(s@),
        None => None,
    }
}

/// `String::push`: appends one character.
#[verifier::external_body]
pub(crate) fn string_push(s: &mut String, c: char)
    ensures
        final(s)@ == old(s)@.push(c),
{
    s.push(c);
}

/// The characters of `s`, in order.
pub fn chars_of(s: &str) -> (r: Vec<char>)
    ensures
        r@ == s@,
{
    let mut v: Vec<char> = Vec::new();
    for c in it: s.chars()
        invariant
            v@ == it.seq().take(it.index()),
    {
        v.push(c);
        assert(v@ =~= it.seq().take(it.index() + 1));
    }
    assert(v@ =~= s@);
    v
}

/// A `String` holding exactly the characters `v[from..to]`.
pub fn string_from_range(v: &[char], from: usize, to: usize) -> (r: String)
    requires
        from <= to <= v@.len(),
    ensures
        r@ == v@.subrange(from as int, to as int),
{
    let mut s = String::new();
    let mut i: usize = from;
    while i < to
        invariant
            from <= i <= to <= v@.len(),
            s@ == v@.subrange(from as int, i as int),
        decreases to - i,
    {
        string_push(&mut s, v[i]);
        assert(s@ =~= v@.subrange(from as int, i + 1));
        i = i + 1;
    }
    s
}

/// A `String` holding exactly the characters of `v`.
pub fn string_from_chars(v: &[char]) -> (r: String)
    ensures
        r@ == v@,
{
    let r = string_from_range(v, 0, v.len());
    assert(v@.subrange(0, v@.len() as int) =~= v@);
    r
}


// ── Whitespace and trimming ──────────────────────────────────────────────────

/// Unicode `White_Space` (what `char::is_whitespace` tests).
pub open spec fn is_ws(c: char) -> bool {
    let u = c as u32;
    ||| 0x09 <= u <= 0x0D
    ||| u == 0x20
    ||| u == 0x85
    ||| u == 0xA0
    ||| u == 0x1680
    ||| 0x2000 <= u <= 0x200A
    ||| u == 0x2028
    ||| u == 0x2029
    ||| u == 0x202F
    ||| u == 0x205F
    ||| u == 0x3000
}

pub fn is_whitespace(c: char) -> (r: bool)
    ensures
        r == is_ws(c),
{
    let u = c as u32;
    (0x09 <= u && u <= 0x0D) || u == 0x20 || u == 0x85 || u == 0xA0 || u == 0x1680 || (0x2000
        <= u && u <= 0x200A) || u == 0x2028 || u == 0x2029 || u == 0x202F || u == 0x205F || u
        == 0x3000
}

/// Number of leading whitespace characters.
pub open spec fn lead_ws(s: Seq<char>) -> nat
    decreases s.len(),
{
    if s.len() > 0 && is_ws(s[0]) {
        1 + lead_ws(s.drop_first())
    } else {
        0
    }
}

/// Number of trailing whitespace characters.
pub open spec fn trail_ws(s: Seq<char>) -> nat
    decreases s.len(),
{
    if s.len() > 0 && is_ws(s.last()) {
        1 + trail_ws(s.drop_last())
    } else {
        0
    }
}

/// `str::trim_start`.
pub open spec fn trim_start(s: Seq<char>) -> Seq<char> {
    s.skip(lead_ws(s) as int)
}

/// `str::trim_end`.
pub open spec fn trim_end(s: Seq<char>) -> Seq<char> {
    s.take(s.len() - trail_ws(s))
}

/// `str::trim`.
pub open spec fn trim(s: Seq<char>) -> Seq<char> {
    trim_end(trim_start(s))
}

pub proof fn lemma_lead_ws_bound(s: Seq<char>)
    ensures
        lead_ws(s) <= s.len(),
        forall|i: int| 0 <= i < lead_ws(s) ==> is_ws(#[trigger] s[i]),
        lead_ws(s) < s.len() ==> !is_ws(s[lead_ws(s) as int]),
    decreases s.len(),
{
    if s.len() > 0 && is_ws(s[0]) {
        lemma_lead_ws_bound(s.drop_first());
        assert forall|i: int| 0 <= i < lead_ws(s) implies is_ws(#[trigger] s[i]) by {
            if i > 0 {
                assert(s[i] == s.drop_first()[i - 1]);
            }
        }
    }
}

pub proof fn lemma_trail_ws_bound(s: Seq<char>)
    ensures
        trail_ws(s) <= s.len(),
        forall|i: int| s.len() - trail_ws(s) <= i < s.len() ==> is_ws(#[trigger] s[i]),
        trail_ws(s) < s.len() ==> !is_ws(s[s.len() - trail_ws(s) - 1]),
    decreases s.len(),
{
    if s.len() > 0 && is_ws(s.last()) {
        lemma_trail_ws_bound(s.drop_last());
        assert forall|i: int| s.len() - trail_ws(s) <= i < s.len() implies is_ws(#[trigger] s[i]) by {
            if i < s.len() - 1 {
                assert(s[i] == s.drop_last()[i]);
            }
        }
    }
}

/// Index of the first non-whitespace character of `v[from..]` (or `v.len()`).
pub fn skip_ws(v: &[char], from: usize) -> (r: usize)
    requires
        from <= v@.len(),
    ensures
        r == from + lead_ws(v@.skip(from as int)),
        from <= r <= v@.len(),
{
    let mut i: usize = from;
    proof {
        lemma_lead_ws_bound(v@.skip(from as int));
    }
    while i < v.len() && is_whitespace(v[i])
        invariant
            from <= i <= v@.len(),
            lead_ws(v@.skip(from as int)) == (i - from) + lead_ws(v@.skip(i as int)),
        decreases v@.len() - i,
    {
        assert(v@.skip(i as int).drop_first() =~= v@.skip(i + 1));
        i = i + 1;
    }
    proof {
        lemma_lead_ws_bound(v@.skip(i as int));
    }
    i
}

/// One past the last non-whitespace character of `v[from..to]` (or `from`).
pub fn skip_ws_back(v: &[char], from: usize, to: usize) -> (r: usize)
    requires
        from <= to <= v@.len(),
    ensures
        r == to - trail_ws(v@.subrange(from as int, to as int)),
        from <= r <= to,
{
    let mut j: usize = to;
    proof {
        lemma_trail_ws_bound(v@.subrange(from as int, to as int));
    }
    while j > from && is_whitespace(v[j - 1])
        invariant
            from <= j <= to <= v@.len(),
            trail_ws(v@.subrange(from as int, to as int)) == (to - j) + trail_ws(
                v@.subrange(from as int, j as int),
            ),
        decreases j - from,
    {
        assert(v@.subrange(from as int, j as int).drop_last() =~= v@.subrange(
            from as int,
            j - 1,
        ));
        j = j - 1;
    }
    proof {
        lemma_trail_ws_bound(v@.subrange(from as int, j as int));
    }
    j
}

/// The bounds `(a, b)` such that `v[a..b]` is `v[from..to]` trimmed.
pub fn trim_bounds(v: &[char], from: usize, to: usize) -> (r: (usize, usize))
    requires
        from <= to <= v@.len(),
    ensures
        from <= r.0 <= r.1 <= to,
        v@.subrange(r.0 as int, r.1 as int) == trim(v@.subrange(from as int, to as int)),
{
    let ghost s = v@.subrange(from as int, to as int);
    let a = skip_ws(&v, from);
    proof {
        lemma_lead_ws_bound(v@.skip(from as int));
        lemma_lead_ws_bound(s);
        // leading whitespace of the window equals that of the suffix, capped by `to`
        assert(lead_ws(s) == a - from || (a > to)) by {
            lemma_lead_ws_prefix(v@.skip(from as int), (to - from) as nat);
            assert(v@.skip(from as int).take(to - from) =~= s);
        }
    }
    let a = if a > to { to } else { a };
    proof {
        if a == to {
            lemma_lead_ws_prefix(v@.skip(from as int), (to - from) as nat);
            assert(v@.skip(from as int).take(to - from) =~= s);
        }
        assert(trim_start(s) =~= v@.subrange(a as int, to as int));
    }
    let b = skip_ws_back(&v, a, to);
    (a, b)
}

/// Leading whitespace of a prefix.
pub proof fn lemma_lead_ws_prefix(s: Seq<char>, n: nat)
    requires
        n <= s.len(),
    ensures
        lead_ws(s.take(n as int)) == if lead_ws(s) < n { lead_ws(s) } else { n },
    decreases n,
{
    if n > 0 && s.len() > 0 && is_ws(s[0]) {
        assert(s.take(n as int).drop_first() =~= s.drop_first().take(n - 1));
        lemma_lead_ws_prefix(s.drop_first(), (n - 1) as nat);
    }
}

/// `s.trim()`, as an owned string.
pub fn trimmed(s: &str) -> (r: String)
    ensures
        r@ == trim(s@),
{
    let v = chars_of(s);
    let (a, b) = trim_bounds(&v, 0, v.len());
    assert(v@.subrange(0, v@.len() as int) =~= v@);
    string_from_range(&v, a, b)
}

// ── Lower case ───────────────────────────────────────────────────────────────

/// What `str::to_lowercase` returns for the given characters (Unicode lower-case mapping).
pub uninterp spec fn lowercase(s: Seq<char>) -> Seq<char>;

/// ASCII lower-casing of one character.
pub open spec fn ascii_lower(c: char) -> char {
    if 'A' <= c <= 'Z' {
        ((c as u32) + 32) as char
    } else {
        c
    }
}

pub open spec fn all_ascii(s: Seq<char>) -> bool {
    forall|i: int| 0 <= i < s.len() ==> (s[i] as u32) < 128
}

/// `str::to_lowercase`. Its result is named `lowercase`; for an all-ASCII
/// input it is the character-wise ASCII lower-casing (A–Z map to a–z, every
/// other ASCII character maps to itself), as the Unicode case tables give it.
/// What it returns for other characters is left unsaid.
#[verifier::external_body]
pub(crate) fn to_lowercase(s: &str) -> (r: String)
    ensures
        r@ == lowercase(s@),
        all_ascii(s@) ==> r@ == s@.map_values(|c: char| ascii_lower(c)),
{
    s.to_lowercase()
}

// ── Prefixes, suffixes, substrings ───────────────────────────────────────────

pub open spec fn starts_with(s: Seq<char>, p: Seq<char>) -> bool {
    p.len() <= s.len() && s.take(p.len() as int) == p
}

pub open spec fn ends_with(s: Seq<char>, p: Seq<char>) -> bool {
    p.len() <= s.len() && s.skip(s.len() - p.len()) == p
}

/// `needle` occurs in `hay` at position `i`.
pub open spec fn occurs_at(hay: Seq<char>, needle: Seq<char>, i: int) -> bool {
    0 <= i && i + needle.len() <= hay.len() && hay.subrange(i, i + needle.len()) == needle
}

pub open spec fn contains_seq(hay: Seq<char>, needle: Seq<char>) -> bool {
    exists|i: int| occurs_at(hay, needle, i)
}

/// `needle` occurs in `v` at position `at`.
pub fn matches_at(v: &[char], at: usize, needle: &[char]) -> (r: bool)
    ensures
        r == occurs_at(v@, needle@, at as int),
{
    if at > v.len() || needle.len() > v.len() - at {
        return false;
    }
    let mut k: usize = 0;
    while k < needle.len()
        invariant
            at + needle@.len() <= v@.len() <= usize::MAX,
            k <= needle@.len(),
            forall|j: int| 0 <= j < k ==> v@[at + j] == needle@[j],
        decreases needle@.len() - k,
    {
        if v[at + k] != needle[k] {
            assert(v@.subrange(at as int, at + needle@.len())[k as int] != needle@[k as int]);
            return false;
        }
        k = k + 1;
    }
    assert(v@.subrange(at as int, at + needle@.len()) =~= needle@);
    true
}

/// Position of the first occurrence of `needle` in `v` at or after `from`.
pub open spec fn first_occurrence_from(hay: Seq<char>, needle: Seq<char>, from: int, r: Option<
    usize,
>) -> bool {
    match r {
        Some(i) => from <= i && occurs_at(hay, needle, i as int) && forall|j: int|
            from <= j < i ==> !occurs_at(hay, needle, j),
        None => forall|j: int| from <= j ==> !occurs_at(hay, needle, j),
    }
}

/// Position of the first occurrence of `needle` in `hay` at or after `from`.
pub open spec fn find_seq(hay: Seq<char>, needle: Seq<char>, from: int) -> Option<int>
    decreases hay.len() + 1 - from,
{
    if from < 0 || from > hay.len() || from + needle.len() > hay.len() {
        None
    } else if occurs_at(hay, needle, from) {
        Some(from)
    } else {
        find_seq(hay, needle, from + 1)
    }
}

pub proof fn lemma_find_seq(hay: Seq<char>, needle: Seq<char>, from: int, r: Option<usize>)
    requires
        0 <= from,
        first_occurrence_from(hay, needle, from, r),
    ensures
        find_seq(hay, needle, from) == match r {
            Some(i) => Some(i as int),
            None => None::<int>,
        },
    decreases hay.len() + 1 - from,
{
    if from + needle.len() <= hay.len() && !occurs_at(hay, needle, from) {
        lemma_find_seq(hay, needle, from + 1, r);
    }
}

/// `str::find` on `v[from..]`, as an absolute position.
pub fn find_from(v: &[char], from: usize, needle: &[char]) -> (r: Option<usize>)
    ensures
        first_occurrence_from(v@, needle@, from as int, r),
{
    if needle.len() > v.len() {
        return None;
    }
    let last = v.len() - needle.len();
    if from > last {
        return None;
    }
    let mut i: usize = from;
    loop
        invariant
            needle@.len() <= v@.len(),
            last == v@.len() - needle@.len(),
            from <= i <= last,
            forall|j: int| from <= j < i ==> !occurs_at(v@, needle@, j),
        decreases last - i,
    {
        if matches_at(v, i, needle) {
            return Some(i);
        }
        if i == last {
            return None;
        }
        i = i + 1;
    }
}

/// Whether `needle` occurs anywhere in `hay`.
pub fn contains(hay: &[char], needle: &[char]) -> (r: bool)
    ensures
        r == contains_seq(hay@, needle@),
{
    match find_from(hay, 0, needle) {
        Some(i) => true,
        None => false,
    }
}

/// Whether `v` starts with `p`.
pub fn has_prefix(v: &[char], p: &[char]) -> (r: bool)
    ensures
        r == starts_with(v@, p@),
{
    let r = matches_at(v, 0, p);
    assert(v@.subrange(0, p@.len() as int) =~= v@.take(p@.len() as int));
    r
}

/// Whether `v` ends with `p`.
pub fn has_suffix(v: &[char], p: &[char]) -> (r: bool)
    ensures
        r == ends_with(v@, p@),
{
    if p.len() > v.len() {
        return false;
    }
    let r = matches_at(v, v.len() - p.len(), p);
    assert(v@.subrange(v@.len() - p@.len(), v@.len() as int) =~= v@.skip(v@.len() - p@.len()));
    r
}

/// Whether two character sequences are equal.
pub fn chars_eq(a: &[char], b: &[char]) -> (r: bool)
    ensures
        r == (a@ == b@),
{
    if a.len() != b.len() {
        return false;
    }
    let r = matches_at(a, 0, b);
    assert(a@.subrange(0, b@.len() as int) =~= a@);
    r
}

/// Whether two strings hold the same characters.
pub fn str_is(s: &str, lit: &str) -> (r: bool)
    ensures
        r == (s@ == lit@),
{
    chars_eq(&chars_of(s), &chars_of(lit))
}

/// Whether `s` starts with the character `c`.
pub fn str_starts_with_char(s: &str, c: char) -> (r: bool)
    ensures
        r == (s@.len() > 0 && s@[0] == c),
{
    let v = chars_of(s);
    v.len() > 0 && v[0] == c
}

// ── Repeated prefixes and suffixes, single characters ───────────────────────

/// `s` with every leading repetition of `p` removed (`str::trim_start_matches`).
pub open spec fn strip_prefix_all(s: Seq<char>, p: Seq<char>) -> Seq<char>
    decreases s.len(),
{
    if p.len() > 0 && starts_with(s, p) {
        strip_prefix_all(s.skip(p.len() as int), p)
    } else {
        s
    }
}

/// `s` with every trailing repetition of `p` removed (`str::trim_end_matches`).
pub open spec fn strip_suffix_all(s: Seq<char>, p: Seq<char>) -> Seq<char>
    decreases s.len(),
{
    if p.len() > 0 && ends_with(s, p) {
        strip_suffix_all(s.take(s.len() - p.len()), p)
    } else {
        s
    }
}

/// Index of the first `c` in `s` at or after `from`.
pub open spec fn find_char(s: Seq<char>, c: char, from: int) -> Option<int>
    decreases s.len() - from,
{
    if from < 0 || from >= s.len() {
        None
    } else if s[from] == c {
        Some(from)
    } else {
        find_char(s, c, from + 1)
    }
}

/// The text of `s` up to the first `c` (all of it when there is none).
pub open spec fn up_to_char(s: Seq<char>, c: char) -> Seq<char> {
    match find_char(s, c, 0) {
        Some(i) => s.take(i),
        None => s,
    }
}

/// End of `v[from..to]` after removing trailing repetitions of `p`.
pub fn strip_suffix_end(v: &[char], from: usize, to: usize, p: &[char]) -> (r: usize)
    requires
        from <= to <= v@.len(),
    ensures
        from <= r <= to,
        v@.subrange(from as int, r as int) == strip_suffix_all(
            v@.subrange(from as int, to as int),
            p@,
        ),
{
    let mut e: usize = to;
    while p.len() > 0 && e - from >= p.len() && matches_at(v, e - p.len(), p)
        invariant
            from <= e <= to <= v@.len(),
            strip_suffix_all(v@.subrange(from as int, to as int), p@) == strip_suffix_all(
                v@.subrange(from as int, e as int),
                p@,
            ),
        decreases e,
    {
        let ghost w = v@.subrange(from as int, e as int);
        assert(w.skip(w.len() - p@.len()) =~= v@.subrange(e - p@.len(), e as int));
        assert(w.take(w.len() - p@.len()) =~= v@.subrange(from as int, e - p@.len()));
        e = e - p.len();
    }
    let ghost w = v@.subrange(from as int, e as int);
    proof {
        if p@.len() > 0 && w.len() >= p@.len() {
            assert(w.skip(w.len() - p@.len()) =~= v@.subrange(e - p@.len(), e as int));
        }
    }
    e
}

/// Start of `v[from..to]` after removing leading repetitions of `p`.
pub fn strip_prefix_start(v: &[char], from: usize, to: usize, p: &[char]) -> (r: usize)
    requires
        from <= to <= v@.len(),
    ensures
        from <= r <= to,
        v@.subrange(r as int, to as int) == strip_prefix_all(
            v@.subrange(from as int, to as int),
            p@,
        ),
{
    let mut b: usize = from;
    while p.len() > 0 && to - b >= p.len() && matches_at(v, b, p)
        invariant
            from <= b <= to <= v@.len(),
            strip_prefix_all(v@.subrange(from as int, to as int), p@) == strip_prefix_all(
                v@.subrange(b as int, to as int),
                p@,
            ),
        decreases to - b,
    {
        let ghost w = v@.subrange(b as int, to as int);
        assert(w.take(p@.len() as int) =~= v@.subrange(b as int, b + p@.len()));
        assert(w.skip(p@.len() as int) =~= v@.subrange(b + p@.len(), to as int));
        b = b + p.len();
    }
    let ghost w = v@.subrange(b as int, to as int);
    proof {
        if p@.len() > 0 && w.len() >= p@.len() {
            assert(w.take(p@.len() as int) =~= v@.subrange(b as int, b + p@.len()));
        }
    }
    b
}

/// Index of the first `c` in `v[from..to]`, if any.
pub fn find_char_in(v: &[char], from: usize, to: usize, c: char) -> (r: Option<usize>)
    requires
        from <= to <= v@.len(),
    ensures
        match r {
            Some(i) => find_char(v@.subrange(from as int, to as int), c, 0) == Some(
                (i - from) as int,
            ) && from <= i < to,
            None => find_char(v@.subrange(from as int, to as int), c, 0) is None,
        },
{
    let ghost w = v@.subrange(from as int, to as int);
    let mut i: usize = from;
    while i < to
        invariant
            from <= i <= to <= v@.len(),
            w == v@.subrange(from as int, to as int),
            find_char(w, c, 0) == find_char(w, c, i - from),
        decreases to - i,
    {
        if v[i] == c {
            return Some(i);
        }
        i = i + 1;
    }
    None
}

// ── Lexicographic order (the order of `String`'s `Ord`) ──────────────────────

/// `a` sorts strictly before `b`, comparing code points left to right
/// (for UTF-8 this is the same order as comparing the bytes).
pub open spec fn lex_lt(a: Seq<char>, b: Seq<char>) -> bool
    decreases a.len(),
{
    if a.len() == 0 {
        b.len() > 0
    } else if b.len() == 0 {
        false
    } else if (a[0] as u32) != (b[0] as u32) {
        (a[0] as u32) < (b[0] as u32)
    } else {
        lex_lt(a.drop_first(), b.drop_first())
    }
}

/// `a` sorts before `b` or equals it.
pub open spec fn lex_le(a: Seq<char>, b: Seq<char>) -> bool {
    !lex_lt(b, a)
}

proof fn lemma_chars_u32_eq(a: char, b: char)
    requires
        (a as u32) == (b as u32),
    ensures
        a == b,
{
    vstd::utf8::char_u32_cast(a, a as u32);
    vstd::utf8::char_u32_cast(b, b as u32);
}

/// No string sorts strictly before itself.
pub proof fn lemma_lex_lt_irreflexive(a: Seq<char>)
    ensures
        !lex_lt(a, a),
    decreases a.len(),
{
    if a.len() > 0 {
        lemma_lex_lt_irreflexive(a.drop_first());
    }
}

/// Of two different strings, exactly one sorts before the other.
pub proof fn lemma_lex_lt_trichotomy(a: Seq<char>, b: Seq<char>)
    ensures
        a != b ==> (lex_lt(a, b) || lex_lt(b, a)),
        !(lex_lt(a, b) && lex_lt(b, a)),
    decreases a.len(),
{
    if a.len() > 0 && b.len() > 0 {
        lemma_lex_lt_trichotomy(a.drop_first(), b.drop_first());
        if (a[0] as u32) == (b[0] as u32) {
            lemma_chars_u32_eq(a[0], b[0]);
            if a.drop_first() == b.drop_first() {
                assert(a =~= seq![a[0]] + a.drop_first());
                assert(b =~= seq![b[0]] + b.drop_first());
            }
        }
    } else if a.len() == 0 && b.len() == 0 {
        assert(a =~= b);
    }
}

/// Sorting strictly before is transitive.
pub proof fn lemma_lex_lt_transitive(a: Seq<char>, b: Seq<char>, c: Seq<char>)
    requires
        lex_lt(a, b),
        lex_lt(b, c),
    ensures
        lex_lt(a, c),
    decreases a.len(),
{
    if a.len() > 0 && b.len() > 0 && c.len() > 0 {
        if (a[0] as u32) == (b[0] as u32) && (b[0] as u32) == (c[0] as u32) {
            lemma_lex_lt_transitive(a.drop_first(), b.drop_first(), c.drop_first());
        }
    }
}

/// `lex_le` as a relation value, for the sorting vocabulary of vstd.
pub open spec fn lex_le_rel() -> spec_fn(Seq<char>, Seq<char>) -> bool {
    |a: Seq<char>, b: Seq<char>| lex_le(a, b)
}

/// `lex_le` is a total order.
pub proof fn lemma_lex_le_total()
    ensures
        vstd::relations::total_ordering(lex_le_rel()),
{
    assert forall|a: Seq<char>| #[trigger] lex_le_rel()(a, a) by {
        lemma_lex_lt_irreflexive(a);
    }
    assert forall|a: Seq<char>, b: Seq<char>|
        #[trigger] lex_le_rel()(a, b) && #[trigger] lex_le_rel()(b, a) implies a == b by {
        lemma_lex_lt_trichotomy(a, b);
    }
    assert forall|a: Seq<char>, b: Seq<char>, c: Seq<char>|
        #[trigger] lex_le_rel()(a, b) && #[trigger] lex_le_rel()(b, c) implies lex_le_rel()(a, c) by {
        lemma_lex_lt_trichotomy(a, b);
        lemma_lex_lt_trichotomy(b, c);
        lemma_lex_lt_trichotomy(a, c);
        if lex_lt(c, a) {
            if a == b {
                assert(lex_lt(c, b));
            } else if b == c {
                assert(lex_lt(b, a));
            } else {
                lemma_lex_lt_transitive(a, b, c);
            }
        }
    }
    assert forall|a: Seq<char>, b: Seq<char>|
        #[trigger] lex_le_rel()(a, b) || #[trigger] lex_le_rel()(b, a) by {
        lemma_lex_lt_trichotomy(a, b);
    }
}

/// Three-way comparison of two strings' characters: -1, 0 or 1.
pub fn lex_order(a: &[char], b: &[char]) -> (r: i8)
    ensures
        r == -1 <==> lex_lt(a@, b@),
        r == 1 <==> lex_lt(b@, a@),
        r == 0 <==> a@ == b@,
{
    let mut i: usize = 0;
    assert(a@.take(0) =~= b@.take(0));
    assert(a@.skip(0) =~= a@);
    assert(b@.skip(0) =~= b@);
    while i < a.len() && i < b.len() && a[i] == b[i]
        invariant
            i <= a@.len(),
            i <= b@.len(),
            a@.take(i as int) == b@.take(i as int),
            lex_lt(a@, b@) == lex_lt(a@.skip(i as int), b@.skip(i as int)),
            lex_lt(b@, a@) == lex_lt(b@.skip(i as int), a@.skip(i as int)),
        decreases a@.len() - i,
    {
        assert(a@.skip(i as int).drop_first() =~= a@.skip(i + 1));
        assert(b@.skip(i as int).drop_first() =~= b@.skip(i + 1));
        assert(a@.take(i + 1) =~= a@.take(i as int).push(a@[i as int]));
        assert(b@.take(i + 1) =~= b@.take(i as int).push(b@[i as int]));
        i = i + 1;
    }
    let ghost sa = a@.skip(i as int);
    let ghost sb = b@.skip(i as int);
    if i < a.len() && i < b.len() {
        assert(sa[0] == a@[i as int]);
        assert(sb[0] == b@[i as int]);
        assert((a@[i as int] as u32) != (b@[i as int] as u32)) by {
            vstd::utf8::char_u32_cast(a@[i as int], a@[i as int] as u32);
            vstd::utf8::char_u32_cast(b@[i as int], b@[i as int] as u32);
        }
        assert(lex_lt(a@, b@) == ((a@[i as int] as u32) < (b@[i as int] as u32)));
        assert(lex_lt(b@, a@) == ((b@[i as int] as u32) < (a@[i as int] as u32)));
        proof {
            if a@ == b@ {
                assert(a@[i as int] == b@[i as int]);
            }
        }
        if (a[i] as u32) < (b[i] as u32) {
            -1
        } else {
            1
        }
    } else if i < b.len() {
        assert(a@ =~= a@.take(i as int));
        assert(sa.len() == 0 && sb.len() > 0);
        assert(lex_lt(a@, b@));
        assert(!lex_lt(b@, a@));
        proof {
            if a@ == b@ {
                assert(a@.len() == b@.len());
            }
        }
        -1
    } else if i < a.len() {
        assert(b@ =~= b@.take(i as int));
        assert(sb.len() == 0 && sa.len() > 0);
        assert(lex_lt(b@, a@));
        assert(!lex_lt(a@, b@));
        proof {
            if a@ == b@ {
                assert(a@.len() == b@.len());
            }
        }
        1
    } else {
        assert(a@ =~= a@.take(i as int));
        assert(b@ =~= b@.take(i as int));
        assert(sa.len() == 0 && sb.len() == 0);
        assert(!lex_lt(a@, b@));
        0
    }
}

// ── Decimal rendering ────────────────────────────────────────────────────────

pub open spec fn digit_char(d: nat) -> char {
    (('0' as u32) + d) as char
}

/// The decimal digits of `n` (what `n.to_string()` gives).
pub open spec fn decimal(n: nat) -> Seq<char>
    decreases n,
{
    if n < 10 {
        seq![digit_char(n)]
    } else {
        decimal(n / 10).push(digit_char(n % 10))
    }
}

pub proof fn lemma_decimal_nonempty(n: nat)
    ensures
        decimal(n).len() >= 1,
        n >= 10 ==> decimal(n).len() >= 2,
    decreases n,
{
    if n >= 10 {
        lemma_decimal_nonempty(n / 10);
    }
}

/// The decimal digits of `n`, as characters.
pub fn decimal_chars(n: u64) -> (r: Vec<char>)
    ensures
        r@ == decimal(n as nat),
    decreases n,
{
    if n < 10 {
        let c = char_of_digit(n as u8);
        return vec![c];
    }
    let mut v = decimal_chars(n / 10);
    let c = char_of_digit((n % 10) as u8);
    v.push(c);
    v
}

/// The digit character for `d < 10`.
pub fn char_of_digit(d: u8) -> (c: char)
    requires
        d < 10,
    ensures
        c == digit_char(d as nat),
{
    match d {
        0 => '0',
        1 => '1',
        2 => '2',
        3 => '3',
        4 => '4',
        5 => '5',
        6 => '6',
        7 => '7',
        8 => '8',
        _ => '9',
    }
}

/// `n.to_string()`.
pub fn u64_to_string(n: u64) -> (r: String)
    ensures
        r@ == decimal(n as nat),
{
    let v = decimal_chars(n);
    string_from_chars(&v)
}

} // verus!
