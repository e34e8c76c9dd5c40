//! HexDocs search data: item types, HTML text clean-up (tag stripping and
//! entity decoding), locating the search index, and mapping raw index items.

use vstd::prelude::*;
use crate::text::{chars_eq, chars_of, has_prefix, string_from_chars};

verus! {

// ── Types ────────────────────────────────────────────────────────────────────

/// Where a `SearchItem` came from.
#[derive(Debug, Clone, Copy, PartialEq, Eq, Structural)]
pub enum SearchSource {
    /// Fetched from hexdocs.pm.
    Remote,
    /// Ingested from a local project's build artefacts.
    Local,
}

/// One entry of a package's documentation search index.
#[derive(Debug)]
pub struct SearchItem {
    pub source: SearchSource,
    /// Package this entry belongs to, e.g. `gleam_stdlib`.
    pub package: String,
    /// `value`, `module`, `page`, `callback`, `type`, …
    pub item_type: String,
    pub title: String,
    pub parent_title: String,
    /// Plain-text doc snippet (HTML stripped).
    pub doc_text: String,
    /// URL relative to the package docs, e.g. `gleeunit.html#main`.
    pub ref_url: String,
}

/// One entry of an ExDoc search index as it is stored.
pub struct RawSearchItem {
    pub item_type: String,
    pub title: String,
    pub parent_title: String,
    pub doc: String,
    pub ref_url: String,
}

// ── Tag stripping ────────────────────────────────────────────────────────────

/// `s` without everything from a `<` up to the next `>` (both included),
/// starting inside a tag when `in_tag` holds.
pub open spec fn strip_tags_from(s: Seq<char>, in_tag: bool) -> Seq<char>
    decreases s.len(),
{
    if s.len() == 0 {
        seq![]
    } else if s[0] == '<' {
        strip_tags_from(s.drop_first(), true)
    } else if s[0] == '>' {
        strip_tags_from(s.drop_first(), false)
    } else if !in_tag {
        seq![s[0]] + strip_tags_from(s.drop_first(), false)
    } else {
        strip_tags_from(s.drop_first(), true)
    }
}

pub open spec fn strip_tags(s: Seq<char>) -> Seq<char> {
    strip_tags_from(s, false)
}

fn strip_html_tags(v: &[char]) -> (r: Vec<char>)
    ensures
        r@ == strip_tags(v@),
{
    let mut out: Vec<char> = Vec::new();
    let mut in_tag = false;
    let mut i: usize = 0;
    assert(v@.skip(0) =~= v@);
    while i < v.len()
        invariant
            i <= v@.len(),
            strip_tags(v@) == out@ + strip_tags_from(v@.skip(i as int), in_tag),
        decreases v@.len() - i,
    {
        let c = v[i];
        assert(v@.skip(i as int)[0] == c);
        assert(v@.skip(i as int).drop_first() =~= v@.skip(i + 1));
        if c == '<' {
            in_tag = true;
        } else if c == '>' {
            in_tag = false;
        } else if !in_tag {
            out.push(c);
            assert(out@ + strip_tags_from(v@.skip(i + 1), false) =~= out@.drop_last() + (
            seq![c] + strip_tags_from(v@.skip(i + 1), false)));
        }
        i = i + 1;
    }
    assert(out@ + strip_tags_from(v@.skip(i as int), in_tag) =~= out@);
    out
}

// ── Numbers in entities ──────────────────────────────────────────────────────

/// The value of a digit in base `radix` (0–9, then letters of either case).
pub open spec fn digit_value(c: char, radix: nat) -> Option<nat> {
    let u = c as u32;
    let d: Option<nat> = if '0' <= c <= '9' {
        Some((u - 48) as nat)
    } else if 'a' <= c <= 'z' {
        Some((u - 97 + 10) as nat)
    } else if 'A' <= c <= 'Z' {
        Some((u - 65 + 10) as nat)
    } else {
        None
    };
    match d {
        Some(v) => if v < radix {
            Some(v)
        } else {
            None
        },
        None => None,
    }
}

/// The number the digits `s` denote in base `radix`, if all are digits.
pub open spec fn digits_value(s: Seq<char>, radix: nat) -> Option<nat>
    decreases s.len(),
{
    if s.len() == 0 {
        Some(0)
    } else {
        match (digits_value(s.drop_last(), radix), digit_value(s.last(), radix)) {
            (Some(a), Some(d)) => Some(a * radix + d),
            _ => None,
        }
    }
}

/// `u32::from_str_radix`: an optional `+` followed by at least one digit, fitting in a `u32`.
pub open spec fn spec_parse_u32(s: Seq<char>, radix: nat) -> Option<u32> {
    let digits = if s.len() > 1 && s[0] == '+' {
        s.drop_first()
    } else {
        s
    };
    if digits.len() == 0 {
        None
    } else {
        match digits_value(digits, radix) {
            Some(v) => if v <= u32::MAX {
                Some(v as u32)
            } else {
                None
            },
            None => None,
        }
    }
}

fn digit_of(c: char, radix: u32) -> (r: Option<u32>)
    requires
        radix <= 36,
    ensures
        match r {
            Some(d) => digit_value(c, radix as nat) == Some(d as nat),
            None => digit_value(c, radix as nat) is None,
        },
{
    let u = c as u32;
    let d: Option<u32> = if '0' <= c && c <= '9' {
        Some(u - 48)
    } else if 'a' <= c && c <= 'z' {
        Some(u - 97 + 10)
    } else if 'A' <= c && c <= 'Z' {
        Some(u - 65 + 10)
    } else {
        None
    };
    match d {
        Some(v) => if v < radix {
            Some(v)
        } else {
            None
        },
        None => None,
    }
}

/// Parse `v[from..to]` as `u32::from_str_radix` would.
pub fn parse_u32_radix(v: &[char], from: usize, to: usize, radix: u32) -> (r: Option<u32>)
    requires
        from <= to <= v@.len(),
        2 <= radix <= 36,
    ensures
        r == spec_parse_u32(v@.subrange(from as int, to as int), radix as nat),
{
    let ghost s = v@.subrange(from as int, to as int);
    let start = if to - from > 1 && v[from] == '+' {
        from + 1
    } else {
        from
    };
    let ghost digits = v@.subrange(start as int, to as int);
    assert(digits =~= if s.len() > 1 && s[0] == '+' {
        s.drop_first()
    } else {
        s
    });
    if start == to {
        return None;
    }
    let mut acc: u64 = 0;
    let mut big = false;
    let mut i: usize = start;
    assert(digits.take(0) =~= Seq::<char>::empty());
    while i < to
        invariant
            start <= i <= to <= v@.len(),
            2 <= radix <= 36,
            digits == v@.subrange(start as int, to as int),
            s == v@.subrange(from as int, to as int),
            digits == if s.len() > 1 && s[0] == '+' {
                s.drop_first()
            } else {
                s
            },
            !big ==> digits_value(digits.take(i - start), radix as nat) == Some(acc as nat),
            !big ==> acc <= u32::MAX,
            big ==> (digits_value(digits.take(i - start), radix as nat) matches Some(x) ==> x
                > u32::MAX),
        decreases to - i,
    {
        let ghost pre = digits.take(i - start);
        let ghost nxt = digits.take(i - start + 1);
        assert(nxt.drop_last() =~= pre);
        assert(nxt.last() == v@[i as int]);
        match digit_of(v[i], radix) {
            None => {
                proof {
                    assert(digit_value(nxt.last(), radix as nat) is None);
                    assert(digits_value(nxt, radix as nat) is None);
                    lemma_digits_none_extends(digits, (i - start + 1) as nat, radix as nat);
                    assert(digits_value(digits, radix as nat) is None);
                    assert(s == v@.subrange(from as int, to as int));
                    assert(spec_parse_u32(s, radix as nat) is None);
                }
                return None;
            },
            Some(d) => {
                if !big {
                    assert(acc * (radix as u64) <= 0xFFFF_FFFFu64 * 36) by (nonlinear_arith)
                        requires
                            acc <= 0xFFFF_FFFFu64,
                            radix <= 36,
                    ;
                    let nv: u64 = acc * (radix as u64) + (d as u64);
                    if nv > 0xFFFF_FFFF {
                        big = true;
                    } else {
                        acc = nv;
                    }
                } else {
                    proof {
                        if let Some(x) = digits_value(nxt, radix as nat) {
                            let a = digits_value(pre, radix as nat)->0;
                            assert(x == a * radix + d);
                            assert(a * radix >= a) by (nonlinear_arith)
                                requires
                                    radix >= 2,
                                    a >= 0,
                            ;
                        }
                    }
                }
            },
        }
        i = i + 1;
    }
    assert(digits.take(to - start) =~= digits);
    assert(digits.len() > 0);
    if big {
        None
    } else {
        Some(acc as u32)
    }
}

/// Once some digit is invalid, every longer prefix is invalid too.
proof fn lemma_digits_none_extends(s: Seq<char>, n: nat, radix: nat)
    requires
        n <= s.len(),
        digits_value(s.take(n as int), radix) is None,
    ensures
        digits_value(s, radix) is None,
    decreases s.len() - n,
{
    if n < s.len() {
        assert(s.take(n as int + 1).drop_last() =~= s.take(n as int));
        lemma_digits_none_extends(s, (n + 1) as nat, radix);
    } else {
        assert(s.take(n as int) =~= s);
    }
}

/// A Unicode scalar value: at most 0x10FFFF and not a surrogate.
pub open spec fn is_scalar_value(u: u32) -> bool {
    u <= 0x10FFFF && !(0xD800 <= u <= 0xDFFF)
}

/// `char::from_u32`: the character with code point `u`, when `u` is a Unicode scalar value.
#[verifier::external_body]
fn char_from_u32(u: u32) -> (r: Option<char>)
    ensures
        match r {
            Some(c) => is_scalar_value(u) && c as u32 == u,
            None => !is_scalar_value(u),
        },
{
    char::from_u32(u)
}

// ── Entities ─────────────────────────────────────────────────────────────────

/// What an entity `&…;` decodes to: the named ones of ExDoc output, and numeric ones
/// (`&#x…;`/`&#X…;` hexadecimal, `&#…;` decimal) that denote a character.
pub open spec fn spec_decode_entity(e: Seq<char>) -> Option<Seq<char>> {
    if e == "&amp;"@ {
        Some("&"@)
    } else if e == "&lt;"@ {
        Some("<"@)
    } else if e == "&gt;"@ {
        Some(">"@)
    } else if e == "&quot;"@ {
        Some("\""@)
    } else if e == "&apos;"@ || e == "&#39;"@ {
        Some("'"@)
    } else if e == "&nbsp;"@ {
        Some(" "@)
    } else if e == "&mdash;"@ || e == "&#8212;"@ || e == "&#x2014;"@ {
        Some("—"@)
    } else if e == "&ndash;"@ || e == "&#8211;"@ || e == "&#x2013;"@ {
        Some("–"@)
    } else if e == "&hellip;"@ || e == "&#8230;"@ || e == "&#x2026;"@ {
        Some("…"@)
    } else if crate::text::starts_with(e, "&#x"@) || crate::text::starts_with(e, "&#X"@) {
        let hex = crate::text::strip_suffix_all(
            crate::text::strip_prefix_all(crate::text::strip_prefix_all(e, "&#x"@), "&#X"@),
            ";"@,
        );
        numeric_entity(spec_parse_u32(hex, 16))
    } else if crate::text::starts_with(e, "&#"@) {
        let dec = crate::text::strip_suffix_all(crate::text::strip_prefix_all(e, "&#"@), ";"@);
        numeric_entity(spec_parse_u32(dec, 10))
    } else {
        None
    }
}

pub open spec fn numeric_entity(n: Option<u32>) -> Option<Seq<char>> {
    match n {
        Some(u) => if is_scalar_value(u) {
            Some(seq![u as char])
        } else {
            None
        },
        None => None,
    }
}

fn is_lit(v: &[char], lit: &str) -> (r: bool)
    ensures
        r == (v@ == lit@),
{
    chars_eq(v, &chars_of(lit))
}

fn numeric_value(n: Option<u32>) -> (r: Option<Vec<char>>)
    ensures
        match r {
            Some(d) => numeric_entity(n) == Some(d@),
            None => numeric_entity(n) is None,
        },
{
    match n {
        Some(u) => match char_from_u32(u) {
            Some(c) => {
                proof {
                    vstd::utf8::char_u32_cast(c, u);
                }
                let mut d: Vec<char> = Vec::new();
                d.push(c);
                assert(d@ =~= seq![u as char]);
                Some(d)
            },
            None => None,
        },
        None => None,
    }
}

/// Decode one entity `&…;`.
pub fn decode_entity(e: &[char]) -> (r: Option<Vec<char>>)
    ensures
        match r {
            Some(d) => spec_decode_entity(e@) == Some(d@),
            None => spec_decode_entity(e@) is None,
        },
{
    if is_lit(e, "&amp;") {
        Some(chars_of("&"))
    } else if is_lit(e, "&lt;") {
        Some(chars_of("<"))
    } else if is_lit(e, "&gt;") {
        Some(chars_of(">"))
    } else if is_lit(e, "&quot;") {
        Some(chars_of("\""))
    } else if is_lit(e, "&apos;") || is_lit(e, "&#39;") {
        Some(chars_of("'"))
    } else if is_lit(e, "&nbsp;") {
        Some(chars_of(" "))
    } else if is_lit(e, "&mdash;") || is_lit(e, "&#8212;") || is_lit(e, "&#x2014;") {
        Some(chars_of("—"))
    } else if is_lit(e, "&ndash;") || is_lit(e, "&#8211;") || is_lit(e, "&#x2013;") {
        Some(chars_of("–"))
    } else if is_lit(e, "&hellip;") || is_lit(e, "&#8230;") || is_lit(e, "&#x2026;") {
        Some(chars_of("…"))
    } else if has_prefix(e, &chars_of("&#x")) || has_prefix(e, &chars_of("&#X")) {
        let n = e.len();
        assert(e@.subrange(0, n as int) =~= e@);
        let a = crate::text::strip_prefix_start(e, 0, n, &chars_of("&#x"));
        let b = crate::text::strip_prefix_start(e, a, n, &chars_of("&#X"));
        let c = crate::text::strip_suffix_end(e, b, n, &chars_of(";"));
        numeric_value(parse_u32_radix(e, b, c, 16))
    } else if has_prefix(e, &chars_of("&#")) {
        let n = e.len();
        assert(e@.subrange(0, n as int) =~= e@);
        let a = crate::text::strip_prefix_start(e, 0, n, &chars_of("&#"));
        let c = crate::text::strip_suffix_end(e, a, n, &chars_of(";"));
        numeric_value(parse_u32_radix(e, a, c, 10))
    } else {
        None
    }
}

/// `s` with each `&…;` (up to the first `;` after the `&`) replaced by what it decodes
/// to, or kept as it is when it decodes to nothing; a `&` without a later `;` stays.
pub open spec fn decode_entities(s: Seq<char>) -> Seq<char>
    decreases s.len(),
{
    match crate::text::find_char(s, '&', 0) {
        None => s,
        Some(a) => {
            proof {
                lemma_find_char_bound(s, '&', 0);
            }
            let r = s.skip(a);
            match crate::text::find_char(r, ';', 0) {
                Some(m) => {
                    proof {
                        lemma_find_char_bound(r, ';', 0);
                    }
                    let e = r.take(m + 1);
                    s.take(a) + match spec_decode_entity(e) {
                        Some(d) => d,
                        None => e,
                    } + decode_entities(r.skip(m + 1))
                },
                None => s.take(a) + seq!['&'] + decode_entities(r.skip(1)),
            }
        },
    }
}

pub proof fn lemma_find_char_bound(s: Seq<char>, c: char, from: int)
    requires
        0 <= from,
    ensures
        match crate::text::find_char(s, c, from) {
            Some(i) => from <= i < s.len() && s[i] == c && forall|j: int|
                from <= j < i ==> s[j] != c,
            None => forall|j: int| from <= j < s.len() ==> s[j] != c,
        },
    decreases s.len() - from,
{
    if from < s.len() && s[from] != c {
        lemma_find_char_bound(s, c, from + 1);
    }
}

/// Append `v[from..to]` to `out`.
fn push_range(out: &mut Vec<char>, v: &[char], from: usize, to: usize)
    requires
        from <= to <= v@.len(),
    ensures
        final(out)@ == old(out)@ + v@.subrange(from as int, to as int),
{
    let mut k: usize = from;
    while k < to
        invariant
            from <= k <= to <= v@.len(),
            out@ == old(out)@ + v@.subrange(from as int, k as int),
        decreases to - k,
    {
        out.push(v[k]);
        assert(out@ =~= old(out)@ + v@.subrange(from as int, k + 1));
        k = k + 1;
    }
}

proof fn lemma_decode_none(v: Seq<char>, pos: int)
    requires
        0 <= pos <= v.len(),
        crate::text::find_char(v.subrange(pos, v.len() as int), '&', 0) is None,
    ensures
        decode_entities(v.skip(pos)) == v.subrange(pos, v.len() as int),
{
    assert(v.skip(pos) =~= v.subrange(pos, v.len() as int));
}

proof fn lemma_decode_entity_at(v: Seq<char>, pos: int, a: int, m: int)
    requires
        0 <= pos <= a <= m < v.len(),
        crate::text::find_char(v.subrange(pos, v.len() as int), '&', 0) == Some(a - pos),
        crate::text::find_char(v.subrange(a, v.len() as int), ';', 0) == Some(m - a),
    ensures
        decode_entities(v.skip(pos)) == v.subrange(pos, a) + match spec_decode_entity(
            v.subrange(a, m + 1),
        ) {
            Some(d) => d,
            None => v.subrange(a, m + 1),
        } + decode_entities(v.skip(m + 1)),
{
    let s = v.skip(pos);
    assert(s =~= v.subrange(pos, v.len() as int));
    let r = s.skip(a - pos);
    assert(r =~= v.subrange(a, v.len() as int));
    assert(s.take(a - pos) =~= v.subrange(pos, a));
    assert(r.take(m - a + 1) =~= v.subrange(a, m + 1));
    assert(r.skip(m - a + 1) =~= v.skip(m + 1));
}

proof fn lemma_decode_lone_amp(v: Seq<char>, pos: int, a: int)
    requires
        0 <= pos <= a < v.len(),
        crate::text::find_char(v.subrange(pos, v.len() as int), '&', 0) == Some(a - pos),
        crate::text::find_char(v.subrange(a, v.len() as int), ';', 0) is None,
    ensures
        decode_entities(v.skip(pos)) == v.subrange(pos, a) + seq!['&'] + decode_entities(
            v.skip(a + 1),
        ),
{
    let s = v.skip(pos);
    assert(s =~= v.subrange(pos, v.len() as int));
    let r = s.skip(a - pos);
    assert(r =~= v.subrange(a, v.len() as int));
    assert(s.take(a - pos) =~= v.subrange(pos, a));
    assert(r.skip(1) =~= v.skip(a + 1));
}

fn decode_html_entities(v: &[char]) -> (r: Vec<char>)
    ensures
        r@ == decode_entities(v@),
{
    let n = v.len();
    let mut out: Vec<char> = Vec::new();
    let mut pos: usize = 0;
    assert(v@.skip(0) =~= v@);
    while pos < n
        invariant
            n == v@.len(),
            pos <= n,
            decode_entities(v@) == out@ + decode_entities(v@.skip(pos as int)),
        decreases n - pos,
    {
        match crate::text::find_char_in(v, pos, n, '&') {
            None => {
                proof {
                    lemma_decode_none(v@, pos as int);
                    assert(v@.skip(n as int).len() == 0);
                    assert(decode_entities(v@.skip(n as int)) =~= Seq::<char>::empty());
                }
                let ghost o = out@;
                push_range(&mut out, v, pos, n);
                assert(out@ + decode_entities(v@.skip(n as int)) =~= o + v@.subrange(
                    pos as int,
                    n as int,
                ));
                pos = n;
            },
            Some(a) => {
                let ghost o = out@;
                push_range(&mut out, v, pos, a);
                match crate::text::find_char_in(v, a, n, ';') {
                    Some(m) => {
                        proof {
                            lemma_decode_entity_at(v@, pos as int, a as int, m as int);
                        }
                        let mut e: Vec<char> = Vec::new();
                        push_range(&mut e, v, a, m + 1);
                        assert(e@ =~= v@.subrange(a as int, m + 1));
                        let ghost o2 = out@;
                        match decode_entity(&e) {
                            Some(mut d) => {
                                let ghost dd = d@;
                                out.append(&mut d);
                                assert(out@ == o2 + dd);
                            },
                            None => {
                                let ghost ee = e@;
                                out.append(&mut e);
                                assert(out@ == o2 + ee);
                            },
                        }
                        assert(decode_entities(v@) == out@ + decode_entities(v@.skip(m + 1)));
                        pos = m + 1;
                    },
                    None => {
                        proof {
                            lemma_decode_lone_amp(v@, pos as int, a as int);
                        }
                        out.push('&');
                        assert(decode_entities(v@) == out@ + decode_entities(v@.skip(a + 1)));
                        pos = a + 1;
                    },
                }
            },
        }
    }
    assert(out@ + decode_entities(v@.skip(n as int)) =~= out@);
    out
}

/// HTML to text: tags stripped, then entities decoded.
pub open spec fn spec_strip_html(s: Seq<char>) -> Seq<char> {
    decode_entities(strip_tags(s))
}

/// Strip HTML tags and decode common HTML entities.
pub fn strip_html(s: &str) -> (r: String)
    ensures
        r@ == spec_strip_html(s@),
{
    let v = chars_of(s);
    let t = strip_html_tags(&v);
    let d = decode_html_entities(&t);
    string_from_chars(&d)
}


// ── Mapping raw index items ──────────────────────────────────────────────────

pub struct SearchItemModel {
    pub source: SearchSource,
    pub package: Seq<char>,
    pub item_type: Seq<char>,
    pub title: Seq<char>,
    pub parent_title: Seq<char>,
    pub doc_text: Seq<char>,
    pub ref_url: Seq<char>,
}

impl View for SearchItem {
    type V = SearchItemModel;

    open spec fn view(&self) -> SearchItemModel {
        SearchItemModel {
            source: self.source,
            package: self.package@,
            item_type: self.item_type@,
            title: self.title@,
            parent_title: self.parent_title@,
            doc_text: self.doc_text@,
            ref_url: self.ref_url@,
        }
    }
}

/// The search item a raw index entry of `package` becomes: remote, with its doc HTML as text.
pub open spec fn spec_map_item(r: RawSearchItem, package: Seq<char>) -> SearchItemModel {
    SearchItemModel {
        source: SearchSource::Remote,
        package: package,
        item_type: r.item_type@,
        title: r.title@,
        parent_title: r.parent_title@,
        doc_text: spec_strip_html(r.doc@),
        ref_url: r.ref_url@,
    }
}

/// Turn the raw entries of `package`'s index into search items.
pub fn map_search_items(items: Vec<RawSearchItem>, package: &str) -> (r: Vec<SearchItem>)
    ensures
        r@.len() == items@.len(),
        forall|i: int| 0 <= i < r@.len() ==> #[trigger] r@[i]@ == spec_map_item(items@[i], package@),
{
    let ghost orig = items@;
    let mut rest = items;
    let _n = rest.len();
    let mut out: Vec<SearchItem> = Vec::new();
    let mut k: usize = 0;
    assert(orig.skip(0) =~= orig);
    while rest.len() > 0
        invariant
            k + rest@.len() == orig.len(),
            orig.len() <= usize::MAX,
            rest@ == orig.skip(k as int),
            out@.len() == k,
            forall|i: int| 0 <= i < k ==> #[trigger] out@[i]@ == spec_map_item(orig[i], package@),
        decreases rest@.len(),
    {
        let r = rest.remove(0);
        assert(rest@ =~= orig.skip(k + 1));
        assert(orig[k as int] == r);
        let doc_text = strip_html(r.doc.as_str());
        let item = SearchItem {
            source: SearchSource::Remote,
            package: package.to_owned(),
            item_type: r.item_type,
            title: r.title,
            parent_title: r.parent_title,
            doc_text,
            ref_url: r.ref_url,
        };
        out.push(item);
        k = k + 1;
    }
    out
}

// ── Locating the JSON of a search payload ────────────────────────────────────

/// Scan for the `}` that brings the brace depth back to zero, ignoring braces inside
/// JSON strings (with `\` escapes); `None` when there is none.
pub open spec fn scan_json(s: Seq<char>, i: int, depth: int, in_string: bool, escape: bool) -> Option<
    int,
>
    decreases s.len() - i,
{
    if i < 0 || i >= s.len() {
        None
    } else {
        let c = s[i];
        if in_string {
            if escape {
                scan_json(s, i + 1, depth, true, false)
            } else if c == '\\' {
                scan_json(s, i + 1, depth, true, true)
            } else if c == '"' {
                scan_json(s, i + 1, depth, false, false)
            } else {
                scan_json(s, i + 1, depth, true, false)
            }
        } else if c == '{' {
            scan_json(s, i + 1, depth + 1, false, escape)
        } else if c == '}' {
            if depth - 1 == 0 {
                Some(i)
            } else {
                scan_json(s, i + 1, depth - 1, false, escape)
            }
        } else if c == '"' {
            scan_json(s, i + 1, depth, true, escape)
        } else {
            scan_json(s, i + 1, depth, false, escape)
        }
    }
}

/// The leading JSON object of `s`, or (without a balanced object) `s` without trailing
/// `;` and surrounding whitespace.
pub open spec fn spec_extract_json_object(s: Seq<char>) -> Seq<char> {
    match scan_json(s, 0, 0, false, false) {
        Some(i) => s.take(i + 1),
        None => crate::text::trim(crate::text::strip_suffix_all(s, ";"@)),
    }
}

/// The leading JSON object of `v[from..]` (see `spec_extract_json_object`).
pub fn extract_json_object(v: &[char], from: usize) -> (r: Vec<char>)
    requires
        from <= v@.len(),
    ensures
        r@ == spec_extract_json_object(v@.skip(from as int)),
{
    let ghost s = v@.skip(from as int);
    let n0 = v.len();
    let mut depth: i128 = 0;
    let mut in_string = false;
    let mut escape = false;
    let mut i: usize = from;
    while i < v.len()
        invariant
            from <= i <= v@.len(),
            n0 == v@.len(),
            s == v@.skip(from as int),
            -(i - from) <= depth <= i - from,
            scan_json(s, 0, 0, false, false) == scan_json(s, i - from, depth as int, in_string, escape),
        decreases v@.len() - i,
    {
        let c = v[i];
        assert(s[i - from] == c);
        if in_string {
            if escape {
                escape = false;
            } else if c == '\\' {
                escape = true;
            } else if c == '"' {
                in_string = false;
            }
        } else if c == '{' {
            depth = depth + 1;
        } else if c == '}' {
            depth = depth - 1;
            if depth == 0 {
                let mut out: Vec<char> = Vec::new();
                push_range(&mut out, v, from, i + 1);
                assert(out@ =~= s.take(i - from + 1));
                return out;
            }
        } else if c == '"' {
            in_string = true;
        }
        i = i + 1;
    }
    let n = v.len();
    assert(v@.subrange(from as int, n as int) =~= s);
    let e = crate::text::strip_suffix_end(v, from, n, &[';']);
    assert(seq![';'] =~= [';']@);
    assert(";"@ =~= seq![';']) by {
        reveal_strlit(";");
    }
    let (a, b) = crate::text::trim_bounds(v, from, e);
    let mut out: Vec<char> = Vec::new();
    push_range(&mut out, v, a, b);
    out
}

/// The JSON text of an ExDoc search payload.
pub enum SearchPayload {
    /// The whole (trimmed) body is JSON.
    Json(String),
    /// The JSON object assigned to `searchData` in JavaScript.
    Assignment(String),
}

pub enum SearchPayloadModel {
    Json(Seq<char>),
    Assignment(Seq<char>),
}

impl View for SearchPayload {
    type V = SearchPayloadModel;

    open spec fn view(&self) -> SearchPayloadModel {
        match self {
            SearchPayload::Json(s) => SearchPayloadModel::Json(s@),
            SearchPayload::Assignment(s) => SearchPayloadModel::Assignment(s@),
        }
    }
}

/// Where the JSON of a search payload is: the trimmed body when it starts with `{`;
/// else the object after the first `searchData`, `=` (whitespace allowed around it);
/// else nowhere.
pub open spec fn spec_search_payload(body: Seq<char>) -> Option<SearchPayloadModel> {
    let b = crate::text::trim(body);
    if b.len() > 0 && b[0] == '{' {
        Some(SearchPayloadModel::Json(b))
    } else {
        match crate::text::find_seq(b, "searchData"@, 0) {
            None => None,
            Some(k) => {
                let after = crate::text::trim_start(b.skip(k + 10));
                match crate::text::find_char(after, '=', 0) {
                    None => None,
                    Some(e) => {
                        let jp = crate::text::trim_start(after.skip(e + 1));
                        if jp.len() > 0 && jp[0] == '{' {
                            Some(SearchPayloadModel::Assignment(spec_extract_json_object(jp)))
                        } else {
                            None
                        }
                    },
                }
            },
        }
    }
}

/// Find the JSON of a search payload (see `spec_search_payload`).
#[verifier::spinoff_prover]
#[verifier::rlimit(40)]
pub fn search_payload(body: &str) -> (r: Option<SearchPayload>)
    ensures
        match r {
            Some(p) => spec_search_payload(body@) == Some(p@),
            None => spec_search_payload(body@) is None,
        },
{
    let v = chars_of(body);
    let n = v.len();
    assert(v@.subrange(0, n as int) =~= v@);
    let (a, b) = crate::text::trim_bounds(&v, 0, n);
    let mut t: Vec<char> = Vec::new();
    push_range(&mut t, &v, a, b);
    assert(t@ == crate::text::trim(body@));
    let tn = t.len();
    if tn > 0 && t[0] == '{' {
        return Some(SearchPayload::Json(string_from_chars(&t)));
    }
    let kw = chars_of("searchData");
    let found = crate::text::find_from(&t, 0, &kw);
    proof {
        crate::text::lemma_find_seq(t@, kw@, 0, found);
    }
    match found {
        None => None,
        Some(k) => {
            assert(kw@.len() == 10) by {
                reveal_strlit("searchData");
            }
            let p1 = k + 10;
            let p2 = crate::text::skip_ws(&t, p1);
            proof {
                crate::text::lemma_lead_ws_bound(t@.skip(p1 as int));
            }
            let ghost after = t@.skip(p2 as int);
            assert(after =~= crate::text::trim_start(t@.skip(k + 10)));
            assert(t@.subrange(p2 as int, tn as int) =~= after);
            match crate::text::find_char_in(&t, p2, tn, '=') {
                None => None,
                Some(e) => {
                    let p3 = crate::text::skip_ws(&t, e + 1);
                    assert(after.skip(e - p2 + 1) =~= t@.skip(e + 1));
                    let ghost jp = t@.skip(p3 as int);
                    assert(jp =~= crate::text::trim_start(after.skip(e - p2 + 1)));
                    if p3 < tn && t[p3] == '{' {
                        let j = extract_json_object(&t, p3);
                        Some(SearchPayload::Assignment(string_from_chars(&j)))
                    } else {
                        None
                    }
                },
            }
        },
    }
}

// ── Entities of every character ──────────────────────────────────────────────

proof fn lemma_decimal_digits(n: nat)
    ensures
        digits_value(crate::text::decimal(n), 10) == Some(n),
        forall|i: int|
            0 <= i < crate::text::decimal(n).len() ==> '0' <= #[trigger] crate::text::decimal(n)[i]
                <= '9',
    decreases n,
{
    let s = crate::text::decimal(n);
    let d: nat = if n < 10 {
        n
    } else {
        n % 10
    };
    let c = crate::text::digit_char(d);
    assert(c as u32 == 48 + d);
    assert(digit_value(c, 10) == Some(d));
    if n < 10 {
        assert(s == seq![c]);
        assert(s.drop_last() =~= Seq::<char>::empty());
        assert(s.last() == c);
        assert(digits_value(s.drop_last(), 10) == Some(0nat));
    } else {
        lemma_decimal_digits(n / 10);
        let p = crate::text::decimal(n / 10);
        assert(s == p.push(c));
        assert(s.drop_last() =~= p);
        assert(n == (n / 10) * 10 + n % 10) by (nonlinear_arith);
        assert(s.last() == c);
        assert(digits_value(s, 10) == Some((n / 10) * 10 + d));
        assert forall|i: int| 0 <= i < s.len() implies '0' <= #[trigger] s[i] <= '9' by {
            if i < p.len() {
                assert(s[i] == p[i]);
            }
        }
    }
}

/// `decode_entity` (whose result is `spec_decode_entity`) gives back every
/// character from its decimal numeric entity: `&#`, the code point in decimal
/// (as `format!("&#{};", c as u32)` writes it), then `;`.
pub proof fn lemma_decimal_entity_roundtrip(c: char)
    ensures
        spec_decode_entity("&#"@ + crate::text::decimal(c as u32 as nat) + ";"@) == Some(seq![c]),
{
    let n = c as u32 as nat;
    let ds = crate::text::decimal(n);
    let e = "&#"@ + ds + ";"@;
    reveal_strlit("&#");
    reveal_strlit(";");
    lemma_decimal_digits(n);
    crate::text::lemma_decimal_nonempty(n);
    assert(e[0] == '&' && e[1] == '#');
    assert(e[2] == ds[0]);
    assert(e[e.len() - 1] == ';');
    // The named entities have a letter after `&`.
    reveal_strlit("&amp;");
    reveal_strlit("&lt;");
    reveal_strlit("&gt;");
    reveal_strlit("&quot;");
    reveal_strlit("&apos;");
    reveal_strlit("&nbsp;");
    reveal_strlit("&mdash;");
    reveal_strlit("&ndash;");
    reveal_strlit("&hellip;");
    assert(e != "&amp;"@ && e != "&lt;"@ && e != "&gt;"@ && e != "&quot;"@ && e != "&apos;"@
        && e != "&nbsp;"@ && e != "&mdash;"@ && e != "&ndash;"@ && e != "&hellip;"@) by {
        assert("&amp;"@[1] != e[1]);
        assert("&lt;"@[1] != e[1]);
        assert("&gt;"@[1] != e[1]);
        assert("&quot;"@[1] != e[1]);
        assert("&apos;"@[1] != e[1]);
        assert("&nbsp;"@[1] != e[1]);
        assert("&mdash;"@[1] != e[1]);
        assert("&ndash;"@[1] != e[1]);
        assert("&hellip;"@[1] != e[1]);
    }
    reveal_strlit("&#x2014;");
    reveal_strlit("&#x2013;");
    reveal_strlit("&#x2026;");
    reveal_strlit("&#x");
    reveal_strlit("&#X");
    assert(e != "&#x2014;"@ && e != "&#x2013;"@ && e != "&#x2026;"@) by {
        assert("&#x2014;"@[2] == 'x');
        assert("&#x2013;"@[2] == 'x');
        assert("&#x2026;"@[2] == 'x');
    }
    assert(!crate::text::starts_with(e, "&#x"@) && !crate::text::starts_with(e, "&#X"@)) by {
        assert(e.take(3)[2] == e[2]);
        assert("&#x"@[2] == 'x');
        assert("&#X"@[2] == 'X');
    }
    assert(crate::text::starts_with(e, "&#"@)) by {
        assert(e.take(2) =~= "&#"@);
    }
    // The generic path.
    assert(e.skip(2) =~= ds + ";"@);
    let t = ds + ";"@;
    assert(t[0] == ds[0]);
    assert(!crate::text::starts_with(t, "&#"@)) by {
        assert(t.take(2)[0] == t[0]);
    }
    assert(crate::text::strip_prefix_all(t, "&#"@) == t);
    assert(crate::text::strip_prefix_all(e, "&#"@) == crate::text::strip_prefix_all(e.skip(2), "&#"@));
    assert(t.take(t.len() - 1) =~= ds);
    assert(t.skip(t.len() - 1) =~= ";"@);
    assert(ds[ds.len() - 1] != ';');
    assert(!crate::text::ends_with(ds, ";"@)) by {
        assert(ds.skip(ds.len() - 1)[0] == ds[ds.len() - 1]);
    }
    assert(crate::text::strip_suffix_all(ds, ";"@) == ds);
    assert(crate::text::strip_suffix_all(t, ";"@) == crate::text::strip_suffix_all(ds, ";"@));
    assert(spec_parse_u32(ds, 10) == Some(c as u32)) by {
        assert(ds[0] != '+');
    }
    assert((c as u32) as char == c);
    // The numeric entities that are also spelled out give the same character.
    reveal_strlit("&#39;");
    reveal_strlit("&#8212;");
    reveal_strlit("&#8211;");
    reveal_strlit("&#8230;");
    reveal_strlit("'");
    reveal_strlit("—");
    reveal_strlit("–");
    reveal_strlit("…");
    if e == "&#39;"@ {
        assert(ds =~= seq!['3', '9']);
        assert(seq!['3'].drop_last() =~= Seq::<char>::empty());
        assert(digits_value(Seq::<char>::empty(), 10) == Some(0nat));
        assert(digit_value('3', 10) == Some(3nat));
        assert(seq!['3'].last() == '3');
        assert(digits_value(seq!['3'], 10) == Some(3nat));
        assert(seq!['3', '9'].drop_last() =~= seq!['3']);
        assert(digit_value('9', 10) == Some(9nat));
        assert(seq!['3', '9'].last() == '9');
        assert(digits_value(seq!['3', '9'], 10) == Some(39nat));
        assert(c as u32 == 39);
    } else if e == "&#8212;"@ {
        assert(ds =~= seq!['8', '2', '1', '2']);
        assert(seq!['8'].drop_last() =~= Seq::<char>::empty());
        assert(digits_value(Seq::<char>::empty(), 10) == Some(0nat));
        assert(digit_value('8', 10) == Some(8nat));
        assert(seq!['8'].last() == '8');
        assert(digits_value(seq!['8'], 10) == Some(8nat));
        assert(seq!['8', '2'].drop_last() =~= seq!['8']);
        assert(digit_value('2', 10) == Some(2nat));
        assert(seq!['8', '2'].last() == '2');
        assert(digits_value(seq!['8', '2'], 10) == Some(82nat));
        assert(seq!['8', '2', '1'].drop_last() =~= seq!['8', '2']);
        assert(digit_value('1', 10) == Some(1nat));
        assert(seq!['8', '2', '1'].last() == '1');
        assert(digits_value(seq!['8', '2', '1'], 10) == Some(821nat));
        assert(seq!['8', '2', '1', '2'].drop_last() =~= seq!['8', '2', '1']);
        assert(digit_value('2', 10) == Some(2nat));
        assert(seq!['8', '2', '1', '2'].last() == '2');
        assert(digits_value(seq!['8', '2', '1', '2'], 10) == Some(8212nat));
    } else if e == "&#8211;"@ {
        assert(ds =~= seq!['8', '2', '1', '1']);
        assert(seq!['8'].drop_last() =~= Seq::<char>::empty());
        assert(digits_value(Seq::<char>::empty(), 10) == Some(0nat));
        assert(digit_value('8', 10) == Some(8nat));
        assert(seq!['8'].last() == '8');
        assert(digits_value(seq!['8'], 10) == Some(8nat));
        assert(seq!['8', '2'].drop_last() =~= seq!['8']);
        assert(digit_value('2', 10) == Some(2nat));
        assert(seq!['8', '2'].last() == '2');
        assert(digits_value(seq!['8', '2'], 10) == Some(82nat));
        assert(seq!['8', '2', '1'].drop_last() =~= seq!['8', '2']);
        assert(digit_value('1', 10) == Some(1nat));
        assert(seq!['8', '2', '1'].last() == '1');
        assert(digits_value(seq!['8', '2', '1'], 10) == Some(821nat));
        assert(seq!['8', '2', '1', '1'].drop_last() =~= seq!['8', '2', '1']);
        assert(digit_value('1', 10) == Some(1nat));
        assert(seq!['8', '2', '1', '1'].last() == '1');
        assert(digits_value(seq!['8', '2', '1', '1'], 10) == Some(8211nat));
    } else if e == "&#8230;"@ {
        assert(ds =~= seq!['8', '2', '3', '0']);
        assert(seq!['8'].drop_last() =~= Seq::<char>::empty());
        assert(digits_value(Seq::<char>::empty(), 10) == Some(0nat));
        assert(digit_value('8', 10) == Some(8nat));
        assert(seq!['8'].last() == '8');
        assert(digits_value(seq!['8'], 10) == Some(8nat));
        assert(seq!['8', '2'].drop_last() =~= seq!['8']);
        assert(digit_value('2', 10) == Some(2nat));
        assert(seq!['8', '2'].last() == '2');
        assert(digits_value(seq!['8', '2'], 10) == Some(82nat));
        assert(seq!['8', '2', '3'].drop_last() =~= seq!['8', '2']);
        assert(digit_value('3', 10) == Some(3nat));
        assert(seq!['8', '2', '3'].last() == '3');
        assert(digits_value(seq!['8', '2', '3'], 10) == Some(823nat));
        assert(seq!['8', '2', '3', '0'].drop_last() =~= seq!['8', '2', '3']);
        assert(digit_value('0', 10) == Some(0nat));
        assert(seq!['8', '2', '3', '0'].last() == '0');
        assert(digits_value(seq!['8', '2', '3', '0'], 10) == Some(8230nat));
    }
}

/// The hexadecimal digit of value `d` (below 16), in upper or lower case.
pub open spec fn hex_digit_char(d: nat, upper: bool) -> char {
    if d < 10 {
        ((48 + d) as u32) as char
    } else if upper {
        ((55 + d) as u32) as char
    } else {
        ((87 + d) as u32) as char
    }
}

/// The hexadecimal digits of `n` (what `format!("{:x}", n)`, or with `upper`
/// `format!("{:X}", n)`, gives).
pub open spec fn hex_digits(n: nat, upper: bool) -> Seq<char>
    decreases n,
{
    if n < 16 {
        seq![hex_digit_char(n, upper)]
    } else {
        hex_digits(n / 16, upper).push(hex_digit_char(n % 16, upper))
    }
}

proof fn lemma_hex_digits(n: nat, upper: bool)
    ensures
        digits_value(hex_digits(n, upper), 16) == Some(n),
        hex_digits(n, upper).len() >= 1,
        forall|i: int|
            0 <= i < hex_digits(n, upper).len() ==> (#[trigger] hex_digits(n, upper)[i] != ';'
                && hex_digits(n, upper)[i] != '&' && hex_digits(n, upper)[i] != 'x'
                && hex_digits(n, upper)[i] != 'X' && hex_digits(n, upper)[i] != '+'),
    decreases n,
{
    let s = hex_digits(n, upper);
    let d: nat = if n < 16 {
        n
    } else {
        n % 16
    };
    let c = hex_digit_char(d, upper);
    if d < 10 {
        assert(c as u32 == 48 + d);
    } else if upper {
        assert(c as u32 == 55 + d);
    } else {
        assert(c as u32 == 87 + d);
    }
    assert(digit_value(c, 16) == Some(d));
    assert(c != ';' && c != '&' && c != 'x' && c != 'X' && c != '+');
    if n < 16 {
        assert(s == seq![c]);
        assert(s.drop_last() =~= Seq::<char>::empty());
        assert(s.last() == c);
        assert(digits_value(s.drop_last(), 16) == Some(0nat));
    } else {
        lemma_hex_digits(n / 16, upper);
        let p = hex_digits(n / 16, upper);
        assert(s == p.push(c));
        assert(s.drop_last() =~= p);
        assert(n == (n / 16) * 16 + n % 16) by (nonlinear_arith);
        assert(s.last() == c);
        assert(digits_value(s, 16) == Some((n / 16) * 16 + d));
        assert forall|i: int| 0 <= i < s.len() implies (#[trigger] s[i] != ';' && s[i] != '&' && s[i]
            != 'x' && s[i] != 'X' && s[i] != '+') by {
            if i < p.len() {
                assert(s[i] == p[i]);
            }
        }
    }
}

/// `decode_entity` (whose result is `spec_decode_entity`) gives back every
/// character from its hexadecimal numeric entity: `&#x` with lower-case digits
/// or `&#X` with upper-case ones (as `format!("&#x{:x};", n)` and
/// `format!("&#X{:X};", n)` write them), then `;`.
pub proof fn lemma_hex_entity_roundtrip(c: char, upper: bool)
    ensures
        spec_decode_entity(
            (if upper {
                "&#X"@
            } else {
                "&#x"@
            }) + hex_digits(c as u32 as nat, upper) + ";"@,
        ) == Some(seq![c]),
{
    let n = c as u32 as nat;
    let hs = hex_digits(n, upper);
    let pre = if upper {
        "&#X"@
    } else {
        "&#x"@
    };
    let e = pre + hs + ";"@;
    reveal_strlit("&#X");
    reveal_strlit("&#x");
    reveal_strlit(";");
    lemma_hex_digits(n, upper);
    assert(e[0] == '&' && e[1] == '#' && e[2] == pre[2]);
    assert(e[3] == hs[0]);
    reveal_strlit("&amp;");
    reveal_strlit("&lt;");
    reveal_strlit("&gt;");
    reveal_strlit("&quot;");
    reveal_strlit("&apos;");
    reveal_strlit("&nbsp;");
    reveal_strlit("&mdash;");
    reveal_strlit("&ndash;");
    reveal_strlit("&hellip;");
    assert(e != "&amp;"@ && e != "&lt;"@ && e != "&gt;"@ && e != "&quot;"@ && e != "&apos;"@
        && e != "&nbsp;"@ && e != "&mdash;"@ && e != "&ndash;"@ && e != "&hellip;"@) by {
        assert("&amp;"@[1] != e[1]);
        assert("&lt;"@[1] != e[1]);
        assert("&gt;"@[1] != e[1]);
        assert("&quot;"@[1] != e[1]);
        assert("&apos;"@[1] != e[1]);
        assert("&nbsp;"@[1] != e[1]);
        assert("&mdash;"@[1] != e[1]);
        assert("&ndash;"@[1] != e[1]);
        assert("&hellip;"@[1] != e[1]);
    }
    reveal_strlit("&#39;");
    reveal_strlit("&#8212;");
    reveal_strlit("&#8211;");
    reveal_strlit("&#8230;");
    assert(e != "&#39;"@ && e != "&#8212;"@ && e != "&#8211;"@ && e != "&#8230;"@) by {
        assert("&#39;"@[2] != e[2]);
        assert("&#8212;"@[2] != e[2]);
        assert("&#8211;"@[2] != e[2]);
        assert("&#8230;"@[2] != e[2]);
    }
    assert(crate::text::starts_with(e, pre)) by {
        assert(e.take(3) =~= pre);
    }
    let t = hs + ";"@;
    assert(e.skip(3) =~= t);
    assert(t[0] == hs[0]);
    assert(!crate::text::starts_with(t, "&#x"@)) by {
        if t.len() >= 3 {
            assert(t.take(3)[0] == t[0]);
        }
    }
    assert(!crate::text::starts_with(t, "&#X"@)) by {
        if t.len() >= 3 {
            assert(t.take(3)[0] == t[0]);
        }
    }
    assert(crate::text::strip_prefix_all(t, "&#x"@) == t);
    assert(crate::text::strip_prefix_all(t, "&#X"@) == t);
    if upper {
        assert(!crate::text::starts_with(e, "&#x"@)) by {
            assert(e.take(3)[2] == e[2]);
        }
        assert(crate::text::strip_prefix_all(e, "&#x"@) == e);
        assert(crate::text::strip_prefix_all(e, "&#X"@) == crate::text::strip_prefix_all(e.skip(3), "&#X"@));
    } else {
        assert(crate::text::strip_prefix_all(e, "&#x"@) == crate::text::strip_prefix_all(e.skip(3), "&#x"@));
    }
    assert(t.take(t.len() - 1) =~= hs);
    assert(t.skip(t.len() - 1) =~= ";"@);
    assert(hs[hs.len() - 1] != ';');
    assert(!crate::text::ends_with(hs, ";"@)) by {
        assert(hs.skip(hs.len() - 1)[0] == hs[hs.len() - 1]);
    }
    assert(crate::text::strip_suffix_all(hs, ";"@) == hs);
    assert(crate::text::strip_suffix_all(t, ";"@) == crate::text::strip_suffix_all(hs, ";"@));
    assert(spec_parse_u32(hs, 16) == Some(c as u32)) by {
        assert(hs[0] != '+');
    }
    assert((c as u32) as char == c);
    // The hexadecimal entities that are also spelled out give the same character.
    reveal_strlit("&#x2014;");
    reveal_strlit("&#x2013;");
    reveal_strlit("&#x2026;");
    reveal_strlit("—");
    reveal_strlit("–");
    reveal_strlit("…");
    if e == "&#x2014;"@ || e == "&#x2013;"@ || e == "&#x2026;"@ {
        assert(!upper);
        assert(hs.len() == 4);
        assert(hs[0] == '2' && hs[1] == '0');
        assert(digits_value(hs, 16) == Some(n));
        assert(hs.drop_last().drop_last().drop_last().drop_last() =~= Seq::<char>::empty());
        assert(digit_value('2', 16) == Some(2nat));
        assert(digit_value('0', 16) == Some(0nat));
        assert(digit_value('1', 16) == Some(1nat));
        assert(digit_value('4', 16) == Some(4nat));
        assert(digit_value('3', 16) == Some(3nat));
        assert(digit_value('6', 16) == Some(6nat));
        let h1 = hs.drop_last().drop_last().drop_last();
        let h2 = hs.drop_last().drop_last();
        assert(h1 =~= seq!['2']);
        assert(h1.drop_last() =~= Seq::<char>::empty());
        assert(digits_value(Seq::<char>::empty(), 16) == Some(0nat));
        assert(h1.last() == '2');
        assert(digits_value(h1, 16) == Some(2nat));
        assert(h2 =~= seq!['2', '0']);
        assert(h2.drop_last() =~= h1);
        assert(h2.last() == '0');
        assert(digits_value(h2, 16) == Some(32nat));
        assert(hs.drop_last().drop_last() =~= h2);
        assert(hs.drop_last().last() == hs[2]);
        assert(hs.last() == hs[3]);
        if e == "&#x2014;"@ {
            assert(hs[2] == '1' && hs[3] == '4');
            assert(digits_value(hs.drop_last(), 16) == Some(513nat));
            assert(n == 0x2014);
        } else if e == "&#x2013;"@ {
            assert(hs[2] == '1' && hs[3] == '3');
            assert(digits_value(hs.drop_last(), 16) == Some(513nat));
            assert(n == 0x2013);
        } else {
            assert(hs[2] == '2' && hs[3] == '6');
            assert(digits_value(hs.drop_last(), 16) == Some(514nat));
            assert(n == 0x2026);
        }
    }
}

// ── Laws ─────────────────────────────────────────────────────────────────────

/// Whether `c` occurs in `s`.
pub open spec fn has_char(s: Seq<char>, c: char) -> bool {
    exists|i: int| 0 <= i < s.len() && s[i] == c
}

/// Stripping tags leaves no `<` and no `>`.
pub proof fn lemma_strip_tags_no_brackets(s: Seq<char>, in_tag: bool)
    ensures
        !has_char(strip_tags_from(s, in_tag), '<'),
        !has_char(strip_tags_from(s, in_tag), '>'),
    decreases s.len(),
{
    if s.len() > 0 {
        lemma_strip_tags_no_brackets(s.drop_first(), true);
        lemma_strip_tags_no_brackets(s.drop_first(), false);
        let r = strip_tags_from(s, in_tag);
        if !in_tag && s[0] != '<' && s[0] != '>' {
            let t = strip_tags_from(s.drop_first(), false);
            assert forall|i: int| 0 <= i < r.len() implies r[i] != '<' && r[i] != '>' by {
                if i > 0 {
                    assert(r[i] == t[i - 1]);
                }
            }
        }
    }
}

/// Text without `<` and `>` has no tags to strip.
pub proof fn lemma_strip_tags_plain(s: Seq<char>)
    requires
        !has_char(s, '<'),
        !has_char(s, '>'),
    ensures
        strip_tags_from(s, false) == s,
    decreases s.len(),
{
    if s.len() > 0 {
        let t = s.drop_first();
        assert(!has_char(t, '<') && !has_char(t, '>')) by {
            assert forall|i: int| 0 <= i < t.len() implies t[i] != '<' && t[i] != '>' by {
                assert(t[i] == s[i + 1]);
            }
        }
        assert(s[0] != '<' && s[0] != '>') by {
            assert(s[0] == s[0]);
        }
        lemma_strip_tags_plain(t);
        assert(seq![s[0]] + t =~= s);
    }
}

/// Whether the nearest `<` or `>` before position `i` of `s` is a `<`.
pub open spec fn inside_tag(s: Seq<char>, i: int) -> bool
    decreases i,
{
    if i <= 0 {
        false
    } else if s[i - 1] == '<' {
        true
    } else if s[i - 1] == '>' {
        false
    } else {
        inside_tag(s, i - 1)
    }
}

/// The characters among the first `n` of `s` that are neither `<` nor `>` and
/// do not stand inside a tag, in order.
pub open spec fn text_outside_tags(s: Seq<char>, n: int) -> Seq<char>
    decreases n,
{
    if n <= 0 {
        seq![]
    } else {
        let c = s[n - 1];
        let rest = text_outside_tags(s, n - 1);
        if c != '<' && c != '>' && !inside_tag(s, n - 1) {
            rest.push(c)
        } else {
            rest
        }
    }
}

proof fn lemma_strip_tags_prefix(s: Seq<char>, n: int)
    requires
        0 <= n <= s.len(),
    ensures
        strip_tags(s) == text_outside_tags(s, n) + strip_tags_from(s.skip(n), inside_tag(s, n)),
    decreases n,
{
    if n == 0 {
        assert(s.skip(0) =~= s);
        assert(text_outside_tags(s, 0) + strip_tags_from(s, false) =~= strip_tags_from(s, false));
    } else {
        lemma_strip_tags_prefix(s, n - 1);
        let u = s.skip(n - 1);
        let c = s[n - 1];
        assert(u[0] == c);
        assert(u.drop_first() =~= s.skip(n));
        let head = text_outside_tags(s, n - 1);
        let tail = strip_tags_from(s.skip(n), inside_tag(s, n));
        if c != '<' && c != '>' && !inside_tag(s, n - 1) {
            assert(strip_tags_from(u, false) == seq![c] + tail);
            assert(head + (seq![c] + tail) =~= head.push(c) + tail);
        }
    }
}

/// What stripping tags keeps: exactly the characters that are neither `<` nor
/// `>` and whose nearest `<` or `>` before them, if there is one, is a `>`.
pub proof fn lemma_strip_tags_keeps_text_outside_tags(s: Seq<char>)
    ensures
        strip_tags(s) == text_outside_tags(s, s.len() as int),
{
    lemma_strip_tags_prefix(s, s.len() as int);
    assert(s.skip(s.len() as int) =~= Seq::<char>::empty());
    assert(text_outside_tags(s, s.len() as int) + Seq::<char>::empty() =~= text_outside_tags(
        s,
        s.len() as int,
    ));
}

/// The law of `strip_html_tags` as a whole: it keeps exactly the characters that
/// are neither `<` nor `>` and whose nearest `<` or `>` before them, if any, is a
/// `>`, in order; so no `<` and no `>` survives, and text holding neither comes
/// back unchanged.
pub proof fn lemma_strip_html_tags(s: Seq<char>)
    ensures
        strip_tags(s) == text_outside_tags(s, s.len() as int),
        !has_char(strip_tags(s), '<'),
        !has_char(strip_tags(s), '>'),
        !has_char(s, '<') && !has_char(s, '>') ==> strip_tags(s) == s,
{
    lemma_strip_tags_keeps_text_outside_tags(s);
    lemma_strip_tags_no_brackets(s, false);
    if !has_char(s, '<') && !has_char(s, '>') {
        lemma_strip_tags_plain(s);
    }
}

proof fn lemma_find_char_none(s: Seq<char>, c: char, from: int)
    requires
        0 <= from,
        forall|i: int| from <= i < s.len() ==> s[i] != c,
    ensures
        crate::text::find_char(s, c, from) is None,
    decreases s.len() - from,
{
    if from < s.len() {
        lemma_find_char_none(s, c, from + 1);
    }
}

/// Text without `&` has no entities to decode.
pub proof fn lemma_decode_plain(s: Seq<char>)
    requires
        !has_char(s, '&'),
    ensures
        decode_entities(s) == s,
{
    lemma_find_char_none(s, '&', 0);
}

/// Plain text (no `<`, `>` or `&`) comes through `strip_html` unchanged.
pub proof fn lemma_strip_html_plain(s: Seq<char>)
    requires
        !has_char(s, '<'),
        !has_char(s, '>'),
        !has_char(s, '&'),
    ensures
        spec_strip_html(s) == s,
{
    lemma_strip_tags_plain(s);
    lemma_decode_plain(s);
}

} // verus!
