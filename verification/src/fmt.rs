//! Number and text formatting shared by the list views and the CLI output.

use vstd::prelude::*;
use vstd::arithmetic::power2::pow2;
use vstd::string::StringSliceAdditionalSpecFns;
use crate::text::{char_of_digit, decimal_chars, string_from_chars};

verus! {

/// `n / d` rounded to the nearest integer, ties to the even neighbour.
pub open spec fn round_half_even(n: nat, d: nat) -> nat
    recommends
        d > 0,
{
    let q = n / d;
    let r = n % d;
    if 2 * r > d || (2 * r == d && q % 2 == 1) {
        q + 1
    } else {
        q
    }
}

// ── Numbers printed from double precision ────────────────────────────────────
//
// The counts below are divided and printed as `f64` (`n as f64 / 1e6` shown with
// `{:.1}`). Doubles from 1 up to 2^53 are the numbers `m / 2^k` with `m` an
// integer below 2^53, so the arithmetic can be carried out exactly on integers:
// the conversion, the correctly rounded division, and the printing, which rounds
// the double's exact value half to even.

/// How many low bits converting `n` (below 2^64) to a double drops: the smallest
/// `s` from `from` on, at most 11, with `n < 2^(53 + s)`.
pub open spec fn f64_drop_bits(n: nat, from: nat) -> nat
    decreases 11 - from,
{
    if from >= 11 || n < pow2(53 + from) {
        from
    } else {
        f64_drop_bits(n, from + 1)
    }
}

/// The double nearest to `n` (ties to even), an integer: `n` itself below 2^53,
/// else `n` rounded to 53 significant bits.
pub open spec fn f64_of_u64(n: nat) -> nat {
    let s = f64_drop_bits(n, 0);
    round_half_even(n, pow2(s)) * pow2(s)
}

/// The binary scale `k` of the double nearest to `p / q` (for `1 <= p/q < 2^53`):
/// the smallest `k` from `from` on, at most 52, with `p * 2^(k+1) >= 2^53 * q`, so
/// that `2^52 <= p * 2^k / q < 2^53`.
pub open spec fn quotient_scale(p: nat, q: nat, from: nat) -> nat
    decreases 52 - from,
{
    if from >= 52 || p * pow2(from + 1) >= pow2(53) * q {
        from
    } else {
        quotient_scale(p, q, from + 1)
    }
}

/// The double nearest to `p / q` is `quotient_mantissa(p, q) / 2^quotient_scale(p, q, 0)`.
pub open spec fn quotient_mantissa(p: nat, q: nat) -> nat {
    round_half_even(p * pow2(quotient_scale(p, q, 0)), q)
}

/// The double nearest to `p / q`, printed with as many decimals as `unit` has
/// zeros (`unit` 1 or 10), as an integer count of `1/unit`: the double's exact
/// value times `unit`, rounded half to even.
pub open spec fn printed_quotient(p: nat, q: nat, unit: nat) -> nat {
    round_half_even(unit * quotient_mantissa(p, q), pow2(quotient_scale(p, q, 0)))
}

/// `t` tenths as `units.tenth`.
pub open spec fn tenths(t: nat) -> Seq<char> {
    crate::text::decimal(t / 10) + seq!['.', crate::text::digit_char(t % 10)]
}

/// Compact download count: millions with one decimal (`4.5M`), thousands with
/// none (`890K`), smaller counts in full (`233`); the quotient is computed and
/// printed in double precision.
pub open spec fn spec_dl_short(n: nat) -> Seq<char> {
    if n >= 1_000_000 {
        tenths(printed_quotient(f64_of_u64(n), 1_000_000, 10)).push('M')
    } else if n >= 1000 {
        crate::text::decimal(printed_quotient(f64_of_u64(n), 1000, 1)).push('K')
    } else {
        crate::text::decimal(n)
    }
}

/// Digits of a number of `total` digits, with `_` before every digit whose
/// distance to the end is a positive multiple of three; `d` is a prefix of it.
pub open spec fn grouped(d: Seq<char>, total: int) -> Seq<char>
    decreases d.len(),
{
    if d.len() == 0 {
        seq![]
    } else {
        let i = d.len() - 1;
        let sep: Seq<char> = if i > 0 && (total - i) % 3 == 0 {
            seq!['_']
        } else {
            seq![]
        };
        grouped(d.drop_last(), total) + sep + seq![d.last()]
    }
}

/// Full download count with `_` as thousands separator: `4_521_003`.
pub open spec fn spec_dl_full(n: nat) -> Seq<char> {
    grouped(crate::text::decimal(n), crate::text::decimal(n).len() as int)
}

/// `n / d` rounded half to even, for `d > 0`.
pub(crate) fn div_round_half_even(n: u64, d: u64) -> (r: u64)
    requires
        d > 0,
        d <= 1_000_000,
    ensures
        r == round_half_even(n as nat, d as nat),
{
    let q = n / d;
    let rem = n % d;
    assert(q <= n / 1) by {
        vstd::arithmetic::div_mod::lemma_div_is_ordered_by_denominator(n as int, 1, d as int);
    }
    if 2 * rem > d || (2 * rem == d && q % 2 == 1) {
        assert(q < u64::MAX) by {
            vstd::arithmetic::div_mod::lemma_fundamental_div_mod(n as int, d as int);
            if d == 1 {
                assert(rem == 0);
            } else {
                vstd::arithmetic::div_mod::lemma_div_is_ordered_by_denominator(n as int, 2, d as int);
            }
        }
        q + 1
    } else {
        q
    }
}

/// `n / d` rounded half to even, on wide integers.
fn div_round_half_even_wide(n: u128, d: u128) -> (r: u128)
    requires
        0 < d <= 0x1_0000_0000_0000_0000,
    ensures
        r == round_half_even(n as nat, d as nat),
        r <= n + 1,
{
    let q = n / d;
    let rem = n % d;
    assert(q <= n) by {
        vstd::arithmetic::div_mod::lemma_div_is_ordered_by_denominator(n as int, 1, d as int);
    }
    if 2 * rem > d || (2 * rem == d && q % 2 == 1) {
        assert(q < n) by {
            vstd::arithmetic::div_mod::lemma_fundamental_div_mod(n as int, d as int);
            if d == 1 {
                assert(rem == 0);
            } else {
                vstd::arithmetic::div_mod::lemma_div_is_ordered_by_denominator(n as int, 2, d as int);
                vstd::arithmetic::div_mod::lemma_div_plus_one(n as int, 2);
            }
        }
        q + 1
    } else {
        q
    }
}

/// `n` converted to a double, as an integer (see `f64_of_u64`).
pub(crate) fn double_of(n: u64) -> (r: u128)
    ensures
        r == f64_of_u64(n as nat),
        r <= n + 0x800,
        n < 0x20_0000_0000_0000 ==> r == n,
{
    proof {
        vstd::arithmetic::power2::lemma2_to64();
        vstd::arithmetic::power2::lemma2_to64_rest();
    }
    let mut s: u64 = 0;
    let mut unit: u128 = 1;
    let mut lim: u128 = 0x20_0000_0000_0000;
    while s < 11 && (n as u128) >= lim
        invariant
            s <= 11,
            unit == pow2(s as nat),
            unit <= 0x800,
            lim == pow2(53 + s as nat),
            lim == 0x20_0000_0000_0000 * unit,
            f64_drop_bits(n as nat, 0) == f64_drop_bits(n as nat, s as nat),
            n < 0x20_0000_0000_0000 ==> s == 0,
        decreases 11 - s,
    {
        proof {
            vstd::arithmetic::power2::lemma2_to64();
            vstd::arithmetic::power2::lemma_pow2_unfold(s as nat + 1);
            vstd::arithmetic::power2::lemma_pow2_unfold(53 + s as nat + 1);
            vstd::arithmetic::power2::lemma_pow2_strictly_increases(s as nat, 11);
        }
        unit = unit * 2;
        lim = lim * 2;
        s = s + 1;
    }
    let m = div_round_half_even_wide(n as u128, unit);
    proof {
        let q = n as nat / unit as nat;
        vstd::arithmetic::div_mod::lemma_fundamental_div_mod(n as int, unit as int);
        assert(m <= q + 1);
        assert(m * unit <= q * unit + unit) by (nonlinear_arith)
            requires
                m <= q + 1,
                unit >= 0,
        ;
        assert(q * unit <= n) by {
            vstd::arithmetic::div_mod::lemma_fundamental_div_mod(n as int, unit as int);
        }
        if n < 0x20_0000_0000_0000 {
            assert(unit == 1);
            assert((n as nat) / 1 == n as nat && (n as nat) % 1 == 0) by (nonlinear_arith);
            assert(m == n);
        }
    }
    m * unit
}

/// `p / q` in double precision, printed with as many decimals as `unit` has
/// zeros, as a count of `1/unit` (see `printed_quotient`).
pub(crate) fn printed(p: u128, q: u128, unit: u128) -> (r: u128)
    requires
        1 <= q <= 1_000_000,
        p < pow2(53) * q,
        unit == 1 || unit == 10,
    ensures
        r == printed_quotient(p as nat, q as nat, unit as nat),
        r <= 10 * 0x20_0000_0000_0000 + 11,
{
    proof {
        vstd::arithmetic::power2::lemma2_to64();
        vstd::arithmetic::power2::lemma2_to64_rest();
    }
    let lim: u128 = 0x20_0000_0000_0000 * q;
    let mut k: u64 = 0;
    let mut pk: u128 = p;
    let mut pw: u128 = 1;
    while k < 52 && pk * 2 < lim
        invariant
            k <= 52,
            lim == pow2(53) * q,
            pk == p * pow2(k as nat),
            pw == pow2(k as nat),
            pw <= 0x10_0000_0000_0000,
            pk < lim,
            lim <= 0x20_0000_0000_0000 * 1_000_000,
            quotient_scale(p as nat, q as nat, 0) == quotient_scale(p as nat, q as nat, k as nat),
        decreases 52 - k,
    {
        proof {
            vstd::arithmetic::power2::lemma2_to64();
            vstd::arithmetic::power2::lemma2_to64_rest();
            vstd::arithmetic::power2::lemma_pow2_unfold(k as nat + 1);
            vstd::arithmetic::power2::lemma_pow2_strictly_increases(k as nat, 52);
            assert(p * pow2(k as nat + 1) == pk * 2) by (nonlinear_arith)
                requires
                    pk == p * pow2(k as nat),
                    pow2(k as nat + 1) == 2 * pow2(k as nat),
            ;
        }
        pk = pk * 2;
        pw = pw * 2;
        k = k + 1;
    }
    proof {
        assert(k >= 52 || p * pow2(k as nat + 1) >= pow2(53) * q) by {
            if k < 52 {
                vstd::arithmetic::power2::lemma_pow2_unfold(k as nat + 1);
                assert(p * pow2(k as nat + 1) == pk * 2) by (nonlinear_arith)
                    requires
                        pk == p * pow2(k as nat),
                        pow2(k as nat + 1) == 2 * pow2(k as nat),
                ;
            }
        }
        vstd::arithmetic::power2::lemma_pow2_pos(k as nat);
    }
    let m = div_round_half_even_wide(pk, q);
    assert(m <= 0x20_0000_0000_0000 + 1) by {
        vstd::arithmetic::div_mod::lemma_div_is_ordered(pk as int, lim as int, q as int);
        vstd::arithmetic::div_mod::lemma_div_by_multiple(0x20_0000_0000_0000, q as int);
        vstd::arithmetic::div_mod::lemma_fundamental_div_mod(pk as int, q as int);
    }
    let r = div_round_half_even_wide(unit * m, pw);
    r
}

/// `t` tenths as text (see `tenths`).
pub(crate) fn tenths_chars(t: u128) -> (r: Vec<char>)
    requires
        t <= u64::MAX,
    ensures
        r@ == tenths(t as nat),
{
    let u = t as u64;
    let mut v = decimal_chars(u / 10);
    v.push('.');
    v.push(char_of_digit((u % 10) as u8));
    assert(v@ =~= tenths(t as nat));
    v
}

/// Compact download count: `4.5M`, `890K`, `233`.
pub fn dl_short(n: u64) -> (r: String)
    ensures
        r@ == spec_dl_short(n as nat),
{
    proof {
        vstd::arithmetic::power2::lemma2_to64();
        vstd::arithmetic::power2::lemma2_to64_rest();
    }
    if n >= 1_000_000 {
        let t = printed(double_of(n), 1_000_000, 10);
        let mut v = tenths_chars(t);
        v.push('M');
        string_from_chars(&v)
    } else if n >= 1000 {
        let t = printed(double_of(n), 1000, 1);
        let mut v = decimal_chars(t as u64);
        v.push('K');
        string_from_chars(&v)
    } else {
        let v = decimal_chars(n);
        string_from_chars(&v)
    }
}

/// Full download count with underscore thousands separator: `4_521_003`.
pub fn dl_full(n: u64) -> (r: String)
    ensures
        r@ == spec_dl_full(n as nat),
{
    let d = decimal_chars(n);
    let total = d.len();
    let mut out: Vec<char> = Vec::new();
    let mut i: usize = 0;
    while i < total
        invariant
            total == d@.len(),
            i <= total,
            out@ == grouped(d@.take(i as int), total as int),
        decreases total - i,
    {
        assert(d@.take(i + 1).drop_last() =~= d@.take(i as int));
        if i > 0 && (total - i) % 3 == 0 {
            out.push('_');
        }
        out.push(d[i]);
        assert(out@ =~= grouped(d@.take(i + 1), total as int));
        i = i + 1;
    }
    assert(d@.take(total as int) =~= d@);
    string_from_chars(&out)
}

// ── Digit groups ────────────────────────────────────────────────────────────

/// `s` without its `_` separators.
pub open spec fn without_separators(s: Seq<char>) -> Seq<char>
    decreases s.len(),
{
    if s.len() == 0 {
        s
    } else if s.last() == '_' {
        without_separators(s.drop_last())
    } else {
        without_separators(s.drop_last()).push(s.last())
    }
}

/// How many `_` separators `s` holds.
pub open spec fn separators(s: Seq<char>) -> nat
    decreases s.len(),
{
    if s.len() == 0 {
        0
    } else {
        separators(s.drop_last()) + if s.last() == '_' {
            1nat
        } else {
            0
        }
    }
}

proof fn lemma_decimal_has_no_separator(n: nat)
    ensures
        forall|i: int| 0 <= i < crate::text::decimal(n).len() ==> crate::text::decimal(n)[i] != '_',
    decreases n,
{
    assert forall|k: nat| k < 10 implies #[trigger] crate::text::digit_char(k) != '_' by {
        assert(crate::text::digit_char(k) as u32 == 48 + k);
    }
    if n >= 10 {
        lemma_decimal_has_no_separator(n / 10);
        assert(crate::text::digit_char(n % 10) != '_');
        let p = crate::text::decimal(n / 10);
        assert(crate::text::decimal(n) == p.push(crate::text::digit_char(n % 10)));
        assert forall|i: int| 0 <= i < crate::text::decimal(n).len() implies crate::text::decimal(n)[i]
            != '_' by {
            if i < p.len() {
                assert(crate::text::decimal(n)[i] == p[i]);
            }
        }
    } else {
        assert(crate::text::digit_char(n) != '_');
        assert(crate::text::decimal(n) == seq![crate::text::digit_char(n)]);
    }
}

proof fn lemma_grouped_parts(d: Seq<char>, total: int)
    requires
        1 <= d.len() <= total,
        forall|i: int| 0 <= i < d.len() ==> d[i] != '_',
    ensures
        without_separators(grouped(d, total)) == d,
        separators(grouped(d, total)) == (total - 1) / 3 - (total - d.len()) / 3,
    decreases d.len(),
{
    let i = d.len() - 1;
    let g = grouped(d, total);
    let c = d.last();
    assert(c != '_');
    if d.len() == 1 {
        assert(grouped(d.drop_last(), total) =~= Seq::<char>::empty());
        assert(g =~= seq![c]);
        assert(g.drop_last() =~= Seq::<char>::empty());
        assert(without_separators(g) == without_separators(g.drop_last()).push(c));
        assert(d =~= seq![c]);
        assert(without_separators(g) =~= d);
        assert(separators(g) == separators(g.drop_last()));
    } else {
        lemma_grouped_parts(d.drop_last(), total);
        let h = grouped(d.drop_last(), total);
        assert(d =~= d.drop_last().push(c));
        if i > 0 && (total - i) % 3 == 0 {
            assert(g =~= h.push('_').push(c));
            assert(g.drop_last() =~= h.push('_'));
            assert(h.push('_').drop_last() =~= h);
            assert(without_separators(h.push('_')) == without_separators(h));
            assert(separators(h.push('_')) == separators(h) + 1);
            assert(without_separators(g) == without_separators(h.push('_')).push(c));
            assert(separators(g) == separators(h.push('_')));
        } else {
            assert(g =~= h.push(c));
            assert(g.drop_last() =~= h);
            assert(without_separators(g) == without_separators(h).push(c));
            assert(separators(g) == separators(h));
        }
        assert((total - i) / 3 - (total - i - 1) / 3 == if (total - i) % 3 == 0 {
            1int
        } else {
            0
        });
    }
}

proof fn lemma_grouped_positions(d: Seq<char>, total: int, full: int)
    requires
        1 <= d.len() <= total,
        full == total + (total - 1) / 3,
        forall|i: int| 0 <= i < d.len() ==> d[i] != '_',
    ensures
        grouped(d, total).len() == d.len() + (total - 1) / 3 - (total - d.len()) / 3,
        forall|i: int|
            0 <= i < grouped(d, total).len() ==> (#[trigger] grouped(d, total)[i] == '_' <==> (i
                > 0 && (full - i) % 4 == 0)),
    decreases d.len(),
{
    let g = grouped(d, total);
    let c = d.last();
    if d.len() == 1 {
        assert(grouped(d.drop_last(), total) =~= Seq::<char>::empty());
        assert(g =~= seq![c]);
    } else {
        lemma_grouped_positions(d.drop_last(), total, full);
        let h = grouped(d.drop_last(), total);
        let m = d.len() - 1;
        let t = total - m;
        assert(h.len() == m + (total - 1) / 3 - t / 3);
        assert(full - h.len() == t + t / 3);
        assert(d.drop_last()[m - 1] != '_');
        if (total - m) % 3 == 0 {
            assert(g =~= h.push('_').push(c));
            assert((t + t / 3) % 4 == 0);
            assert((t + t / 3 - 1) % 4 != 0);
            assert((total - m - 1) / 3 == t / 3 - 1);
            assert forall|i: int| 0 <= i < g.len() implies (#[trigger] g[i] == '_' <==> (i > 0
                && (full - i) % 4 == 0)) by {
                if i < h.len() {
                    assert(g[i] == h[i]);
                }
            }
        } else {
            assert(g =~= h.push(c));
            assert((t + t / 3) % 4 != 0);
            assert((total - m - 1) / 3 == t / 3);
            assert forall|i: int| 0 <= i < g.len() implies (#[trigger] g[i] == '_' <==> (i > 0
                && (full - i) % 4 == 0)) by {
                if i < h.len() {
                    assert(g[i] == h[i]);
                }
            }
        }
    }
}

/// The thousands groups of `dl_full`: without its `_` separators the text is the
/// number's decimal digits, and there is one separator for each complete group of
/// three digits after the first digit. Read from the end, every fourth character
/// is a separator and no other is: the groups after the first have three digits,
/// and the first, which the text's length (never a multiple of four) leaves, has
/// one to three.
pub proof fn lemma_dl_full_groups(n: nat)
    ensures
        without_separators(spec_dl_full(n)) == crate::text::decimal(n),
        separators(spec_dl_full(n)) == (crate::text::decimal(n).len() - 1) / 3,
        spec_dl_full(n).len() % 4 != 0,
        forall|i: int|
            0 <= i < spec_dl_full(n).len() ==> (#[trigger] spec_dl_full(n)[i] == '_' <==> (i > 0
                && (spec_dl_full(n).len() - i) % 4 == 0)),
{
    let d = crate::text::decimal(n);
    let total = d.len() as int;
    crate::text::lemma_decimal_nonempty(n);
    lemma_decimal_has_no_separator(n);
    lemma_grouped_parts(d, total);
    lemma_grouped_positions(d, total, total + (total - 1) / 3);
    assert((total + (total - 1) / 3) % 4 != 0);
}

/// The characters of the first ten bytes of `s`, or all of `s` when byte ten does
/// not start a character (as for a shorter `s`).
pub open spec fn spec_date(s: Seq<char>) -> Seq<char> {
    vstd::utf8::decode_utf8(
        if vstd::utf8::is_char_boundary(vstd::utf8::encode_utf8(s), 10) {
            vstd::utf8::encode_utf8(s).subrange(0, 10)
        } else {
            vstd::utf8::encode_utf8(s)
        },
    )
}

/// The first ten bytes of `s` (the `YYYY-MM-DD` of an ISO 8601 timestamp), or all
/// of `s` when it is shorter or byte ten does not start a character.
pub fn date(s: &str) -> (r: &str)
    ensures
        r.spec_bytes() == if vstd::utf8::is_char_boundary(s.spec_bytes(), 10) {
            s.spec_bytes().subrange(0, 10)
        } else {
            s.spec_bytes()
        },
        r@ == spec_date(s@),
{
    proof {
        vstd::utf8::encode_utf8_decode_utf8(s@);
    }
    let r = if s.is_char_boundary(10) {
        s.split_at(10).0
    } else {
        s
    };
    proof {
        vstd::utf8::encode_utf8_decode_utf8(r@);
    }
    r
}

/// Where `truncate` cuts: after `max - 1` characters, or none when `max` is 0.
pub open spec fn cut_point(max: usize) -> int {
    if max == 0 {
        0
    } else {
        max - 1
    }
}

/// `s` when it has at most `max` characters, else its first `max - 1`
/// characters followed by `…`.
pub open spec fn spec_truncate(s: Seq<char>, max: usize) -> Seq<char> {
    if s.len() <= max {
        s
    } else {
        s.take(cut_point(max)) + "…"@
    }
}

/// Truncate to `max` characters, ending the shortened text with `…` (see
/// `spec_truncate`).
pub fn truncate(s: &str, max: usize) -> (r: String)
    ensures
        r@ == spec_truncate(s@, max),
{
    let v = crate::text::chars_of(s);
    if v.len() <= max {
        s.to_owned()
    } else {
        let k: usize = if max == 0 {
            0
        } else {
            max - 1
        };
        let mut out = crate::text::string_from_range(&v, 0, k);
        out.append("…");
        assert(v@.subrange(0, k as int) =~= s@.take(cut_point(max)));
        out
    }
}

/// Taking the date of a date changes nothing.
pub proof fn lemma_date_idempotent(s: Seq<char>)
    ensures
        spec_date(spec_date(s)) == spec_date(s),
{
    let b = vstd::utf8::encode_utf8(s);
    vstd::utf8::encode_utf8_valid_utf8(s);
    vstd::utf8::encode_utf8_decode_utf8(s);
    if vstd::utf8::is_char_boundary(b, 10) {
        let p = b.subrange(0, 10);
        vstd::utf8::valid_utf8_split(b, 10);
        let d = vstd::utf8::decode_utf8(p);
        vstd::utf8::decode_utf8_encode_utf8(p);
        assert(vstd::utf8::encode_utf8(d) == p);
        assert(p.subrange(0, 10) =~= p);
    }
}

} // verus!
