//! The text of the non-interactive outputs: the compact Markdown table of a
//! snapshot and the Markdown detail block of one package. Each function returns
//! the lines to print, in order.

use vstd::prelude::*;
use vstd::string::StringSliceAdditionalSpecFns;
use crate::export_types::{PackageExport, Snapshot};
use crate::fmt::{date, dl_full, dl_short, spec_date, spec_dl_full, spec_dl_short};
use crate::text::{chars_of, decimal, u64_to_string};
use crate::types::views;

verus! {

// ── Padding ──────────────────────────────────────────────────────────────────

pub open spec fn spaces(n: nat) -> Seq<char> {
    Seq::new(n, |i: int| ' ')
}

/// `s` followed by spaces up to `w` characters (`{:<w}`).
pub open spec fn pad_right(s: Seq<char>, w: nat) -> Seq<char> {
    if s.len() >= w {
        s
    } else {
        s + spaces((w - s.len()) as nat)
    }
}

/// `s` preceded by spaces up to `w` characters (`{:>w}`).
pub open spec fn pad_left(s: Seq<char>, w: nat) -> Seq<char> {
    if s.len() >= w {
        s
    } else {
        spaces((w - s.len()) as nat) + s
    }
}

/// Append `s` to `out`, padded to `w` characters on the left (`right_align`) or right.
pub(crate) fn push_padded(out: &mut String, s: &str, w: usize, right_align: bool)
    ensures
        final(out)@ == old(out)@ + if right_align {
            pad_left(s@, w as nat)
        } else {
            pad_right(s@, w as nat)
        },
{
    let n = chars_of(s).len();
    let mut fill = String::new();
    if n < w {
        let mut k: usize = 0;
        while k < w - n
            invariant
                k <= w - n,
                fill@ == spaces(k as nat),
            decreases w - n - k,
        {
            crate::text::string_push(&mut fill, ' ');
            assert(fill@ =~= spaces((k + 1) as nat));
            k = k + 1;
        }
    }
    assert(n < w ==> fill@ =~= spaces((w - n) as nat));
    if right_align {
        out.append(fill.as_str());
        out.append(s);
    } else {
        out.append(s);
        out.append(fill.as_str());
    }
    proof {
        if n >= w {
            assert(fill@ =~= Seq::<char>::empty());
        }
    }
    assert(final_view_eq(*out, old(out)@, s@, fill@, right_align));
}

spec fn final_view_eq(out: String, before: Seq<char>, s: Seq<char>, fill: Seq<char>, right_align: bool) -> bool {
    out@ =~= if right_align {
        before + fill + s
    } else {
        before + s + fill
    }
}

/// The characters of the first `n` bytes of `s`.
pub open spec fn first_bytes(s: Seq<char>, n: int) -> Seq<char> {
    vstd::utf8::decode_utf8(vstd::utf8::encode_utf8(s).subrange(0, n))
}

/// The first `n` bytes of `s`, which must end on a character.
pub(crate) fn prefix_bytes(s: &str, n: usize) -> (r: &str)
    requires
        vstd::utf8::is_char_boundary(s.spec_bytes(), n as int),
    ensures
        r@ == first_bytes(s@, n as int),
{
    let r = s.split_at(n).0;
    proof {
        vstd::utf8::encode_utf8_decode_utf8(r@);
    }
    r
}

// ── Compact table ────────────────────────────────────────────────────────────

/// The column headings of the compact table.
pub open spec fn compact_heading() -> Seq<char> {
    "| package              | version |  lang | dl_recent | dl_total | stars | updated    |"@
}

/// The rule under the headings.
pub open spec fn compact_rule() -> Seq<char> {
    "|----------------------|---------|-------|-----------|----------|-------|------------|"@
}

/// The title line: language, search (or `(all)`), sort and the date the snapshot was
/// made, then a blank line.
pub open spec fn compact_title(s: Snapshot) -> Seq<char> {
    "## "@ + s.query.language@ + " packages — "@ + (if s.query.search@.len() == 0 {
        "(all)"@
    } else {
        s.query.search@
    }) + " (sort: "@ + s.query.sort@ + ") — "@ + first_bytes(s.meta.fetched_at@, 10) + "\n"@
}

/// Bytes the language column shows: at most five.
pub open spec fn lang_cut(l: Seq<char>) -> int {
    let n = vstd::utf8::encode_utf8(l).len();
    if n < 5 {
        n as int
    } else {
        5
    }
}

/// The stars column: the count with separators, or `-` without statistics.
pub open spec fn stars_text(p: PackageExport) -> Seq<char> {
    match p.github {
        Some(g) => spec_dl_full(g.stars as nat),
        None => "-"@,
    }
}

/// The language column can be cut: its name is addressable and cut at a character.
pub open spec fn lang_ok(l: Seq<char>) -> bool {
    vstd::utf8::encode_utf8(l).len() <= usize::MAX && vstd::utf8::is_char_boundary(
        vstd::utf8::encode_utf8(l),
        lang_cut(l),
    )
}

/// One row of the compact table.
pub open spec fn compact_row(p: PackageExport) -> Seq<char> {
    "| "@ + pad_right(p.id@, 20) + " | "@ + pad_left(p.release.latest@, 7) + " | "@ + pad_left(
        first_bytes(p.language@, lang_cut(p.language@)),
        5,
    ) + " | "@ + pad_left(spec_dl_full(p.downloads.recent_90d as nat), 9) + " | "@ + pad_left(
        spec_dl_short(p.downloads.all_time as nat),
        8,
    ) + " | "@ + pad_left(stars_text(p), 5) + " | "@ + pad_right(spec_date(p.release.updated_at@), 10)
        + " |"@
}

/// The rows of the compact table, one per package.
pub open spec fn compact_rows(ps: Seq<PackageExport>) -> Seq<Seq<char>> {
    ps.map_values(|p: PackageExport| compact_row(p))
}

fn compact_row_of(p: &PackageExport) -> (r: String)
    requires
        lang_ok(p.language@),
    ensures
        r@ == compact_row(*p),
{
    broadcast use vstd::utf8::encode_utf8_valid_utf8;

    let mut out = "| ".to_owned();
    push_padded(&mut out, p.id.as_str(), 20, false);
    out.append(" | ");
    push_padded(&mut out, p.release.latest.as_str(), 7, true);
    out.append(" | ");
    let n = p.language.as_str().len();
    let k = if n < 5 {
        n
    } else {
        5
    };
    push_padded(&mut out, prefix_bytes(p.language.as_str(), k), 5, true);
    out.append(" | ");
    let recent = dl_full(p.downloads.recent_90d);
    push_padded(&mut out, recent.as_str(), 9, true);
    out.append(" | ");
    let total = dl_short(p.downloads.all_time);
    push_padded(&mut out, total.as_str(), 8, true);
    out.append(" | ");
    let stars = match &p.github {
        Some(g) => dl_full(g.stars as u64),
        None => "-".to_owned(),
    };
    push_padded(&mut out, stars.as_str(), 5, true);
    out.append(" | ");
    push_padded(&mut out, date(p.release.updated_at.as_str()), 10, false);
    out.append(" |");
    out
}

/// The compact Markdown table of a snapshot: title, headings, rule, then one row
/// per package. The snapshot's time must be at least ten bytes, the tenth ending a
/// character, and each language name must be cut at a character (the slices
/// panic otherwise).
pub fn compact_lines(snapshot: &Snapshot) -> (r: Vec<String>)
    requires
        vstd::utf8::is_char_boundary(vstd::utf8::encode_utf8(snapshot.meta.fetched_at@), 10),
        forall|i: int| 0 <= i < snapshot.packages@.len() ==> lang_ok((#[trigger] snapshot.packages@[i]).language@),
    ensures
        views(r@) == seq![compact_title(*snapshot), compact_heading(), compact_rule()] + compact_rows(
            snapshot.packages@,
        ),
{
    let mut title = "## ".to_owned();
    title.append(snapshot.query.language.as_str());
    title.append(" packages — ");
    if snapshot.query.search.as_str().unicode_len() == 0 {
        title.append("(all)");
    } else {
        title.append(snapshot.query.search.as_str());
    }
    title.append(" (sort: ");
    title.append(snapshot.query.sort.as_str());
    title.append(") — ");
    title.append(prefix_bytes(snapshot.meta.fetched_at.as_str(), 10));
    title.append("\n");
    let mut lines: Vec<String> = Vec::new();
    lines.push(title);
    lines.push("| package              | version |  lang | dl_recent | dl_total | stars | updated    |".to_owned());
    lines.push("|----------------------|---------|-------|-----------|----------|-------|------------|".to_owned());
    let ghost head = seq![compact_title(*snapshot), compact_heading(), compact_rule()];
    assert(views(lines@) =~= head);
    let mut i: usize = 0;
    while i < snapshot.packages.len()
        invariant
            i <= snapshot.packages@.len(),
            forall|j: int| 0 <= j < snapshot.packages@.len() ==> lang_ok((#[trigger] snapshot.packages@[j]).language@),
            views(lines@) == head + compact_rows(snapshot.packages@.take(i as int)),
        decreases snapshot.packages@.len() - i,
    {
        let row = compact_row_of(&snapshot.packages[i]);
        let ghost before = lines@;
        lines.push(row);
        assert(views(lines@) =~= views(before).push(row@));
        assert(compact_rows(snapshot.packages@.take(i + 1)) =~= compact_rows(
            snapshot.packages@.take(i as int),
        ).push(compact_row(snapshot.packages@[i as int])));
        i = i + 1;
    }
    assert(snapshot.packages@.take(i as int) =~= snapshot.packages@);
    lines
}

// ── Detail block ─────────────────────────────────────────────────────────────

/// `v` joined with `sep`.
pub open spec fn join(v: Seq<Seq<char>>, sep: Seq<char>) -> Seq<char>
    decreases v.len(),
{
    if v.len() == 0 {
        Seq::empty()
    } else if v.len() == 1 {
        v[0]
    } else {
        join(v.drop_last(), sep) + sep + v.last()
    }
}

pub(crate) fn join_strings(v: &Vec<String>, sep: &str) -> (r: String)
    ensures
        r@ == join(views(v@), sep@),
{
    let mut out = String::new();
    let mut i: usize = 0;
    while i < v.len()
        invariant
            i <= v@.len(),
            out@ == join(views(v@).take(i as int), sep@),
        decreases v@.len() - i,
    {
        assert(views(v@).take(i + 1).drop_last() =~= views(v@).take(i as int));
        if i > 0 {
            out.append(sep);
        }
        out.append(v[i].as_str());
        proof {
            if i == 0 {
                assert(out@ =~= views(v@).take(1)[0]);
            }
        }
        i = i + 1;
    }
    assert(views(v@).take(i as int) =~= views(v@));
    out
}

/// The optional lines of a detail block, in order.
pub open spec fn detail_tail(p: PackageExport) -> Seq<Seq<char>> {
    let gh: Seq<Seq<char>> = match p.github {
        Some(g) => seq![
            "- **GitHub:** ★ "@ + spec_dl_full(g.stars as nat) + " · ⑂ "@ + spec_dl_full(
                g.forks as nat,
            ) + " · ⊙ "@ + decimal(g.open_issues as nat) + " open issues"@,
        ],
        None => Seq::empty(),
    };
    let updated = seq![
        "- **Updated:** "@ + spec_date(p.release.updated_at@) + " · Published: "@ + spec_date(
            p.release.published_at@,
        ),
    ];
    let license: Seq<Seq<char>> = if p.licenses@.len() > 0 {
        seq!["- **License:** "@ + join(views(p.licenses@), ", "@)]
    } else {
        Seq::empty()
    };
    let docs: Seq<Seq<char>> = match p.links.docs {
        Some(d) => seq!["- **Docs:** "@ + d@],
        None => Seq::empty(),
    };
    let repo: Seq<Seq<char>> = match p.links.repository {
        Some(u) => seq!["- **Repo:** "@ + u@],
        None => Seq::empty(),
    };
    gh + updated + license + docs + repo
}

/// The Markdown detail block of a package: title, description when there is one,
/// language, downloads, GitHub statistics when attached, dates, licenses, docs and
/// repository links when present.
pub open spec fn detail_block(p: PackageExport) -> Seq<Seq<char>> {
    let title = seq!["### "@ + p.id@ + " — v"@ + p.release.latest@ + "\n"@];
    let desc: Seq<Seq<char>> = if p.description@.len() > 0 {
        seq!["**Description:** "@ + p.description@ + "\n"@]
    } else {
        Seq::empty()
    };
    let lang = seq!["- **Language:** "@ + p.language@];
    let dl = seq![
        "- **Downloads:** "@ + spec_dl_full(p.downloads.all_time as nat) + " total · "@
            + spec_dl_full(p.downloads.recent_90d as nat) + " recent (90d)"@,
    ];
    title + desc + lang + dl + detail_tail(p)
}

/// The lines of a package's detail block.
#[verifier::rlimit(40)]
pub fn detail_lines(p: &PackageExport) -> (r: Vec<String>)
    ensures
        views(r@) == detail_block(*p),
{
    let mut lines: Vec<String> = Vec::new();
    let mut title = "### ".to_owned();
    title.append(p.id.as_str());
    title.append(" — v");
    title.append(p.release.latest.as_str());
    title.append("\n");
    lines.push(title);
    if p.description.as_str().unicode_len() > 0 {
        let mut d = "**Description:** ".to_owned();
        d.append(p.description.as_str());
        d.append("\n");
        lines.push(d);
    }
    let mut lang = "- **Language:** ".to_owned();
    lang.append(p.language.as_str());
    lines.push(lang);
    let mut dl = "- **Downloads:** ".to_owned();
    dl.append(dl_full(p.downloads.all_time).as_str());
    dl.append(" total · ");
    dl.append(dl_full(p.downloads.recent_90d).as_str());
    dl.append(" recent (90d)");
    lines.push(dl);
    let ghost head = views(lines@);
    let mut tail: Vec<String> = Vec::new();
    match &p.github {
        Some(g) => {
            let mut l = "- **GitHub:** ★ ".to_owned();
            l.append(dl_full(g.stars as u64).as_str());
            l.append(" · ⑂ ");
            l.append(dl_full(g.forks as u64).as_str());
            l.append(" · ⊙ ");
            l.append(u64_to_string(g.open_issues as u64).as_str());
            l.append(" open issues");
            tail.push(l);
        },
        None => {},
    }
    let mut u = "- **Updated:** ".to_owned();
    u.append(date(p.release.updated_at.as_str()));
    u.append(" · Published: ");
    u.append(date(p.release.published_at.as_str()));
    tail.push(u);
    if p.licenses.len() > 0 {
        let mut l = "- **License:** ".to_owned();
        l.append(join_strings(&p.licenses, ", ").as_str());
        tail.push(l);
    }
    match &p.links.docs {
        Some(d) => {
            let mut l = "- **Docs:** ".to_owned();
            l.append(d.as_str());
            tail.push(l);
        },
        None => {},
    }
    match &p.links.repository {
        Some(r) => {
            let mut l = "- **Repo:** ".to_owned();
            l.append(r.as_str());
            tail.push(l);
        },
        None => {},
    }
    assert(views(tail@) =~= detail_tail(*p));
    assert(head =~= detail_block(*p).take(head.len() as int));
    let ghost t = tail@;
    lines.append(&mut tail);
    assert(views(lines@) =~= head + views(t));
    assert(views(lines@) =~= detail_block(*p));
    lines
}

} // verus!
