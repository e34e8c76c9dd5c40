//! What the terminal screens show: each view as lines of styled text, computed
//! from the browser's state. Drawing them (frames, layout, scrolling) is the
//! terminal front end's part.

use vstd::prelude::*;
use crate::api::{Package, PackageModel};
use crate::app::{selected_pkg, App, AppModel, GhState};
use crate::fmt::{date, dl_full, dl_short, spec_date, spec_dl_full, spec_dl_short, spec_truncate, truncate};
use crate::output::{join, join_strings};
use crate::text::{decimal, trim, trimmed, u64_to_string};
use crate::storage_cmd::{mask_token, spec_mask_token};
use crate::types::{views, Color, Language, LinkStyle, Palette, SettingRow, View as Screen};

verus! {

// ── Styled text ──────────────────────────────────────────────────────────────

/// How a piece of text is drawn.
#[derive(Debug, Clone, Copy, PartialEq, Eq, Structural)]
pub struct Look {
    pub fg: Option<Color>,
    pub bg: Option<Color>,
    pub bold: bool,
    pub italic: bool,
    pub underlined: bool,
}

/// A piece of text and how it is drawn.
pub struct Span {
    pub text: String,
    pub look: Look,
}

pub struct SpanModel {
    pub text: Seq<char>,
    pub look: Look,
}

impl View for Span {
    type V = SpanModel;

    open spec fn view(&self) -> SpanModel {
        SpanModel { text: self.text@, look: self.look }
    }
}

/// One line: its spans, left to right (none for an empty line).
pub struct Line {
    pub spans: Vec<Span>,
}

impl View for Line {
    type V = Seq<SpanModel>;

    open spec fn view(&self) -> Seq<SpanModel> {
        self.spans@.map_values(|s: Span| s@)
    }
}

pub open spec fn lines_view(v: Seq<Line>) -> Seq<Seq<SpanModel>> {
    v.map_values(|l: Line| l@)
}

/// Text drawn in the terminal's default style.
pub open spec fn plain() -> Look {
    Look { fg: None, bg: None, bold: false, italic: false, underlined: false }
}

fn plain_look() -> (r: Look)
    ensures
        r == plain(),
{
    Look { fg: None, bg: None, bold: false, italic: false, underlined: false }
}

/// Text in colour `fg` with the given emphasis.
pub open spec fn lk(fg: Color, bold: bool, italic: bool, underlined: bool) -> Look {
    Look { fg: Some(fg), bg: None, bold, italic, underlined }
}

fn mk(fg: Color, bold: bool, italic: bool, underlined: bool) -> (r: Look)
    ensures
        r == lk(fg, bold, italic, underlined),
{
    Look { fg: Some(fg), bg: None, bold, italic, underlined }
}

pub open spec fn sm(text: Seq<char>, look: Look) -> SpanModel {
    SpanModel { text, look }
}

fn sp(text: String, look: Look) -> (r: Span)
    ensures
        r@ == sm(text@, look),
{
    Span { text, look }
}

fn sps(text: &str, look: Look) -> (r: Span)
    ensures
        r@ == sm(text@, look),
{
    Span { text: text.to_owned(), look }
}

fn line0() -> (r: Line)
    ensures
        r@ == Seq::<SpanModel>::empty(),
{
    let r = Line { spans: Vec::new() };
    assert(r@ =~= Seq::<SpanModel>::empty());
    r
}

fn line1(a: Span) -> (r: Line)
    ensures
        r@ == seq![a@],
{
    let ghost av = a@;
    let mut v: Vec<Span> = Vec::new();
    v.push(a);
    let r = Line { spans: v };
    assert(r@ =~= seq![av]);
    r
}

fn line2(a: Span, b: Span) -> (r: Line)
    ensures
        r@ == seq![a@, b@],
{
    let ghost (av, bv) = (a@, b@);
    let mut v: Vec<Span> = Vec::new();
    v.push(a);
    v.push(b);
    let r = Line { spans: v };
    assert(r@ =~= seq![av, bv]);
    r
}

fn line3(a: Span, b: Span, c: Span) -> (r: Line)
    ensures
        r@ == seq![a@, b@, c@],
{
    let ghost (av, bv, cv) = (a@, b@, c@);
    let mut v: Vec<Span> = Vec::new();
    v.push(a);
    v.push(b);
    v.push(c);
    let r = Line { spans: v };
    assert(r@ =~= seq![av, bv, cv]);
    r
}

fn line4(a: Span, b: Span, c: Span, d: Span) -> (r: Line)
    ensures
        r@ == seq![a@, b@, c@, d@],
{
    let ghost (av, bv, cv, dv) = (a@, b@, c@, d@);
    let mut v: Vec<Span> = Vec::new();
    v.push(a);
    v.push(b);
    v.push(c);
    v.push(d);
    let r = Line { spans: v };
    assert(r@ =~= seq![av, bv, cv, dv]);
    r
}

fn line5(a: Span, b: Span, c: Span, d: Span, e: Span) -> (r: Line)
    ensures
        r@ == seq![a@, b@, c@, d@, e@],
{
    let ghost (av, bv, cv, dv, ev) = (a@, b@, c@, d@, e@);
    let mut v: Vec<Span> = Vec::new();
    v.push(a);
    v.push(b);
    v.push(c);
    v.push(d);
    v.push(e);
    let r = Line { spans: v };
    assert(r@ =~= seq![av, bv, cv, dv, ev]);
    r
}

fn push(out: &mut Vec<Line>, l: Line)
    ensures
        lines_view(final(out)@) == lines_view(old(out)@).push(l@),
{
    let ghost lv = l@;
    out.push(l);
    assert(lines_view(out@) =~= lines_view(old(out)@).push(lv));
}

/// `n` copies of `c`.
pub open spec fn repeated(c: char, n: nat) -> Seq<char> {
    Seq::new(n, |i: int| c)
}

fn repeat_char(c: char, n: usize) -> (r: String)
    ensures
        r@ == repeated(c, n as nat),
{
    let mut s = String::new();
    let mut i: usize = 0;
    while i < n
        invariant
            i <= n,
            s@ == repeated(c, i as nat),
        decreases n - i,
    {
        crate::text::string_push(&mut s, c);
        assert(s@ =~= repeated(c, (i + 1) as nat));
        i = i + 1;
    }
    s
}

pub open spec fn min_u(a: nat, b: nat) -> nat {
    if a < b {
        a
    } else {
        b
    }
}

// ── Shared line shapes ───────────────────────────────────────────────────────

/// A section title.
pub open spec fn section_line(title: Seq<char>, dim: Color) -> Seq<SpanModel> {
    seq![sm(title, lk(dim, true, false, false))]
}

/// A dim key followed by a bold value.
pub open spec fn kv_line(key: Seq<char>, val: Seq<char>, color: Color, dim: Color) -> Seq<SpanModel> {
    seq![sm(key, lk(dim, false, false, false)), sm(val, lk(color, true, false, false))]
}

fn section(title: &str, dim: Color) -> (r: Line)
    ensures
        r@ == section_line(title@, dim),
{
    line1(sps(title, mk(dim, true, false, false)))
}

fn kv(key: &str, val: String, color: Color, dim: Color) -> (r: Line)
    ensures
        r@ == kv_line(key@, val@, color, dim),
{
    line2(sps(key, mk(dim, false, false, false)), sp(val, mk(color, true, false, false)))
}

// ── Detail view ──────────────────────────────────────────────────────────────

/// The detail view's accent: yellow among favourites; in the all-BEAM listing the
/// highlighted package's own language colour; else the language's.
pub open spec fn detail_accent(m: AppModel) -> Color {
    if m.favorites_mode {
        m.color_scheme.spec_palette().yellow
    } else if m.language == Language::All {
        match selected_pkg(m) {
            Some(p) => p.language.spec_accent(),
            None => m.language.spec_accent(),
        }
    } else {
        m.language.spec_accent()
    }
}

/// Name, version and language; a rule as wide as the view (at most 54); a gap.
pub open spec fn detail_head(p: PackageModel, accent: Color, dim: Color, width: nat) -> Seq<Seq<SpanModel>> {
    seq![
        seq![
            sm(p.name, lk(accent, true, false, true)),
            sm("  v"@ + p.version, lk(accent, false, false, false)),
            sm("   ["@ + p.language.spec_label() + "]"@, lk(p.language.spec_accent(), true, false, false)),
        ],
        seq![sm(repeated('═', min_u(width, 54)), lk(dim, false, false, false))],
        Seq::empty(),
    ]
}

/// The description section, when there is a description.
pub open spec fn detail_description(p: PackageModel, pal: Palette) -> Seq<Seq<SpanModel>> {
    if p.description.len() > 0 {
        seq![
            section_line("description"@, pal.dim),
            Seq::empty(),
            seq![sm(p.description, lk(pal.white, false, false, false))],
            Seq::empty(),
        ]
    } else {
        Seq::empty()
    }
}

pub open spec fn detail_downloads(p: PackageModel, accent: Color, pal: Palette) -> Seq<Seq<SpanModel>> {
    seq![
        section_line("downloads"@, pal.dim),
        Seq::empty(),
        kv_line("  all-time   "@, spec_dl_full(p.downloads_all as nat), accent, pal.dim),
        kv_line("  recent     "@, spec_dl_full(p.downloads_recent as nat), accent, pal.dim),
        Seq::empty(),
    ]
}

/// Stars, forks and open issues.
pub open spec fn gh_counts(stars: u32, forks: u32, issues: u32, accent: Color, pal: Palette) -> Seq<
    Seq<SpanModel>,
> {
    seq![
        kv_line("  ★ stars    "@, decimal(stars as nat), pal.yellow, pal.dim),
        kv_line("  ⑂ forks    "@, decimal(forks as nat), accent, pal.dim),
        kv_line("  ⊙ issues   "@, decimal(issues as nat), pal.white, pal.dim),
    ]
}

/// What the GitHub section says in each state (the cache's age as of `now`).
pub open spec fn gh_body(gh: GhState, accent: Color, pal: Palette, now: u64) -> Seq<Seq<SpanModel>> {
    match gh {
        GhState::Loading => seq![seq![sm("  loading…"@, lk(pal.dim, false, true, false))]],
        GhState::Live(s) => gh_counts(s.stars, s.forks, s.issues, accent, pal) + seq![
            seq![sm("  (live)"@, lk(pal.green, false, true, false))],
        ],
        GhState::Cached(e) => gh_counts(e.stars, e.forks, e.issues, accent, pal) + seq![
            seq![sm("  (cached "@ + e.spec_age_label(now) + ")"@, lk(pal.dim, false, true, false))],
        ],
        GhState::RateLimited => seq![
            seq![sm("  rate limited (60 req/h)"@, lk(pal.yellow, false, false, false))],
            seq![sm("  set GITHUB_TOKEN to raise limit to 5000/h"@, lk(pal.dim, false, true, false))],
        ],
        GhState::BadToken => seq![
            seq![sm("  token invalid or expired (HTTP 401)"@, lk(Color::Red, false, false, false))],
            seq![
                sm(
                    "  update via ? → settings or GITHUB_TOKEN env var"@,
                    lk(pal.dim, false, true, false),
                ),
            ],
        ],
        GhState::Unavailable => seq![seq![sm("  stats unavailable"@, lk(pal.dim, false, false, false))]],
        GhState::NoRepo => seq![seq![sm("  no repository"@, lk(pal.dim, false, false, false))]],
    }
}

pub open spec fn detail_github(gh: GhState, accent: Color, pal: Palette, now: u64) -> Seq<Seq<SpanModel>> {
    seq![section_line("github"@, pal.dim), Seq::empty()] + gh_body(gh, accent, pal, now) + seq![
        Seq::empty(),
    ]
}

/// The present links with their labels, in the order docs, hex.pm, repository.
pub open spec fn labelled_links(p: PackageModel) -> Seq<(Seq<char>, Seq<char>)> {
    let a: Seq<(Seq<char>, Seq<char>)> = match p.docs_url {
        Some(u) => seq![("📖 docs     "@, u)],
        None => Seq::empty(),
    };
    let b: Seq<(Seq<char>, Seq<char>)> = match p.hex_url {
        Some(u) => seq![("◈  hex.pm   "@, u)],
        None => Seq::empty(),
    };
    let c: Seq<(Seq<char>, Seq<char>)> = match p.repo_url {
        Some(u) => seq![("⌥  repo     "@, u)],
        None => Seq::empty(),
    };
    a + b + c
}

/// One link line; the selected one is marked as the link style says.
pub open spec fn link_line(
    label: Seq<char>,
    url: Seq<char>,
    selected: bool,
    style: LinkStyle,
    accent: Color,
    pal: Palette,
) -> Seq<SpanModel> {
    let marker: Seq<char> = if selected && style == LinkStyle::Cursor {
        "▶ "@
    } else {
        "  "@
    };
    let url_look = if !selected {
        lk(accent, false, false, true)
    } else if style == LinkStyle::Cursor {
        lk(accent, true, false, true)
    } else {
        Look { fg: Some(accent), bg: Some(pal.bg_sel), bold: true, italic: false, underlined: false }
    };
    seq![
        sm(marker, lk(accent, true, false, false)),
        sm(label, lk(pal.dim, false, false, false)),
        sm(url, url_look),
    ]
}

pub open spec fn detail_links(p: PackageModel, cursor: Option<usize>, style: LinkStyle, accent: Color, pal: Palette) -> Seq<
    Seq<SpanModel>,
> {
    let ls = labelled_links(p);
    seq![section_line("links"@, pal.dim), Seq::empty()] + Seq::new(
        ls.len(),
        |i: int| link_line(ls[i].0, ls[i].1, cursor == Some(i as usize), style, accent, pal),
    ) + seq![Seq::empty()]
}

pub open spec fn detail_metadata(p: PackageModel, pal: Palette) -> Seq<Seq<SpanModel>> {
    let tool: Seq<Seq<SpanModel>> = if p.build_tool.len() > 0 {
        seq![kv_line("  build tool "@, p.build_tool, pal.white, pal.dim)]
    } else {
        Seq::empty()
    };
    let lic: Seq<Seq<SpanModel>> = if p.licenses.len() > 0 {
        seq![kv_line("  license    "@, join(p.licenses, ", "@), pal.white, pal.dim)]
    } else {
        Seq::empty()
    };
    seq![section_line("metadata"@, pal.dim), Seq::empty()] + tool + seq![
        kv_line("  updated    "@, spec_date(p.updated_at), pal.white, pal.dim),
        kv_line("  published  "@, spec_date(p.inserted_at), pal.white, pal.dim),
    ] + lic
}

/// The detail view of the highlighted package (nothing when none is), for a view
/// `width` columns wide, with cache ages as of `now`.
pub open spec fn detail_screen(m: AppModel, width: nat, now: u64) -> Seq<Seq<SpanModel>> {
    let pal = m.color_scheme.spec_palette();
    let accent = detail_accent(m);
    match selected_pkg(m) {
        None => Seq::empty(),
        Some(p) => detail_head(p, accent, pal.dim, width) + detail_description(p, pal)
            + detail_downloads(p, accent, pal) + detail_github(m.gh, accent, pal, now)
            + detail_links(p, m.link_cursor, m.link_style, accent, pal) + detail_metadata(p, pal),
    }
}

/// See `detail_accent`.
pub fn accent_of_detail(app: &App) -> (r: Color)
    ensures
        r == detail_accent(app@),
{
    if app.favorites_mode {
        app.color_scheme.palette().yellow
    } else if app.language == Language::All {
        match app.selected() {
            Some(p) => p.language.accent(),
            None => app.language.accent(),
        }
    } else {
        app.language.accent()
    }
}

fn push_head(out: &mut Vec<Line>, p: &Package, accent: Color, dim: Color, width: u16)
    ensures
        lines_view(final(out)@) == lines_view(old(out)@) + detail_head(p@, accent, dim, width as nat),
{
    let mut v = "  v".to_owned();
    v.append(p.version.as_str());
    let mut l = "   [".to_owned();
    l.append(p.language.label());
    l.append("]");
    push(
        out,
        line3(
            sp(p.name.clone(), mk(accent, true, false, true)),
            sp(v, mk(accent, false, false, false)),
            sp(l, mk(p.language.accent(), true, false, false)),
        ),
    );
    let n: usize = if width < 54 {
        width as usize
    } else {
        54
    };
    push(out, line1(sp(repeat_char('═', n), mk(dim, false, false, false))));
    push(out, line0());
    assert(lines_view(out@) =~= lines_view(old(out)@) + detail_head(p@, accent, dim, width as nat));
}

fn push_description(out: &mut Vec<Line>, p: &Package, pal: Palette)
    ensures
        lines_view(final(out)@) == lines_view(old(out)@) + detail_description(p@, pal),
{
    if p.description.unicode_len() > 0 {
        push(out, section("description", pal.dim));
        push(out, line0());
        push(out, line1(sp(p.description.clone(), mk(pal.white, false, false, false))));
        push(out, line0());
        assert(lines_view(out@) =~= lines_view(old(out)@) + detail_description(p@, pal));
    } else {
        assert(lines_view(out@) =~= lines_view(old(out)@) + detail_description(p@, pal));
    }
}

fn push_downloads(out: &mut Vec<Line>, p: &Package, accent: Color, pal: Palette)
    ensures
        lines_view(final(out)@) == lines_view(old(out)@) + detail_downloads(p@, accent, pal),
{
    push(out, section("downloads", pal.dim));
    push(out, line0());
    push(out, kv("  all-time   ", dl_full(p.downloads_all), accent, pal.dim));
    push(out, kv("  recent     ", dl_full(p.downloads_recent), accent, pal.dim));
    push(out, line0());
    assert(lines_view(out@) =~= lines_view(old(out)@) + detail_downloads(p@, accent, pal));
}

fn push_counts(out: &mut Vec<Line>, stars: u32, forks: u32, issues: u32, accent: Color, pal: Palette)
    ensures
        lines_view(final(out)@) == lines_view(old(out)@) + gh_counts(stars, forks, issues, accent, pal),
{
    push(out, kv("  ★ stars    ", u64_to_string(stars as u64), pal.yellow, pal.dim));
    push(out, kv("  ⑂ forks    ", u64_to_string(forks as u64), accent, pal.dim));
    push(out, kv("  ⊙ issues   ", u64_to_string(issues as u64), pal.white, pal.dim));
    assert(lines_view(out@) =~= lines_view(old(out)@) + gh_counts(stars, forks, issues, accent, pal));
}

fn push_gh_body(out: &mut Vec<Line>, gh: &GhState, accent: Color, pal: Palette, now: u64)
    ensures
        lines_view(final(out)@) == lines_view(old(out)@) + gh_body(*gh, accent, pal, now),
{
    let ghost before = lines_view(out@);
    match gh {
        GhState::Loading => {
            push(out, line1(sps("  loading…", mk(pal.dim, false, true, false))));
        },
        GhState::Live(s) => {
            push_counts(out, s.stars, s.forks, s.issues, accent, pal);
            push(out, line1(sps("  (live)", mk(pal.green, false, true, false))));
        },
        GhState::Cached(e) => {
            push_counts(out, e.stars, e.forks, e.issues, accent, pal);
            let mut t = "  (cached ".to_owned();
            t.append(e.age_label_at(now).as_str());
            t.append(")");
            push(out, line1(sp(t, mk(pal.dim, false, true, false))));
        },
        GhState::RateLimited => {
            push(out, line1(sps("  rate limited (60 req/h)", mk(pal.yellow, false, false, false))));
            push(
                out,
                line1(sps("  set GITHUB_TOKEN to raise limit to 5000/h", mk(pal.dim, false, true, false))),
            );
        },
        GhState::BadToken => {
            push(
                out,
                line1(sps("  token invalid or expired (HTTP 401)", mk(Color::Red, false, false, false))),
            );
            push(
                out,
                line1(
                    sps(
                        "  update via ? → settings or GITHUB_TOKEN env var",
                        mk(pal.dim, false, true, false),
                    ),
                ),
            );
        },
        GhState::Unavailable => {
            push(out, line1(sps("  stats unavailable", mk(pal.dim, false, false, false))));
        },
        GhState::NoRepo => {
            push(out, line1(sps("  no repository", mk(pal.dim, false, false, false))));
        },
    }
    assert(lines_view(out@) =~= before + gh_body(*gh, accent, pal, now));
}

fn push_github(out: &mut Vec<Line>, gh: &GhState, accent: Color, pal: Palette, now: u64)
    ensures
        lines_view(final(out)@) == lines_view(old(out)@) + detail_github(*gh, accent, pal, now),
{
    let ghost before = lines_view(out@);
    push(out, section("github", pal.dim));
    push(out, line0());
    let ghost mid = lines_view(out@);
    push_gh_body(out, gh, accent, pal, now);
    push(out, line0());
    assert(lines_view(out@) =~= before + detail_github(*gh, accent, pal, now));
}

fn link_line_of(
    label: &str,
    url: &String,
    selected: bool,
    style: LinkStyle,
    accent: Color,
    pal: Palette,
) -> (r: Line)
    ensures
        r@ == link_line(label@, url@, selected, style, accent, pal),
{
    let marker = if selected && style == LinkStyle::Cursor {
        "▶ "
    } else {
        "  "
    };
    let url_look = if !selected {
        mk(accent, false, false, true)
    } else if style == LinkStyle::Cursor {
        mk(accent, true, false, true)
    } else {
        Look { fg: Some(accent), bg: Some(pal.bg_sel), bold: true, italic: false, underlined: false }
    };
    line3(
        sps(marker, mk(accent, true, false, false)),
        sps(label, mk(pal.dim, false, false, false)),
        sp(url.clone(), url_look),
    )
}

fn push_links(out: &mut Vec<Line>, p: &Package, cursor: Option<usize>, style: LinkStyle, accent: Color, pal: Palette)
    ensures
        lines_view(final(out)@) == lines_view(old(out)@) + detail_links(p@, cursor, style, accent, pal),
{
    let ghost before = lines_view(out@);
    let ghost ls = labelled_links(p@);
    let ghost rows = Seq::new(
        ls.len(),
        |i: int| link_line(ls[i].0, ls[i].1, cursor == Some(i as usize), style, accent, pal),
    );
    push(out, section("links", pal.dim));
    push(out, line0());
    let ghost start = lines_view(out@);
    let mut k: usize = 0;
    match &p.docs_url {
        Some(u) => {
            push(out, link_line_of("📖 docs     ", u, cursor == Some(k), style, accent, pal));
            k = k + 1;
        },
        None => {},
    }
    assert(lines_view(out@) =~= start + rows.take(k as int));
    match &p.hex_url {
        Some(u) => {
            push(out, link_line_of("◈  hex.pm   ", u, cursor == Some(k), style, accent, pal));
            k = k + 1;
        },
        None => {},
    }
    assert(lines_view(out@) =~= start + rows.take(k as int));
    match &p.repo_url {
        Some(u) => {
            push(out, link_line_of("⌥  repo     ", u, cursor == Some(k), style, accent, pal));
            k = k + 1;
        },
        None => {},
    }
    assert(k == ls.len());
    assert(lines_view(out@) =~= start + rows);
    push(out, line0());
    assert(lines_view(out@) =~= before + detail_links(p@, cursor, style, accent, pal));
}

fn push_metadata(out: &mut Vec<Line>, p: &Package, pal: Palette)
    ensures
        lines_view(final(out)@) == lines_view(old(out)@) + detail_metadata(p@, pal),
{
    let ghost before = lines_view(out@);
    push(out, section("metadata", pal.dim));
    push(out, line0());
    if p.build_tool.unicode_len() > 0 {
        push(out, kv("  build tool ", p.build_tool.clone(), pal.white, pal.dim));
    }
    push(out, kv("  updated    ", date(p.updated_at.as_str()).to_owned(), pal.white, pal.dim));
    push(out, kv("  published  ", date(p.inserted_at.as_str()).to_owned(), pal.white, pal.dim));
    if p.licenses.len() > 0 {
        let j = join_strings(&p.licenses, ", ");
        assert(views(p.licenses@) =~= p@.licenses);
        push(out, kv("  license    ", j, pal.white, pal.dim));
    }
    assert(lines_view(out@) =~= before + detail_metadata(p@, pal));
}

/// The lines of the detail view (see `detail_screen`).
pub fn detail_lines(app: &App, width: u16, now: u64) -> (r: Vec<Line>)
    ensures
        lines_view(r@) == detail_screen(app@, width as nat, now),
{
    let mut out: Vec<Line> = Vec::new();
    let pal = app.color_scheme.palette();
    let accent = accent_of_detail(app);
    match app.selected() {
        None => {
            assert(lines_view(out@) =~= detail_screen(app@, width as nat, now));
        },
        Some(p) => {
            push_head(&mut out, p, accent, pal.dim, width);
            push_description(&mut out, p, pal);
            push_downloads(&mut out, p, accent, pal);
            push_github(&mut out, &app.gh, accent, pal, now);
            push_links(&mut out, p, app.link_cursor, app.link_style, accent, pal);
            push_metadata(&mut out, p, pal);
            assert(lines_view(out@) =~= detail_screen(app@, width as nat, now));
        },
    }
    out
}

// ── Settings view ────────────────────────────────────────────────────────────

/// The settings screen's own accent (not themed).
pub open spec fn settings_accent() -> Color {
    Color::Rgb(97, 218, 251)
}

/// See `settings_accent`.
pub fn settings_accent_color() -> (r: Color)
    ensures
        r == settings_accent(),
{
    Color::Rgb(97, 218, 251)
}

/// The settings cursor is on row `r`.
pub open spec fn cursor_on(m: AppModel, r: SettingRow) -> bool {
    SettingRow::spec_all()[m.settings_cursor as int] == r
}

pub open spec fn row_prefix(on: bool) -> Seq<char> {
    if on {
        "▶  "@
    } else {
        "   "@
    }
}

pub open spec fn row_color(on: bool, pal: Palette) -> Color {
    if on {
        settings_accent()
    } else {
        pal.white
    }
}

/// A settings row: cursor marker, name, value, hint.
pub open spec fn setting_line(on: bool, name: Seq<char>, value: Seq<char>, hint: Seq<char>, pal: Palette) -> Seq<
    SpanModel,
> {
    seq![
        sm(row_prefix(on), lk(settings_accent(), true, false, false)),
        sm(name, lk(pal.dim, false, false, false)),
        sm(value, lk(row_color(on, pal), true, false, false)),
        sm(hint, lk(pal.dim, false, true, false)),
    ]
}

/// The token row: the input box while a token is typed, else the stored token
/// masked.
pub open spec fn token_line(m: AppModel, pal: Palette) -> Seq<SpanModel> {
    let on = cursor_on(m, SettingRow::GithubToken);
    if m.settings_editing {
        seq![
            sm(row_prefix(on), lk(settings_accent(), true, false, false)),
            sm("token    "@, lk(pal.dim, false, false, false)),
            sm("["@ + m.settings_input + "█]"@, lk(pal.yellow, true, false, false)),
            sm("  enter to confirm · esc to cancel"@, lk(pal.dim, false, true, false)),
        ]
    } else {
        setting_line(
            on,
            "token    "@,
            match m.settings_token {
                Some(t) => spec_mask_token(t),
                None => "(not set)"@,
            },
            if m.settings_token is Some {
                "  enter to edit · d to clear"@
            } else {
                "  enter to set"@
            },
            pal,
        )
    }
}

/// The settings view.
pub open spec fn settings_screen(m: AppModel) -> Seq<Seq<SpanModel>> {
    let pal = m.color_scheme.spec_palette();
    let c = m.settings_config;
    seq![
        Seq::empty(),
        section_line("  github"@, pal.dim),
        Seq::empty(),
        token_line(m, pal),
        seq![sm("             ~/.config/hexplorer/credentials.json (0600)"@, lk(pal.dim, false, true, false))],
        Seq::empty(),
        section_line("  appearance"@, pal.dim),
        Seq::empty(),
        setting_line(
            cursor_on(m, SettingRow::ColorScheme),
            "color_scheme      "@,
            c.color_scheme.spec_label(),
            "  ← →"@,
            pal,
        ),
        setting_line(
            cursor_on(m, SettingRow::DefaultLanguage),
            "default_language  "@,
            c.default_language.spec_label(),
            "  ← →"@,
            pal,
        ),
        setting_line(
            cursor_on(m, SettingRow::LinkStyle),
            "link_style        "@,
            c.link_style.spec_label(),
            "  ← →"@,
            pal,
        ),
        Seq::empty(),
        section_line("  storage"@, pal.dim),
        Seq::empty(),
        setting_line(
            cursor_on(m, SettingRow::KeepWeeks),
            "keep_weeks  "@,
            decimal(c.keep_weeks as nat) + " weeks"@,
            "  ← →"@,
            pal,
        ),
        setting_line(
            cursor_on(m, SettingRow::Compress),
            "compress    "@,
            if c.compress {
                "on"@
            } else {
                "off"@
            },
            "  enter to toggle"@,
            pal,
        ),
        setting_line(
            cursor_on(m, SettingRow::ClearGhCache),
            "gh cache    "@,
            decimal(m.cache.dom().len()) + " entries"@,
            "  enter to clear"@,
            pal,
        ),
    ]
}

fn setting_row(on: bool, name: &str, value: String, hint: &str, pal: Palette) -> (r: Line)
    ensures
        r@ == setting_line(on, name@, value@, hint@, pal),
{
    let ac = settings_accent_color();
    let col = if on {
        ac
    } else {
        pal.white
    };
    let pre = if on {
        "▶  "
    } else {
        "   "
    };
    line4(
        sps(pre, mk(ac, true, false, false)),
        sps(name, mk(pal.dim, false, false, false)),
        sp(value, mk(col, true, false, false)),
        sps(hint, mk(pal.dim, false, true, false)),
    )
}

fn on_row(app: &App, r: SettingRow) -> (b: bool)
    requires
        app@.wf(),
    ensures
        b == cursor_on(app@, r),
{
    let rows = SettingRow::all();
    rows[app.settings_cursor] == r
}

fn token_row(app: &App, pal: Palette) -> (r: Line)
    requires
        app@.wf(),
    ensures
        r@ == token_line(app@, pal),
{
    let on = on_row(app, SettingRow::GithubToken);
    if app.settings_editing {
        let ac = settings_accent_color();
        let pre = if on {
            "▶  "
        } else {
            "   "
        };
        let mut v = "[".to_owned();
        v.append(app.settings_input.as_str());
        v.append("█]");
        line4(
            sps(pre, mk(ac, true, false, false)),
            sps("token    ", mk(pal.dim, false, false, false)),
            sp(v, mk(pal.yellow, true, false, false)),
            sps("  enter to confirm · esc to cancel", mk(pal.dim, false, true, false)),
        )
    } else {
        match &app.settings_token {
            Some(t) => setting_row(on, "token    ", mask_token(t.as_str()), "  enter to edit · d to clear", pal),
            None => setting_row(on, "token    ", "(not set)".to_owned(), "  enter to set", pal),
        }
    }
}

/// The lines of the settings view (see `settings_screen`).
pub fn settings_lines(app: &App) -> (r: Vec<Line>)
    requires
        app@.wf(),
    ensures
        lines_view(r@) == settings_screen(app@),
{
    let pal = app.color_scheme.palette();
    let c = app.settings_config;
    let mut out: Vec<Line> = Vec::new();
    push(&mut out, line0());
    push(&mut out, section("  github", pal.dim));
    push(&mut out, line0());
    push(&mut out, token_row(app, pal));
    push(
        &mut out,
        line1(sps("             ~/.config/hexplorer/credentials.json (0600)", mk(pal.dim, false, true, false))),
    );
    push(&mut out, line0());
    push(&mut out, section("  appearance", pal.dim));
    push(&mut out, line0());
    push(
        &mut out,
        setting_row(
            on_row(app, SettingRow::ColorScheme),
            "color_scheme      ",
            c.color_scheme.label().to_owned(),
            "  ← →",
            pal,
        ),
    );
    push(
        &mut out,
        setting_row(
            on_row(app, SettingRow::DefaultLanguage),
            "default_language  ",
            c.default_language.label().to_owned(),
            "  ← →",
            pal,
        ),
    );
    push(
        &mut out,
        setting_row(
            on_row(app, SettingRow::LinkStyle),
            "link_style        ",
            c.link_style.label().to_owned(),
            "  ← →",
            pal,
        ),
    );
    push(&mut out, line0());
    push(&mut out, section("  storage", pal.dim));
    push(&mut out, line0());
    let mut weeks = u64_to_string(c.keep_weeks as u64);
    weeks.append(" weeks");
    push(&mut out, setting_row(on_row(app, SettingRow::KeepWeeks), "keep_weeks  ", weeks, "  ← →", pal));
    let onoff = if c.compress {
        "on"
    } else {
        "off"
    };
    push(
        &mut out,
        setting_row(on_row(app, SettingRow::Compress), "compress    ", onoff.to_owned(), "  enter to toggle", pal),
    );
    let mut entries = u64_to_string(app.cache.len() as u64);
    entries.append(" entries");
    push(
        &mut out,
        setting_row(on_row(app, SettingRow::ClearGhCache), "gh cache    ", entries, "  enter to clear", pal),
    );
    assert(lines_view(out@) =~= settings_screen(app@));
    out
}

// ── List view: preview pane ──────────────────────────────────────────────────

/// The list view's accent: yellow among favourites, else the language colour.
pub open spec fn list_accent(m: AppModel) -> Color {
    if m.favorites_mode {
        m.color_scheme.spec_palette().yellow
    } else {
        m.language.spec_accent()
    }
}

/// See `list_accent`.
pub fn accent_of_list(app: &App) -> (r: Color)
    ensures
        r == list_accent(app@),
{
    if app.favorites_mode {
        app.color_scheme.palette().yellow
    } else {
        app.language.accent()
    }
}

/// Characters a link may take in the preview of a pane `width` columns wide.
pub open spec fn link_room(width: u16) -> usize {
    if width >= 4 {
        (width - 4) as usize
    } else {
        0
    }
}

/// The cached GitHub line of the preview (no fetch), when the cache has the
/// package's repository.
pub open spec fn preview_gh_lines(m: AppModel, p: PackageModel, accent: Color, pal: Palette, now: u64) -> Seq<
    Seq<SpanModel>,
> {
    match p.repo_url {
        Some(u) => if m.cache.contains_key(u) {
            let e = m.cache[u];
            seq![
                seq![
                    sm("★ "@, lk(pal.yellow, false, false, false)),
                    sm(decimal(e.stars as nat), lk(pal.white, true, false, false)),
                    sm("  ⑂ "@, lk(accent, false, false, false)),
                    sm(decimal(e.forks as nat), lk(pal.white, false, false, false)),
                    sm("  ("@ + e.spec_age_label(now) + ")"@, lk(pal.dim, false, true, false)),
                ],
            ]
        } else {
            Seq::empty()
        },
        None => Seq::empty(),
    }
}

/// The preview's name line and rule (at most 44 wide).
pub open spec fn preview_head(m: AppModel, p: PackageModel, width: u16) -> Seq<Seq<SpanModel>> {
    let pal = m.color_scheme.spec_palette();
    let accent = list_accent(m);
    let name_color = if m.language == Language::All {
        p.language.spec_accent()
    } else {
        accent
    };
    seq![
        seq![
            sm(p.name, lk(name_color, true, false, false)),
            sm("  v"@ + p.version, lk(accent, false, false, false)),
        ],
        seq![sm(repeated('─', min_u(width as nat, 44)), lk(pal.dim, false, false, false))],
    ]
}

/// The preview's description (when there is one) and download counts.
pub open spec fn preview_body(p: PackageModel, accent: Color, pal: Palette) -> Seq<Seq<SpanModel>> {
    let desc: Seq<Seq<SpanModel>> = if p.description.len() > 0 {
        seq![Seq::empty(), seq![sm(p.description, lk(pal.white, false, false, false))]]
    } else {
        Seq::empty()
    };
    desc + seq![
        Seq::empty(),
        seq![
            sm("⬇ "@, lk(accent, false, false, false)),
            sm(spec_dl_full(p.downloads_all as nat), lk(pal.white, true, false, false)),
            sm("  total"@, lk(pal.dim, false, false, false)),
        ],
        seq![
            sm("⬇ "@, lk(accent, false, false, false)),
            sm(spec_dl_full(p.downloads_recent as nat), lk(pal.white, false, false, false)),
            sm("  recent"@, lk(pal.dim, false, false, false)),
        ],
    ]
}

/// The preview's update date and licences.
pub open spec fn preview_meta(p: PackageModel, pal: Palette) -> Seq<Seq<SpanModel>> {
    let lic: Seq<Seq<SpanModel>> = if p.licenses.len() > 0 {
        seq![
            seq![
                sm("license   "@, lk(pal.dim, false, false, false)),
                sm(join(p.licenses, ", "@), lk(pal.white, false, false, false)),
            ],
        ]
    } else {
        Seq::empty()
    };
    seq![
        Seq::empty(),
        seq![
            sm("updated   "@, lk(pal.dim, false, false, false)),
            sm(spec_date(p.updated_at), lk(pal.white, false, false, false)),
        ],
    ] + lic
}

/// The preview's links, cut to `room` characters, and the closing hint.
pub open spec fn preview_links(p: PackageModel, room: usize, accent: Color, pal: Palette) -> Seq<Seq<SpanModel>> {
    let docs: Seq<Seq<SpanModel>> = match p.docs_url {
        Some(d) => seq![
            Seq::empty(),
            seq![
                sm("📖 "@, lk(accent, false, false, false)),
                sm(spec_truncate(d, room), lk(accent, false, false, false)),
            ],
        ],
        None => Seq::empty(),
    };
    let repo: Seq<Seq<SpanModel>> = match p.repo_url {
        Some(u) => seq![
            seq![
                sm("⌥  "@, lk(accent, false, false, false)),
                sm(spec_truncate(u, room), lk(accent, false, false, false)),
            ],
        ],
        None => Seq::empty(),
    };
    docs + repo + seq![
        Seq::empty(),
        seq![sm("  ↵ Enter for full detail"@, lk(pal.dim, false, true, false))],
    ]
}

/// The preview pane of the list view, `width` columns wide, with cache ages as
/// of `now`.
pub open spec fn preview_screen(m: AppModel, width: u16, now: u64) -> Seq<Seq<SpanModel>> {
    let pal = m.color_scheme.spec_palette();
    let accent = list_accent(m);
    match selected_pkg(m) {
        None => Seq::empty(),
        Some(p) => preview_head(m, p, width) + preview_body(p, accent, pal) + preview_gh_lines(
            m,
            p,
            accent,
            pal,
            now,
        ) + preview_meta(p, pal) + preview_links(p, link_room(width), accent, pal),
    }
}

fn push_preview_gh(out: &mut Vec<Line>, app: &App, accent: Color, pal: Palette, now: u64)
    requires
        selected_pkg(app@) is Some,
    ensures
        lines_view(final(out)@) == lines_view(old(out)@) + preview_gh_lines(
            app@,
            selected_pkg(app@)->0,
            accent,
            pal,
            now,
        ),
{
    let ghost before = lines_view(out@);
    match app.preview_gh() {
        Some(e) => {
            let mut age = "  (".to_owned();
            age.append(e.age_label_at(now).as_str());
            age.append(")");
            push(
                out,
                line5(
                    sps("★ ", mk(pal.yellow, false, false, false)),
                    sp(u64_to_string(e.stars as u64), mk(pal.white, true, false, false)),
                    sps("  ⑂ ", mk(accent, false, false, false)),
                    sp(u64_to_string(e.forks as u64), mk(pal.white, false, false, false)),
                    sp(age, mk(pal.dim, false, true, false)),
                ),
            );
        },
        None => {},
    }
    assert(lines_view(out@) =~= before + preview_gh_lines(app@, selected_pkg(app@)->0, accent, pal, now));
}

fn push_preview_head(out: &mut Vec<Line>, app: &App, p: &Package, width: u16)
    ensures
        lines_view(final(out)@) == lines_view(old(out)@) + preview_head(app@, p@, width),
{
    let pal = app.color_scheme.palette();
    let accent = accent_of_list(app);
    let name_color = if app.language == Language::All {
        p.language.accent()
    } else {
        accent
    };
    let mut v = "  v".to_owned();
    v.append(p.version.as_str());
    push(out, line2(sp(p.name.clone(), mk(name_color, true, false, false)), sp(v, mk(accent, false, false, false))));
    let n: usize = if width < 44 {
        width as usize
    } else {
        44
    };
    push(out, line1(sp(repeat_char('─', n), mk(pal.dim, false, false, false))));
    assert(lines_view(out@) =~= lines_view(old(out)@) + preview_head(app@, p@, width));
}

fn push_preview_body(out: &mut Vec<Line>, p: &Package, accent: Color, pal: Palette)
    ensures
        lines_view(final(out)@) == lines_view(old(out)@) + preview_body(p@, accent, pal),
{
    if p.description.unicode_len() > 0 {
        push(out, line0());
        push(out, line1(sp(p.description.clone(), mk(pal.white, false, false, false))));
    }
    push(out, line0());
    push(
        out,
        line3(
            sps("⬇ ", mk(accent, false, false, false)),
            sp(dl_full(p.downloads_all), mk(pal.white, true, false, false)),
            sps("  total", mk(pal.dim, false, false, false)),
        ),
    );
    push(
        out,
        line3(
            sps("⬇ ", mk(accent, false, false, false)),
            sp(dl_full(p.downloads_recent), mk(pal.white, false, false, false)),
            sps("  recent", mk(pal.dim, false, false, false)),
        ),
    );
    assert(lines_view(out@) =~= lines_view(old(out)@) + preview_body(p@, accent, pal));
}

fn push_preview_meta(out: &mut Vec<Line>, p: &Package, pal: Palette)
    ensures
        lines_view(final(out)@) == lines_view(old(out)@) + preview_meta(p@, pal),
{
    push(out, line0());
    push(
        out,
        line2(
            sps("updated   ", mk(pal.dim, false, false, false)),
            sps(date(p.updated_at.as_str()), mk(pal.white, false, false, false)),
        ),
    );
    if p.licenses.len() > 0 {
        let j = join_strings(&p.licenses, ", ");
        assert(views(p.licenses@) =~= p@.licenses);
        push(out, line2(sps("license   ", mk(pal.dim, false, false, false)), sp(j, mk(pal.white, false, false, false))));
    }
    assert(lines_view(out@) =~= lines_view(old(out)@) + preview_meta(p@, pal));
}

fn push_preview_links(out: &mut Vec<Line>, p: &Package, room: usize, accent: Color, pal: Palette)
    ensures
        lines_view(final(out)@) == lines_view(old(out)@) + preview_links(p@, room, accent, pal),
{
    match &p.docs_url {
        Some(d) => {
            push(out, line0());
            push(
                out,
                line2(sps("📖 ", mk(accent, false, false, false)), sp(truncate(d.as_str(), room), mk(accent, false, false, false))),
            );
        },
        None => {},
    }
    match &p.repo_url {
        Some(u) => {
            push(
                out,
                line2(sps("⌥  ", mk(accent, false, false, false)), sp(truncate(u.as_str(), room), mk(accent, false, false, false))),
            );
        },
        None => {},
    }
    push(out, line0());
    push(out, line1(sps("  ↵ Enter for full detail", mk(pal.dim, false, true, false))));
    assert(lines_view(out@) =~= lines_view(old(out)@) + preview_links(p@, room, accent, pal));
}

/// The lines of the list view's preview pane (see `preview_screen`).
pub fn preview_lines(app: &App, width: u16, now: u64) -> (r: Vec<Line>)
    ensures
        lines_view(r@) == preview_screen(app@, width, now),
{
    let mut out: Vec<Line> = Vec::new();
    let pal = app.color_scheme.palette();
    let accent = accent_of_list(app);
    match app.selected() {
        None => {
            assert(lines_view(out@) =~= preview_screen(app@, width, now));
        },
        Some(p) => {
            let room: usize = if width >= 4 {
                (width - 4) as usize
            } else {
                0
            };
            push_preview_head(&mut out, app, p, width);
            push_preview_body(&mut out, p, accent, pal);
            push_preview_gh(&mut out, app, accent, pal, now);
            push_preview_meta(&mut out, p, pal);
            push_preview_links(&mut out, p, room, accent, pal);
            assert(lines_view(out@) =~= preview_screen(app@, width, now));
        },
    }
    out
}

// ── List view: the package list ──────────────────────────────────────────────

/// The list's title.
pub open spec fn list_title(m: AppModel) -> Seq<char> {
    if m.favorites_mode {
        " ★ favorites ("@ + decimal(m.packages.len()) + ") "@
    } else {
        " packages ("@ + m.language.spec_label() + ") "@
    }
}

/// See `list_title`.
pub fn list_title_of(app: &App) -> (r: String)
    ensures
        r@ == list_title(app@),
{
    if app.favorites_mode {
        let mut t = " ★ favorites (".to_owned();
        t.append(u64_to_string(app.packages.len() as u64).as_str());
        t.append(") ");
        t
    } else {
        let mut t = " packages (".to_owned();
        t.append(app.language.label());
        t.append(") ");
        t
    }
}

/// What the list shows instead of packages: the error, the fetch in progress, or
/// that there are none; `None` when there are packages to list.
pub open spec fn list_notice(m: AppModel) -> Option<Seq<Seq<SpanModel>>> {
    let pal = m.color_scheme.spec_palette();
    match m.error {
        Some(e) => Some(seq![Seq::empty(), seq![sm("  ✗  "@ + e, lk(Color::Red, false, false, false))]]),
        None => if m.loading {
            Some(seq![Seq::empty(), seq![sm("  ⟳  fetching from hex.pm…"@, lk(pal.dim, false, true, false))]])
        } else if m.packages.len() == 0 {
            Some(seq![Seq::empty(), seq![sm("  no packages found"@, lk(pal.dim, false, false, false))]])
        } else {
            None
        },
    }
}

/// See `list_notice`.
pub fn list_notice_of(app: &App) -> (r: Option<Vec<Line>>)
    ensures
        match r {
            Some(v) => list_notice(app@) == Some(lines_view(v@)),
            None => list_notice(app@) is None,
        },
{
    let pal = app.color_scheme.palette();
    let l = match &app.error {
        Some(e) => {
            let mut t = "  ✗  ".to_owned();
            t.append(e.as_str());
            line1(sp(t, mk(Color::Red, false, false, false)))
        },
        None => if app.loading {
            line1(sps("  ⟳  fetching from hex.pm…", mk(pal.dim, false, true, false)))
        } else if app.packages.len() == 0 {
            line1(sps("  no packages found", mk(pal.dim, false, false, false)))
        } else {
            return None;
        },
    };
    let mut out: Vec<Line> = Vec::new();
    push(&mut out, line0());
    push(&mut out, l);
    assert(list_notice(app@) == Some(lines_view(out@)));
    Some(out)
}

/// One package's row in the list: a star when it is a favourite, its language
/// badge when `badge`, then name, version and recent downloads.
pub open spec fn item_line(m: AppModel, p: PackageModel, badge: bool, accent: Color, pal: Palette) -> Seq<
    SpanModel,
> {
    let star: Seq<SpanModel> = if m.favorites.contains_key(p.name) {
        seq![sm("★ "@, lk(pal.yellow, false, false, false))]
    } else {
        seq![sm("  "@, plain())]
    };
    let b: Seq<SpanModel> = if badge {
        seq![sm("["@ + p.language.spec_badge() + "] "@, lk(p.language.spec_accent(), false, false, false))]
    } else {
        Seq::empty()
    };
    star + b + seq![
        sm(p.name, lk(pal.white, false, false, false)),
        sm("  v"@ + p.version, lk(pal.dim, false, false, false)),
        sm("  "@ + spec_dl_short(p.downloads_recent as nat) + "⬇"@, lk(accent, false, false, false)),
    ]
}

/// The rows of the package list; badges show in the all-BEAM listing and among
/// favourites.
pub open spec fn list_items(m: AppModel) -> Seq<Seq<SpanModel>> {
    let badge = m.language == Language::All || m.favorites_mode;
    let pal = m.color_scheme.spec_palette();
    m.packages.map_values(|p: PackageModel| item_line(m, p, badge, list_accent(m), pal))
}

fn item_of(app: &App, p: &Package, badge: bool, accent: Color, pal: Palette) -> (r: Line)
    ensures
        r@ == item_line(app@, p@, badge, accent, pal),
{
    let mut spans: Vec<Span> = Vec::new();
    if app.favorites.contains_key(p.name.as_str()) {
        spans.push(sps("★ ", mk(pal.yellow, false, false, false)));
    } else {
        spans.push(sps("  ", plain_look()));
    }
    if badge {
        let mut t = "[".to_owned();
        t.append(p.language.badge());
        t.append("] ");
        spans.push(sp(t, mk(p.language.accent(), false, false, false)));
    }
    spans.push(sp(p.name.clone(), mk(pal.white, false, false, false)));
    let mut v = "  v".to_owned();
    v.append(p.version.as_str());
    spans.push(sp(v, mk(pal.dim, false, false, false)));
    let mut d = "  ".to_owned();
    d.append(dl_short(p.downloads_recent).as_str());
    d.append("⬇");
    spans.push(sp(d, mk(accent, false, false, false)));
    let r = Line { spans };
    assert(r@ =~= item_line(app@, p@, badge, accent, pal));
    r
}

/// The rows of the package list (see `list_items`).
pub fn list_item_lines(app: &App) -> (r: Vec<Line>)
    ensures
        lines_view(r@) == list_items(app@),
{
    let badge = app.language == Language::All || app.favorites_mode;
    let pal = app.color_scheme.palette();
    let accent = accent_of_list(app);
    let mut out: Vec<Line> = Vec::new();
    let mut i: usize = 0;
    while i < app.packages.len()
        invariant
            i <= app.packages@.len(),
            badge == (app@.language == Language::All || app@.favorites_mode),
            pal == app@.color_scheme.spec_palette(),
            accent == list_accent(app@),
            lines_view(out@) == list_items(app@).take(i as int),
        decreases app.packages@.len() - i,
    {
        push(&mut out, item_of(app, &app.packages[i], badge, accent, pal));
        assert(list_items(app@).take(i + 1) =~= list_items(app@).take(i as int).push(
            item_line(app@, app@.packages[i as int], badge, accent, pal),
        ));
        i = i + 1;
    }
    assert(list_items(app@).take(i as int) =~= list_items(app@));
    out
}

// ── Header, tab bar, footer ──────────────────────────────────────────────────

/// The package count under the logo.
pub open spec fn header_count(m: AppModel) -> Seq<char> {
    if m.loading {
        " fetching… "@
    } else if m.page > 1 {
        " "@ + decimal(m.packages.len()) + " pkgs · p."@ + decimal(m.page as nat) + " "@
    } else {
        " "@ + decimal(m.packages.len()) + " pkgs "@
    }
}

/// See `header_count`.
pub fn header_count_of(app: &App) -> (r: String)
    ensures
        r@ == header_count(app@),
{
    if app.loading {
        " fetching… ".to_owned()
    } else if app.page > 1 {
        let mut t = " ".to_owned();
        t.append(u64_to_string(app.packages.len() as u64).as_str());
        t.append(" pkgs · p.");
        t.append(u64_to_string(app.page as u64).as_str());
        t.append(" ");
        t
    } else {
        let mut t = " ".to_owned();
        t.append(u64_to_string(app.packages.len() as u64).as_str());
        t.append(" pkgs ");
        t
    }
}

/// The search box: the query being typed, the hint when there is none, or the
/// query; then the sort order.
pub open spec fn search_box(m: AppModel) -> Seq<Seq<SpanModel>> {
    let pal = m.color_scheme.spec_palette();
    let q: SpanModel = if m.input_mode {
        sm("  /"@ + m.input + "_"@, lk(pal.yellow, true, false, false))
    } else if m.input.len() == 0 {
        sm("  press / to search…"@, lk(pal.dim, false, true, false))
    } else {
        sm("  /"@ + m.input, lk(pal.white, false, false, false))
    };
    seq![
        seq![q],
        seq![
            sm("  sort: "@, lk(pal.dim, false, false, false)),
            sm(m.sort.spec_label(), lk(list_accent(m), false, false, false)),
            sm("  [tab]"@, lk(pal.dim, false, true, false)),
        ],
    ]
}

/// See `search_box`.
pub fn search_box_lines(app: &App) -> (r: Vec<Line>)
    ensures
        lines_view(r@) == search_box(app@),
{
    let pal = app.color_scheme.palette();
    let q = if app.input_mode {
        let mut t = "  /".to_owned();
        t.append(app.input.as_str());
        t.append("_");
        sp(t, mk(pal.yellow, true, false, false))
    } else if app.input.unicode_len() == 0 {
        sps("  press / to search…", mk(pal.dim, false, true, false))
    } else {
        let mut t = "  /".to_owned();
        t.append(app.input.as_str());
        sp(t, mk(pal.white, false, false, false))
    };
    let mut out: Vec<Line> = Vec::new();
    push(&mut out, line1(q));
    push(
        &mut out,
        line3(
            sps("  sort: ", mk(pal.dim, false, false, false)),
            sps(app.sort.label(), mk(accent_of_list(app), false, false, false)),
            sps("  [tab]", mk(pal.dim, false, true, false)),
        ),
    );
    assert(lines_view(out@) =~= search_box(app@));
    out
}

/// One language's tab: highlighted when it is the listing's language (outside
/// favourites), then a gap.
pub open spec fn tab_pair(m: AppModel, l: Language, pal: Palette) -> Seq<SpanModel> {
    let t = if !m.favorites_mode && l == m.language {
        sm("[■ "@ + l.spec_label() + "]"@, lk(l.spec_accent(), true, false, true))
    } else {
        sm(l.spec_label(), lk(pal.dim, false, false, false))
    };
    seq![t, sm("  "@, plain())]
}

/// The tab bar and its hint.
pub open spec fn tab_bar(m: AppModel) -> Seq<Seq<SpanModel>> {
    let pal = m.color_scheme.spec_palette();
    let fav: Seq<SpanModel> = if m.favorites_mode {
        seq![sm("[★ favorites]"@, lk(pal.yellow, true, false, true)), sm("  "@, plain())]
    } else {
        Seq::empty()
    };
    seq![
        seq![sm(" "@, plain())] + fav + tab_pair(m, Language::Gleam, pal) + tab_pair(m, Language::Elixir, pal)
            + tab_pair(m, Language::Erlang, pal) + tab_pair(m, Language::All, pal),
        seq![sm("  l / L  cycle language"@, lk(pal.dim, false, true, false))],
    ]
}

fn push_tab(spans: &mut Vec<Span>, app: &App, l: Language, pal: Palette)
    ensures
        final(spans)@.map_values(|s: Span| s@) == old(spans)@.map_values(|s: Span| s@) + tab_pair(app@, l, pal),
{
    let ghost before = old(spans)@.map_values(|s: Span| s@);
    if !app.favorites_mode && l == app.language {
        let mut t = "[■ ".to_owned();
        t.append(l.label());
        t.append("]");
        spans.push(sp(t, mk(l.accent(), true, false, true)));
    } else {
        spans.push(sps(l.label(), mk(pal.dim, false, false, false)));
    }
    spans.push(sps("  ", plain_look()));
    assert(spans@.map_values(|s: Span| s@) =~= before + tab_pair(app@, l, pal));
}

/// See `tab_bar`.
pub fn tab_bar_lines(app: &App) -> (r: Vec<Line>)
    ensures
        lines_view(r@) == tab_bar(app@),
{
    let pal = app.color_scheme.palette();
    let mut spans: Vec<Span> = Vec::new();
    spans.push(sps(" ", plain_look()));
    if app.favorites_mode {
        spans.push(sps("[★ favorites]", mk(pal.yellow, true, false, true)));
        spans.push(sps("  ", plain_look()));
    }
    let ghost first = spans@.map_values(|s: Span| s@);
    assert(first =~= seq![sm(" "@, plain())] + (if app@.favorites_mode {
        seq![sm("[★ favorites]"@, lk(pal.yellow, true, false, true)), sm("  "@, plain())]
    } else {
        Seq::<SpanModel>::empty()
    }));
    push_tab(&mut spans, app, Language::Gleam, pal);
    push_tab(&mut spans, app, Language::Elixir, pal);
    push_tab(&mut spans, app, Language::Erlang, pal);
    push_tab(&mut spans, app, Language::All, pal);
    let mut out: Vec<Line> = Vec::new();
    push(&mut out, Line { spans });
    push(&mut out, line1(sps("  l / L  cycle language", mk(pal.dim, false, true, false))));
    assert(lines_view(out@) =~= tab_bar(app@));
    out
}

/// A key and what it does.
pub open spec fn key_hint(key: Seq<char>, what: Seq<char>, key_color: Color, dim: Color) -> Seq<SpanModel> {
    seq![sm(key, lk(key_color, true, false, false)), sm(what, lk(dim, false, false, false))]
}

/// The footer's key hints for the current view. The page keys show while
/// browsing (no query) with a page to turn to; the favourites key once something
/// is starred or the favourites are shown.
pub open spec fn footer(m: AppModel) -> Seq<SpanModel> {
    let pal = m.color_scheme.spec_palette();
    let a = list_accent(m);
    let d = pal.dim;
    match m.view {
        Screen::List => key_hint(" /"@, " search  "@, a, d) + key_hint("↑↓ j k"@, " nav  "@, a, d) + key_hint(
            "↵"@,
            " detail  "@,
            a,
            d,
        ) + key_hint("l / L"@, " lang  "@, a, d) + key_hint("tab"@, " sort  "@, a, d) + (if trim(m.input).len()
            == 0 && (m.page > 1 || m.has_more) {
            key_hint("[ ]"@, " page  "@, a, d)
        } else {
            Seq::empty()
        }) + key_hint("s"@, " star  "@, pal.yellow, d) + (if m.favorites != Map::<Seq<char>, Language>::empty()
            || m.favorites_mode {
            key_hint("f"@, " favorites  "@, pal.yellow, d)
        } else {
            Seq::empty()
        }) + key_hint("r"@, " refresh  "@, a, d) + key_hint("?"@, " settings  "@, a, d) + key_hint(
            "q"@,
            " quit"@,
            a,
            d,
        ),
        Screen::Detail => key_hint(" esc / q"@, " back  "@, a, d) + key_hint("↑↓ j k"@, " scroll  "@, a, d)
            + key_hint("PgUp/Dn"@, " fast"@, a, d),
        Screen::Settings => key_hint(" esc / q"@, " back  "@, settings_accent(), d) + key_hint(
            "↑↓ j k"@,
            " navigate  "@,
            settings_accent(),
            d,
        ) + key_hint("enter"@, " edit  "@, settings_accent(), d) + key_hint(
            "← →"@,
            " cycle"@,
            settings_accent(),
            d,
        ),
    }
}

fn push_hint(spans: &mut Vec<Span>, key: &str, what: &str, key_color: Color, dim: Color)
    ensures
        final(spans)@.map_values(|s: Span| s@) == old(spans)@.map_values(|s: Span| s@) + key_hint(
            key@,
            what@,
            key_color,
            dim,
        ),
{
    let ghost before = old(spans)@.map_values(|s: Span| s@);
    spans.push(sps(key, mk(key_color, true, false, false)));
    spans.push(sps(what, mk(dim, false, false, false)));
    assert(spans@.map_values(|s: Span| s@) =~= before + key_hint(key@, what@, key_color, dim));
}

/// The footer line (see `footer`).
pub fn footer_line(app: &App) -> (r: Line)
    ensures
        r@ == footer(app@),
{
    let pal = app.color_scheme.palette();
    let a = accent_of_list(app);
    let d = pal.dim;
    let mut spans: Vec<Span> = Vec::new();
    assert(spans@.map_values(|s: Span| s@) =~= Seq::<SpanModel>::empty());
    match app.view {
        Screen::List => {
            push_hint(&mut spans, " /", " search  ", a, d);
            push_hint(&mut spans, "↑↓ j k", " nav  ", a, d);
            push_hint(&mut spans, "↵", " detail  ", a, d);
            push_hint(&mut spans, "l / L", " lang  ", a, d);
            push_hint(&mut spans, "tab", " sort  ", a, d);
            let q = trimmed(app.input.as_str());
            if q.unicode_len() == 0 && (app.page > 1 || app.has_more) {
                push_hint(&mut spans, "[ ]", " page  ", a, d);
            }
            push_hint(&mut spans, "s", " star  ", pal.yellow, d);
            if !app.favorites.is_empty() || app.favorites_mode {
                push_hint(&mut spans, "f", " favorites  ", pal.yellow, d);
            }
            push_hint(&mut spans, "r", " refresh  ", a, d);
            push_hint(&mut spans, "?", " settings  ", a, d);
            push_hint(&mut spans, "q", " quit", a, d);
        },
        Screen::Detail => {
            push_hint(&mut spans, " esc / q", " back  ", a, d);
            push_hint(&mut spans, "↑↓ j k", " scroll  ", a, d);
            push_hint(&mut spans, "PgUp/Dn", " fast", a, d);
        },
        Screen::Settings => {
            let s = settings_accent_color();
            push_hint(&mut spans, " esc / q", " back  ", s, d);
            push_hint(&mut spans, "↑↓ j k", " navigate  ", s, d);
            push_hint(&mut spans, "enter", " edit  ", s, d);
            push_hint(&mut spans, "← →", " cycle", s, d);
        },
    }
    let r = Line { spans };
    assert(r@ =~= footer(app@));
    r
}

} // verus!
