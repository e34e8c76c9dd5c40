//! Shared domain types: languages, sort orders, views, colour schemes.

use vstd::prelude::*;
use vstd::view::View as _;
use crate::text::{all_ascii, chars_eq, chars_of, to_lowercase};

verus! {

// ── Language ─────────────────────────────────────────────────────────────────

/// A BEAM ecosystem. `All` means "no filter" (or "unknown" for a package).
#[derive(Debug, Clone, Copy, PartialEq, Eq, Hash, Structural)]
pub enum Language {
    Gleam,
    Elixir,
    Erlang,
    All,
}

/// The characters of a string, as a sequence of views.
pub open spec fn views(v: Seq<String>) -> Seq<Seq<char>> {
    v.map_values(|s: String| s@)
}

/// Which language a list of HEX.pm build tools indicates.
/// Gleam wins over Erlang, which wins over Elixir; nothing known gives `All`.
pub open spec fn spec_infer_language(tools: Seq<Seq<char>>) -> Language {
    if tools.contains("gleam"@) {
        Language::Gleam
    } else if tools.contains("rebar3"@) || tools.contains("erlang.mk"@) || tools.contains(
        "erlang"@,
    ) {
        Language::Erlang
    } else if tools.contains("mix"@) {
        Language::Elixir
    } else {
        Language::All
    }
}

impl Language {
    pub open spec fn spec_cycle(self) -> Language {
        match self {
            Language::Gleam => Language::Elixir,
            Language::Elixir => Language::Erlang,
            Language::Erlang => Language::All,
            Language::All => Language::Gleam,
        }
    }

    pub open spec fn spec_cycle_back(self) -> Language {
        match self {
            Language::Gleam => Language::All,
            Language::All => Language::Erlang,
            Language::Erlang => Language::Elixir,
            Language::Elixir => Language::Gleam,
        }
    }

    /// The lower-case name: `gleam`, `elixir`, `erlang`, `all`.
    pub open spec fn spec_name(self) -> Seq<char> {
        match self {
            Language::Gleam => "gleam"@,
            Language::Elixir => "elixir"@,
            Language::Erlang => "erlang"@,
            Language::All => "all"@,
        }
    }

    pub open spec fn spec_hex_filter(self) -> Option<Seq<char>> {
        match self {
            Language::Gleam => Some("build_tool:gleam"@),
            Language::Elixir => Some("build_tool:mix"@),
            Language::Erlang => Some("build_tool:rebar3"@),
            Language::All => None,
        }
    }

    /// Query fragment for the HEX.pm search (`None` = no filter).
    pub fn hex_filter(self) -> (r: Option<&'static str>)
        ensures
            match r {
                Some(f) => self.spec_hex_filter() == Some(f@),
                None => self.spec_hex_filter() is None,
            },
    {
        match self {
            Language::Gleam => Some("build_tool:gleam"),
            Language::Elixir => Some("build_tool:mix"),
            Language::Erlang => Some("build_tool:rebar3"),
            Language::All => None,
        }
    }

    /// The tab label.
    pub open spec fn spec_label(self) -> Seq<char> {
        match self {
            Language::Gleam => "Gleam"@,
            Language::Elixir => "Elixir"@,
            Language::Erlang => "Erlang"@,
            Language::All => "All BEAM"@,
        }
    }

    pub fn label(self) -> (r: &'static str)
        ensures
            r@ == self.spec_label(),
    {
        match self {
            Language::Gleam => "Gleam",
            Language::Elixir => "Elixir",
            Language::Erlang => "Erlang",
            Language::All => "All BEAM",
        }
    }

    pub open spec fn spec_badge(self) -> Seq<char> {
        match self {
            Language::Gleam => "glm"@,
            Language::Elixir => "ex "@,
            Language::Erlang => "erl"@,
            Language::All => " ? "@,
        }
    }

    /// Three-character badge used in `All BEAM` list mode.
    pub fn badge(self) -> (r: &'static str)
        ensures
            r@ == self.spec_badge(),
    {
        match self {
            Language::Gleam => "glm",
            Language::Elixir => "ex ",
            Language::Erlang => "erl",
            Language::All => " ? ",
        }
    }

    pub open spec fn spec_accent(self) -> Color {
        match self {
            Language::Gleam => Color::Rgb(255, 121, 198),
            Language::Elixir => Color::Rgb(100, 67, 217),
            Language::Erlang => Color::Rgb(163, 62, 40),
            Language::All => Color::Rgb(97, 218, 251),
        }
    }

    /// Per-ecosystem accent colour.
    pub fn accent(self) -> (r: Color)
        ensures
            r == self.spec_accent(),
    {
        match self {
            Language::Gleam => Color::Rgb(255, 121, 198),
            Language::Elixir => Color::Rgb(100, 67, 217),
            Language::Erlang => Color::Rgb(163, 62, 40),
            Language::All => Color::Rgb(97, 218, 251),
        }
    }

    /// Cycle forward: Gleam → Elixir → Erlang → All → Gleam.
    pub fn cycle(self) -> (r: Language)
        ensures
            r == self.spec_cycle(),
    {
        match self {
            Language::Gleam => Language::Elixir,
            Language::Elixir => Language::Erlang,
            Language::Erlang => Language::All,
            Language::All => Language::Gleam,
        }
    }

    /// Cycle backward: Gleam → All → Erlang → Elixir → Gleam.
    pub fn cycle_back(self) -> (r: Language)
        ensures
            r == self.spec_cycle_back(),
    {
        match self {
            Language::Gleam => Language::All,
            Language::All => Language::Erlang,
            Language::Erlang => Language::Elixir,
            Language::Elixir => Language::Gleam,
        }
    }

    /// All variants in display order (tab bar order).
    pub fn all() -> (r: &'static [Language])
        ensures
            r@ == seq![Language::Gleam, Language::Elixir, Language::Erlang, Language::All],
    {
        &[Language::Gleam, Language::Elixir, Language::Erlang, Language::All]
    }

    /// The lower-case name (what the language displays as).
    pub fn name(self) -> (r: &'static str)
        ensures
            r@ == self.spec_name(),
    {
        match self {
            Language::Gleam => "gleam",
            Language::Elixir => "elixir",
            Language::Erlang => "erlang",
            Language::All => "all",
        }
    }

    /// The language whose name is the lower-cased `s`, if any.
    pub open spec fn spec_parse(s: Seq<char>) -> Option<Language> {
        let l = crate::text::lowercase(s);
        if l == "gleam"@ {
            Some(Language::Gleam)
        } else if l == "elixir"@ {
            Some(Language::Elixir)
        } else if l == "erlang"@ {
            Some(Language::Erlang)
        } else if l == "all"@ {
            Some(Language::All)
        } else {
            None
        }
    }

    /// Parse a language name, ignoring case: the input is lower-cased and must then
    /// be one of the four names. Otherwise the error message quotes the lower-cased input.
    pub fn parse_name(s: &str) -> (r: Result<Language, String>)
        ensures
            forall|l: Language| s@ == #[trigger] l.spec_name() ==> (r matches Ok(x) && x == l),
            match r {
                Ok(l) => Language::spec_parse(s@) == Some(l) && l.spec_name()
                    == crate::text::lowercase(s@),
                Err(e) => Language::spec_parse(s@) is None && (forall|l: Language|
                    l.spec_name() != crate::text::lowercase(s@)) && e@
                    == "unknown language: '"@ + crate::text::lowercase(s@)
                    + "' (valid: gleam, elixir, erlang, all)"@,
            },
    {
        let lower = to_lowercase(s);
        proof {
            reveal_strlit("gleam");
            reveal_strlit("elixir");
            reveal_strlit("erlang");
            reveal_strlit("all");
            assert forall|l: Language| s@ == #[trigger] l.spec_name() implies lower@ == s@ by {
                assert(all_ascii(s@));
                assert(lower@ =~= s@);
            }
        }
        let lv = chars_of(lower.as_str());
        let r = if chars_eq(&lv, &chars_of("gleam")) {
            Ok(Language::Gleam)
        } else if chars_eq(&lv, &chars_of("elixir")) {
            Ok(Language::Elixir)
        } else if chars_eq(&lv, &chars_of("erlang")) {
            Ok(Language::Erlang)
        } else if chars_eq(&lv, &chars_of("all")) {
            Ok(Language::All)
        } else {
            assert forall|l: Language| l.spec_name() != crate::text::lowercase(s@) by {
                match l {
                    Language::Gleam => {},
                    Language::Elixir => {},
                    Language::Erlang => {},
                    Language::All => {},
                }
            }
            let mut e = String::new();
            e.append("unknown language: '");
            e.append(lower.as_str());
            e.append("' (valid: gleam, elixir, erlang, all)");
            Err(e)
        };
        proof {
            assert forall|l: Language| s@ == #[trigger] l.spec_name() implies (r matches Ok(x) && x
                == l) by {
                assert(lv@ == l.spec_name());
                assert("gleam"@.len() == 5 && "elixir"@.len() == 6 && "all"@.len() == 3);
                assert("elixir"@[1] != "erlang"@[1]);
                match l {
                    Language::Gleam => {},
                    Language::Elixir => {
                        assert(lv@ != "gleam"@);
                    },
                    Language::Erlang => {
                        assert(lv@ != "gleam"@);
                        assert(lv@ != "elixir"@);
                    },
                    Language::All => {
                        assert(lv@ != "gleam"@);
                        assert(lv@ != "elixir"@);
                        assert(lv@ != "erlang"@);
                    },
                }
            }
        }
        r
    }
}

impl Default for Language {
    fn default() -> (r: Language)
        ensures
            r == Language::Gleam,
    {
        Language::Gleam
    }
}

impl std::str::FromStr for Language {
    type Err = String;

    /// See `Language::parse_name`.
    fn from_str(s: &str) -> (r: Result<Language, String>)
        ensures
            forall|l: Language| s@ == #[trigger] l.spec_name() ==> (r matches Ok(x) && x == l),
            match r {
                Ok(l) => Language::spec_parse(s@) == Some(l) && l.spec_name()
                    == crate::text::lowercase(s@),
                Err(e) => Language::spec_parse(s@) is None && (forall|l: Language|
                    l.spec_name() != crate::text::lowercase(s@)) && e@
                    == "unknown language: '"@ + crate::text::lowercase(s@)
                    + "' (valid: gleam, elixir, erlang, all)"@,
            },
    {
        Language::parse_name(s)
    }
}

/// Infer a package's language from its HEX.pm `build_tools`.
/// Priority: Gleam > Erlang > Elixir; `All` when no known tool is listed.
pub fn infer_language(build_tools: &[String]) -> (r: Language)
    ensures
        r == spec_infer_language(views(build_tools@)),
{
    let ghost tools = views(build_tools@);
    let mut has_gleam = false;
    let mut has_erlang = false;
    let mut has_mix = false;
    let gleam = chars_of("gleam");
    let rebar3 = chars_of("rebar3");
    let erlang_mk = chars_of("erlang.mk");
    let erlang = chars_of("erlang");
    let mix = chars_of("mix");
    let mut i: usize = 0;
    while i < build_tools.len()
        invariant
            i <= build_tools@.len(),
            tools == views(build_tools@),
            gleam@ == "gleam"@,
            rebar3@ == "rebar3"@,
            erlang_mk@ == "erlang.mk"@,
            erlang@ == "erlang"@,
            mix@ == "mix"@,
            has_gleam == tools.take(i as int).contains("gleam"@),
            has_erlang == (tools.take(i as int).contains("rebar3"@) || tools.take(
                i as int,
            ).contains("erlang.mk"@) || tools.take(i as int).contains("erlang"@)),
            has_mix == tools.take(i as int).contains("mix"@),
        decreases build_tools@.len() - i,
    {
        let t = chars_of(build_tools[i].as_str());
        let ghost prev = tools.take(i as int);
        assert(tools.take(i + 1) =~= prev.push(t@));
        let is_gleam = chars_eq(&t, &gleam);
        let is_erl = chars_eq(&t, &rebar3) || chars_eq(&t, &erlang_mk) || chars_eq(&t, &erlang);
        let is_mix = chars_eq(&t, &mix);
        proof {
            assert forall|w: Seq<char>| prev.push(t@).contains(w) <==> (prev.contains(w) || w
                == t@) by {
                if prev.push(t@).contains(w) {
                    let k = choose|k: int| 0 <= k < prev.push(t@).len() && prev.push(t@)[k] == w;
                    if k < prev.len() {
                        assert(prev[k] == w);
                    }
                }
                if prev.contains(w) {
                    let k = choose|k: int| 0 <= k < prev.len() && prev[k] == w;
                    assert(prev.push(t@)[k] == w);
                }
                if w == t@ {
                    assert(prev.push(t@)[prev.len() as int] == w);
                }
            }
        }
        has_gleam = has_gleam || is_gleam;
        has_erlang = has_erlang || is_erl;
        has_mix = has_mix || is_mix;
        i = i + 1;
    }
    assert(tools.take(build_tools@.len() as int) =~= tools);
    if has_gleam {
        Language::Gleam
    } else if has_erlang {
        Language::Erlang
    } else if has_mix {
        Language::Elixir
    } else {
        Language::All
    }
}

// ── Colours ──────────────────────────────────────────────────────────────────

/// A terminal colour: 24-bit RGB, or the terminal's own white or red.
#[derive(Debug, Clone, Copy, PartialEq, Eq, Structural)]
pub enum Color {
    Rgb(u8, u8, u8),
    White,
    Red,
}

// ── Sort ─────────────────────────────────────────────────────────────────────

#[derive(Debug, Clone, Copy, PartialEq, Eq, Hash, Structural)]
pub enum Sort {
    RecentDownloads,
    Downloads,
    Updated,
    Newest,
    Name,
}

impl Sort {
    pub open spec fn spec_api_param(self) -> Seq<char> {
        match self {
            Sort::RecentDownloads => "recent_downloads"@,
            Sort::Downloads => "downloads"@,
            Sort::Updated => "updated_at"@,
            Sort::Newest => "inserted_at"@,
            Sort::Name => "name"@,
        }
    }

    pub open spec fn spec_cycle(self) -> Sort {
        match self {
            Sort::RecentDownloads => Sort::Downloads,
            Sort::Downloads => Sort::Updated,
            Sort::Updated => Sort::Newest,
            Sort::Newest => Sort::Name,
            Sort::Name => Sort::RecentDownloads,
        }
    }

    /// The `sort` parameter of the HEX.pm API.
    pub fn api_param(self) -> (r: &'static str)
        ensures
            r@ == self.spec_api_param(),
    {
        match self {
            Sort::RecentDownloads => "recent_downloads",
            Sort::Downloads => "downloads",
            Sort::Updated => "updated_at",
            Sort::Newest => "inserted_at",
            Sort::Name => "name",
        }
    }

    pub open spec fn spec_label(self) -> Seq<char> {
        match self {
            Sort::RecentDownloads => "Recent dls"@,
            Sort::Downloads => "All dls"@,
            Sort::Updated => "Last updated"@,
            Sort::Newest => "Newest first"@,
            Sort::Name => "Name A→Z"@,
        }
    }

    pub fn label(self) -> (r: &'static str)
        ensures
            r@ == self.spec_label(),
    {
        match self {
            Sort::RecentDownloads => "Recent dls",
            Sort::Downloads => "All dls",
            Sort::Updated => "Last updated",
            Sort::Newest => "Newest first",
            Sort::Name => "Name A→Z",
        }
    }

    pub fn cycle(self) -> (r: Sort)
        ensures
            r == self.spec_cycle(),
    {
        match self {
            Sort::RecentDownloads => Sort::Downloads,
            Sort::Downloads => Sort::Updated,
            Sort::Updated => Sort::Newest,
            Sort::Newest => Sort::Name,
            Sort::Name => Sort::RecentDownloads,
        }
    }

    /// The sort a name stands for: each API parameter, or its short alias
    /// (`recent`, `all`, `updated`, `newest`).
    pub open spec fn spec_parse(s: Seq<char>) -> Option<Sort> {
        if s == "recent_downloads"@ || s == "recent"@ {
            Some(Sort::RecentDownloads)
        } else if s == "downloads"@ || s == "all"@ {
            Some(Sort::Downloads)
        } else if s == "updated_at"@ || s == "updated"@ {
            Some(Sort::Updated)
        } else if s == "inserted_at"@ || s == "newest"@ {
            Some(Sort::Newest)
        } else if s == "name"@ {
            Some(Sort::Name)
        } else {
            None
        }
    }

    /// Parse a sort name (exact, case-sensitive).
    pub fn parse_name(s: &str) -> (r: Result<Sort, String>)
        ensures
            match r {
                Ok(v) => Sort::spec_parse(s@) == Some(v),
                Err(e) => Sort::spec_parse(s@) is None && e@ == "unknown sort: '"@ + s@ + "'"@,
            },
    {
        let v = chars_of(s);
        if chars_eq(&v, &chars_of("recent_downloads")) || chars_eq(&v, &chars_of("recent")) {
            Ok(Sort::RecentDownloads)
        } else if chars_eq(&v, &chars_of("downloads")) || chars_eq(&v, &chars_of("all")) {
            Ok(Sort::Downloads)
        } else if chars_eq(&v, &chars_of("updated_at")) || chars_eq(&v, &chars_of("updated")) {
            Ok(Sort::Updated)
        } else if chars_eq(&v, &chars_of("inserted_at")) || chars_eq(&v, &chars_of("newest")) {
            Ok(Sort::Newest)
        } else if chars_eq(&v, &chars_of("name")) {
            Ok(Sort::Name)
        } else {
            let mut e = String::new();
            e.append("unknown sort: '");
            e.append(s);
            e.append("'");
            Err(e)
        }
    }
}

impl Default for Sort {
    fn default() -> (r: Sort)
        ensures
            r == Sort::RecentDownloads,
    {
        Sort::RecentDownloads
    }
}

impl std::str::FromStr for Sort {
    type Err = String;

    /// See `Sort::parse_name`.
    fn from_str(s: &str) -> (r: Result<Sort, String>)
        ensures
            match r {
                Ok(v) => Sort::spec_parse(s@) == Some(v),
                Err(e) => Sort::spec_parse(s@) is None && e@ == "unknown sort: '"@ + s@ + "'"@,
            },
    {
        Sort::parse_name(s)
    }
}

// ── View ─────────────────────────────────────────────────────────────────────

#[derive(Debug, Clone, Copy, PartialEq, Eq, Structural)]
pub enum View {
    List,
    Detail,
    Settings,
}

// ── SettingRow ───────────────────────────────────────────────────────────────

/// The navigable rows of the settings screen.
#[derive(Debug, Clone, Copy, PartialEq, Eq, Structural)]
pub enum SettingRow {
    GithubToken,
    KeepWeeks,
    Compress,
    ClearGhCache,
    ColorScheme,
    DefaultLanguage,
    LinkStyle,
}

impl SettingRow {
    pub open spec fn spec_all() -> Seq<SettingRow> {
        seq![
            SettingRow::GithubToken,
            SettingRow::ColorScheme,
            SettingRow::DefaultLanguage,
            SettingRow::LinkStyle,
            SettingRow::KeepWeeks,
            SettingRow::Compress,
            SettingRow::ClearGhCache,
        ]
    }

    /// The rows in screen order.
    pub fn all() -> (r: &'static [SettingRow])
        ensures
            r@ == SettingRow::spec_all(),
    {
        &[
            SettingRow::GithubToken,
            SettingRow::ColorScheme,
            SettingRow::DefaultLanguage,
            SettingRow::LinkStyle,
            SettingRow::KeepWeeks,
            SettingRow::Compress,
            SettingRow::ClearGhCache,
        ]
    }
}

// ── ColorScheme & Palette ────────────────────────────────────────────────────

#[derive(Debug, Clone, Copy, PartialEq, Eq, Structural)]
pub enum ColorScheme {
    Default,
    Dracula,
    Nord,
    Gruvbox,
}

/// The colours of one scheme.
#[derive(Debug, Clone, Copy, PartialEq, Eq, Structural)]
pub struct Palette {
    pub yellow: Color,
    pub green: Color,
    pub dim: Color,
    pub white: Color,
    pub bg_bar: Color,
    pub bg_sel: Color,
}

impl ColorScheme {
    pub open spec fn spec_cycle(self) -> ColorScheme {
        match self {
            ColorScheme::Default => ColorScheme::Dracula,
            ColorScheme::Dracula => ColorScheme::Nord,
            ColorScheme::Nord => ColorScheme::Gruvbox,
            ColorScheme::Gruvbox => ColorScheme::Default,
        }
    }

    pub open spec fn spec_cycle_back(self) -> ColorScheme {
        match self {
            ColorScheme::Default => ColorScheme::Gruvbox,
            ColorScheme::Gruvbox => ColorScheme::Nord,
            ColorScheme::Nord => ColorScheme::Dracula,
            ColorScheme::Dracula => ColorScheme::Default,
        }
    }

    pub open spec fn spec_palette(self) -> Palette {
        match self {
            ColorScheme::Default => Palette {
                yellow: Color::Rgb(255, 212, 59),
                green: Color::Rgb(80, 250, 123),
                dim: Color::Rgb(90, 88, 110),
                white: Color::White,
                bg_bar: Color::Rgb(16, 10, 26),
                bg_sel: Color::Rgb(38, 14, 52),
            },
            ColorScheme::Dracula => Palette {
                yellow: Color::Rgb(241, 250, 140),
                green: Color::Rgb(80, 250, 123),
                dim: Color::Rgb(98, 114, 164),
                white: Color::Rgb(248, 248, 242),
                bg_bar: Color::Rgb(25, 26, 33),
                bg_sel: Color::Rgb(68, 71, 90),
            },
            ColorScheme::Nord => Palette {
                yellow: Color::Rgb(235, 203, 139),
                green: Color::Rgb(163, 190, 140),
                dim: Color::Rgb(76, 86, 106),
                white: Color::Rgb(236, 239, 244),
                bg_bar: Color::Rgb(29, 33, 44),
                bg_sel: Color::Rgb(46, 52, 64),
            },
            ColorScheme::Gruvbox => Palette {
                yellow: Color::Rgb(250, 189, 47),
                green: Color::Rgb(184, 187, 38),
                dim: Color::Rgb(146, 131, 116),
                white: Color::Rgb(235, 219, 178),
                bg_bar: Color::Rgb(29, 32, 33),
                bg_sel: Color::Rgb(50, 48, 47),
            },
        }
    }

    pub open spec fn spec_label(self) -> Seq<char> {
        match self {
            ColorScheme::Default => "Default"@,
            ColorScheme::Dracula => "Dracula"@,
            ColorScheme::Nord => "Nord"@,
            ColorScheme::Gruvbox => "Gruvbox"@,
        }
    }

    pub fn label(self) -> (r: &'static str)
        ensures
            r@ == self.spec_label(),
    {
        match self {
            ColorScheme::Default => "Default",
            ColorScheme::Dracula => "Dracula",
            ColorScheme::Nord => "Nord",
            ColorScheme::Gruvbox => "Gruvbox",
        }
    }

    pub fn cycle(self) -> (r: ColorScheme)
        ensures
            r == self.spec_cycle(),
    {
        match self {
            ColorScheme::Default => ColorScheme::Dracula,
            ColorScheme::Dracula => ColorScheme::Nord,
            ColorScheme::Nord => ColorScheme::Gruvbox,
            ColorScheme::Gruvbox => ColorScheme::Default,
        }
    }

    pub fn cycle_back(self) -> (r: ColorScheme)
        ensures
            r == self.spec_cycle_back(),
    {
        match self {
            ColorScheme::Default => ColorScheme::Gruvbox,
            ColorScheme::Gruvbox => ColorScheme::Nord,
            ColorScheme::Nord => ColorScheme::Dracula,
            ColorScheme::Dracula => ColorScheme::Default,
        }
    }

    pub fn palette(self) -> (r: Palette)
        ensures
            r == self.spec_palette(),
    {
        match self {
            ColorScheme::Default => Palette {
                yellow: Color::Rgb(255, 212, 59),
                green: Color::Rgb(80, 250, 123),
                dim: Color::Rgb(90, 88, 110),
                white: Color::White,
                bg_bar: Color::Rgb(16, 10, 26),
                bg_sel: Color::Rgb(38, 14, 52),
            },
            ColorScheme::Dracula => Palette {
                yellow: Color::Rgb(241, 250, 140),
                green: Color::Rgb(80, 250, 123),
                dim: Color::Rgb(98, 114, 164),
                white: Color::Rgb(248, 248, 242),
                bg_bar: Color::Rgb(25, 26, 33),
                bg_sel: Color::Rgb(68, 71, 90),
            },
            ColorScheme::Nord => Palette {
                yellow: Color::Rgb(235, 203, 139),
                green: Color::Rgb(163, 190, 140),
                dim: Color::Rgb(76, 86, 106),
                white: Color::Rgb(236, 239, 244),
                bg_bar: Color::Rgb(29, 33, 44),
                bg_sel: Color::Rgb(46, 52, 64),
            },
            ColorScheme::Gruvbox => Palette {
                yellow: Color::Rgb(250, 189, 47),
                green: Color::Rgb(184, 187, 38),
                dim: Color::Rgb(146, 131, 116),
                white: Color::Rgb(235, 219, 178),
                bg_bar: Color::Rgb(29, 32, 33),
                bg_sel: Color::Rgb(50, 48, 47),
            },
        }
    }
}

impl Default for ColorScheme {
    fn default() -> (r: ColorScheme)
        ensures
            r == ColorScheme::Default,
    {
        ColorScheme::Default
    }
}

// ── LinkStyle ────────────────────────────────────────────────────────────────

/// How the selected link is highlighted in the detail view.
#[derive(Debug, Clone, Copy, PartialEq, Eq, Structural)]
pub enum LinkStyle {
    Cursor,
    Block,
}

impl LinkStyle {
    pub open spec fn spec_label(self) -> Seq<char> {
        match self {
            LinkStyle::Cursor => "Cursor ▶"@,
            LinkStyle::Block => "Block ■"@,
        }
    }

    pub fn label(self) -> (r: &'static str)
        ensures
            r@ == self.spec_label(),
    {
        match self {
            LinkStyle::Cursor => "Cursor ▶",
            LinkStyle::Block => "Block ■",
        }
    }

    /// The other style.
    pub open spec fn spec_cycle(self) -> LinkStyle {
        match self {
            LinkStyle::Cursor => LinkStyle::Block,
            LinkStyle::Block => LinkStyle::Cursor,
        }
    }

    /// The next style (there are two, so forward and backward agree).
    pub fn cycle(self) -> (r: LinkStyle)
        ensures
            r == self.spec_cycle(),
            r != self,
    {
        match self {
            LinkStyle::Cursor => LinkStyle::Block,
            LinkStyle::Block => LinkStyle::Cursor,
        }
    }

    /// The previous style.
    pub fn cycle_back(self) -> (r: LinkStyle)
        ensures
            r == self.spec_cycle(),
            r != self,
    {
        self.cycle()
    }
}

impl Default for LinkStyle {
    fn default() -> (r: LinkStyle)
        ensures
            r == LinkStyle::Cursor,
    {
        LinkStyle::Cursor
    }
}

// ── OutputFormat ─────────────────────────────────────────────────────────────

#[derive(Debug, Clone, Copy, PartialEq, Eq, Structural)]
pub enum OutputFormat {
    /// Full JSON snapshot.
    Json,
    /// Compact Markdown table.
    Compact,
    /// Detailed Markdown block for a single package.
    Detail,
}

impl OutputFormat {
    pub open spec fn spec_parse(s: Seq<char>) -> Option<OutputFormat> {
        if s == "json"@ {
            Some(OutputFormat::Json)
        } else if s == "compact"@ {
            Some(OutputFormat::Compact)
        } else if s == "detail"@ {
            Some(OutputFormat::Detail)
        } else {
            None
        }
    }

    /// Parse an output format name (exact, case-sensitive).
    pub fn parse_name(s: &str) -> (r: Result<OutputFormat, String>)
        ensures
            match r {
                Ok(v) => OutputFormat::spec_parse(s@) == Some(v),
                Err(e) => OutputFormat::spec_parse(s@) is None && e@
                    == "unknown output format: '"@ + s@ + "' (valid: json, compact, detail)"@,
            },
    {
        let v = chars_of(s);
        if chars_eq(&v, &chars_of("json")) {
            Ok(OutputFormat::Json)
        } else if chars_eq(&v, &chars_of("compact")) {
            Ok(OutputFormat::Compact)
        } else if chars_eq(&v, &chars_of("detail")) {
            Ok(OutputFormat::Detail)
        } else {
            let mut e = String::new();
            e.append("unknown output format: '");
            e.append(s);
            e.append("' (valid: json, compact, detail)");
            Err(e)
        }
    }
}

impl std::str::FromStr for OutputFormat {
    type Err = String;

    /// See `OutputFormat::parse_name`.
    fn from_str(s: &str) -> (r: Result<OutputFormat, String>)
        ensures
            match r {
                Ok(v) => OutputFormat::spec_parse(s@) == Some(v),
                Err(e) => OutputFormat::spec_parse(s@) is None && e@
                    == "unknown output format: '"@ + s@ + "' (valid: json, compact, detail)"@,
            },
    {
        OutputFormat::parse_name(s)
    }
}

// ── Laws ─────────────────────────────────────────────────────────────────────

/// Cycling a language forward then back (or back then forward) returns it.
pub proof fn lemma_language_cycle_inverse(l: Language)
    ensures
        l.spec_cycle().spec_cycle_back() == l,
        l.spec_cycle_back().spec_cycle() == l,
{
}

/// Four steps forward visit every language and return to the start.
pub proof fn lemma_language_cycle_period(l: Language)
    ensures
        l.spec_cycle().spec_cycle().spec_cycle().spec_cycle() == l,
        l.spec_cycle() != l,
        l.spec_cycle().spec_cycle() != l,
        l.spec_cycle().spec_cycle().spec_cycle() != l,
{
}

/// Five steps of the sort order return to the start, and no fewer do.
pub proof fn lemma_sort_cycle_period(s: Sort)
    ensures
        s.spec_cycle().spec_cycle().spec_cycle().spec_cycle().spec_cycle() == s,
        s.spec_cycle() != s,
        s.spec_cycle().spec_cycle() != s,
        s.spec_cycle().spec_cycle().spec_cycle() != s,
        s.spec_cycle().spec_cycle().spec_cycle().spec_cycle() != s,
{
}

/// Cycling a colour scheme forward then back (or back then forward) returns it,
/// and four steps return to the start.
pub proof fn lemma_color_scheme_cycle_inverse(c: ColorScheme)
    ensures
        c.spec_cycle().spec_cycle_back() == c,
        c.spec_cycle_back().spec_cycle() == c,
        c.spec_cycle().spec_cycle().spec_cycle().spec_cycle() == c,
{
}

/// Switching the link style twice returns it.
pub proof fn lemma_link_style_cycle_twice(l: LinkStyle)
    ensures
        l.spec_cycle().spec_cycle() == l,
{
}

/// Every sort's API parameter parses back to it.
pub proof fn lemma_sort_param_roundtrip(s: Sort)
    ensures
        Sort::spec_parse(s.spec_api_param()) == Some(s),
{
    let p = s.spec_api_param();
    reveal_strlit("recent_downloads");
    reveal_strlit("recent");
    reveal_strlit("downloads");
    reveal_strlit("all");
    reveal_strlit("updated_at");
    reveal_strlit("updated");
    reveal_strlit("inserted_at");
    reveal_strlit("newest");
    reveal_strlit("name");
    assert(p.len() > 0);
    match s {
        Sort::RecentDownloads => {
            assert(p != "recent"@);
        },
        Sort::Downloads => {
            assert(p != "recent_downloads"@);
            assert(p != "recent"@);
        },
        Sort::Updated => {
            assert(p != "downloads"@);
            assert(p != "all"@);
        },
        Sort::Newest => {
            assert(p != "updated_at"@);
            assert(p != "updated"@);
        },
        Sort::Name => {
            assert(p != "inserted_at"@);
            assert(p != "newest"@);
        },
    }
}

/// The language a package is inferred to be depends on which build tools it lists,
/// not on their order.
pub proof fn lemma_infer_language_order_free(a: Seq<Seq<char>>, b: Seq<Seq<char>>)
    requires
        forall|t: Seq<char>| a.contains(t) <==> b.contains(t),
    ensures
        spec_infer_language(a) == spec_infer_language(b),
{
}

} // verus!
