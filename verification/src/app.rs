//! The interactive browser's state and how keys and fetch results change it.
//!
//! The browser is a state machine: `on_key` and `on_msg` take the state and an
//! event to the next state, and queue the outside work the change calls for
//! (fetches, file writes, opening a URL) as `Effect`s. The terminal loop performs
//! the effects and feeds their results back as `Msg`s.

use vstd::prelude::*;
use vstd::view::View as _;
use crate::api::{clone_packages, models, GhResult, GithubStats, Package, PackageModel};
use crate::cache::{get_any, get_fresh_at, insert_at, pruned, CacheMap, CachedEntry};
use crate::favorites::{spec_toggle, toggle, Favorites};
use crate::listing::{ListingCache, ListingKey};
use crate::storage::StorageConfig;
use crate::text::{
    chars_of, is_whitespace, is_ws, opt_view, string_from_range, trail_ws, trim, trimmed,
};
use crate::types::{ColorScheme, Language, LinkStyle, SettingRow, Sort, View};

verus! {

// ── Events ───────────────────────────────────────────────────────────────────

/// What the detail view knows of the selected package's GitHub statistics.
#[derive(Debug, Clone, Copy, PartialEq, Eq, Structural)]
pub enum GhState {
    /// The package has no repository URL.
    NoRepo,
    /// Served from the disk cache (kept whole so its age is computed when shown).
    Cached(CachedEntry),
    /// A request is in flight.
    Loading,
    /// Just fetched.
    Live(GithubStats),
    /// GitHub's rate limit was hit.
    RateLimited,
    /// The token was refused.
    BadToken,
    /// Not a GitHub repository, or any other failure.
    Unavailable,
}

/// The result of a fetch, handed back to the state machine.
pub enum Msg {
    /// A listing: the fetch generation it was requested under, the packages, and
    /// whether a next page exists.
    Loaded(u64, Vec<Package>, bool),
    /// GitHub statistics for a repository URL.
    GhFetched(String, GhResult),
    /// A package's versions, newest first (an empty name when the fetch failed).
    DetailLoaded(String, Vec<String>),
    /// A listing fetch failed, with the error's message.
    Failed(String),
}

pub enum MsgModel {
    Loaded(u64, Seq<PackageModel>, bool),
    GhFetched(Seq<char>, GhResult),
    DetailLoaded(Seq<char>, Seq<Seq<char>>),
    Failed(Seq<char>),
}

impl vstd::view::View for Msg {
    type V = MsgModel;

    open spec fn view(&self) -> MsgModel {
        match self {
            Msg::Loaded(g, p, m) => MsgModel::Loaded(*g, models(p@), *m),
            Msg::GhFetched(u, r) => MsgModel::GhFetched(u@, *r),
            Msg::DetailLoaded(n, v) => MsgModel::DetailLoaded(n@, crate::types::views(v@)),
            Msg::Failed(e) => MsgModel::Failed(e@),
        }
    }
}

/// A key as the browser reads it.
#[derive(Debug, Clone, Copy, PartialEq, Eq, Structural)]
pub enum KeyCode {
    Char(char),
    Enter,
    Esc,
    Backspace,
    Tab,
    BackTab,
    Up,
    Down,
    Left,
    Right,
    PageUp,
    PageDown,
    Other,
}

/// A key press: the key and whether Control was held.
#[derive(Debug, Clone, Copy, PartialEq, Eq, Structural)]
pub struct KeyEvent {
    pub code: KeyCode,
    pub ctrl: bool,
}

/// Outside work a state change asks for, performed in order by the terminal loop.
pub enum Effect {
    /// Fetch a listing; answer with `Msg::Loaded(gen, ..)` or `Msg::Failed`.
    FetchListing { gen: u64, query: String, sort: String, language: Language, page: u32 },
    /// Fetch the starred packages by name, label them with their starred language,
    /// and answer with `Msg::Loaded(gen, .., false)`.
    FetchFavorites { gen: u64, favorites: Favorites },
    /// Fetch one package's versions; answer with `Msg::DetailLoaded`.
    FetchDetail { name: String },
    /// Fetch GitHub statistics; answer with `Msg::GhFetched`.
    FetchGithub { repo_url: String, token: Option<String> },
    /// Write the favourites file.
    SaveFavorites,
    /// Store (or clear) the GitHub token; when `reload`, read the stored and the
    /// effective token back and hand them to `token_reloaded`.
    StoreToken { token: Option<String>, reload: bool },
    /// Delete the GitHub statistics cache file and the cached documentation
    /// search indexes.
    ClearGhCache,
    /// Write the GitHub statistics cache to its file.
    SaveGhCache,
    /// Write the configuration to `meta.json`.
    PersistConfig(StorageConfig),
    /// Read the configuration and stored token and hand them to `open_settings`.
    OpenSettings,
    /// Open a URL in the system browser.
    OpenUrl(String),
}

pub enum EffectModel {
    FetchListing { gen: u64, query: Seq<char>, sort: Seq<char>, language: Language, page: u32 },
    FetchFavorites { gen: u64, favorites: Map<Seq<char>, Language> },
    FetchDetail { name: Seq<char> },
    FetchGithub { repo_url: Seq<char>, token: Option<Seq<char>> },
    SaveFavorites,
    StoreToken { token: Option<Seq<char>>, reload: bool },
    ClearGhCache,
    SaveGhCache,
    PersistConfig(StorageConfig),
    OpenSettings,
    OpenUrl(Seq<char>),
}

impl vstd::view::View for Effect {
    type V = EffectModel;

    open spec fn view(&self) -> EffectModel {
        match self {
            Effect::FetchListing { gen, query, sort, language, page } => EffectModel::FetchListing {
                gen: *gen,
                query: query@,
                sort: sort@,
                language: *language,
                page: *page,
            },
            Effect::FetchFavorites { gen, favorites } => EffectModel::FetchFavorites {
                gen: *gen,
                favorites: favorites@,
            },
            Effect::FetchDetail { name } => EffectModel::FetchDetail { name: name@ },
            Effect::FetchGithub { repo_url, token } => EffectModel::FetchGithub {
                repo_url: repo_url@,
                token: opt_view(*token),
            },
            Effect::SaveFavorites => EffectModel::SaveFavorites,
            Effect::StoreToken { token, reload } => EffectModel::StoreToken {
                token: opt_view(*token),
                reload: *reload,
            },
            Effect::ClearGhCache => EffectModel::ClearGhCache,
            Effect::SaveGhCache => EffectModel::SaveGhCache,
            Effect::PersistConfig(c) => EffectModel::PersistConfig(*c),
            Effect::OpenSettings => EffectModel::OpenSettings,
            Effect::OpenUrl(u) => EffectModel::OpenUrl(u@),
        }
    }
}

pub open spec fn effect_models(s: Seq<Effect>) -> Seq<EffectModel> {
    s.map_values(|e: Effect| e@)
}

// ── State ────────────────────────────────────────────────────────────────────

/// The browser's state.
pub struct App {
    pub view: View,
    pub language: Language,
    pub packages: Vec<Package>,
    /// Index of the highlighted package in the list.
    pub selected: Option<usize>,
    pub input: String,
    pub input_mode: bool,
    pub sort: Sort,
    pub loading: bool,
    pub gh: GhState,
    pub error: Option<String>,
    pub scroll: u16,
    /// Current browse page (1-indexed).
    pub page: u32,
    /// Whether the last listing was a full page (a next page likely exists).
    pub has_more: bool,
    /// In-memory mirror of the GitHub statistics cache file.
    pub cache: CacheMap,
    /// The GitHub token in effect (`None` = unauthenticated).
    pub token: Option<String>,
    /// Starred packages: name → language.
    pub favorites: Favorites,
    /// Whether the list shows only the starred packages.
    pub favorites_mode: bool,
    pub color_scheme: ColorScheme,
    pub link_style: LinkStyle,
    /// Index into `SettingRow::all()` of the settings cursor.
    pub settings_cursor: usize,
    /// Whether a new GitHub token is being typed.
    pub settings_editing: bool,
    pub settings_input: String,
    /// The configuration as the settings screen edits it.
    pub settings_config: StorageConfig,
    /// The stored token, for masked display.
    pub settings_token: Option<String>,
    /// The highlighted link of the detail view, among the present ones of
    /// [docs, hex, repository].
    pub link_cursor: Option<usize>,
    /// Listings of this session by (query, sort, language, page).
    pub listings: ListingCache,
    /// Whether the listing shown came from `listings`.
    pub from_cache: bool,
    pub detail_loading: bool,
    /// Generation of the latest listing request; results of older ones are dropped.
    pub fetch_gen: u64,
    /// Outside work queued for the terminal loop.
    pub effects: Vec<Effect>,
}

pub struct AppModel {
    pub view: View,
    pub language: Language,
    pub packages: Seq<PackageModel>,
    pub selected: Option<usize>,
    pub input: Seq<char>,
    pub input_mode: bool,
    pub sort: Sort,
    pub loading: bool,
    pub gh: GhState,
    pub error: Option<Seq<char>>,
    pub scroll: u16,
    pub page: u32,
    pub has_more: bool,
    pub cache: Map<Seq<char>, CachedEntry>,
    pub token: Option<Seq<char>>,
    pub favorites: Map<Seq<char>, Language>,
    pub favorites_mode: bool,
    pub color_scheme: ColorScheme,
    pub link_style: LinkStyle,
    pub settings_cursor: usize,
    pub settings_editing: bool,
    pub settings_input: Seq<char>,
    pub settings_config: StorageConfig,
    pub settings_token: Option<Seq<char>>,
    pub link_cursor: Option<usize>,
    pub listings: Map<ListingKey, (Seq<PackageModel>, bool)>,
    pub from_cache: bool,
    pub detail_loading: bool,
    pub fetch_gen: u64,
    pub effects: Seq<EffectModel>,
}

impl vstd::view::View for App {
    type V = AppModel;

    open spec fn view(&self) -> AppModel {
        AppModel {
            view: self.view,
            language: self.language,
            packages: models(self.packages@),
            selected: self.selected,
            input: self.input@,
            input_mode: self.input_mode,
            sort: self.sort,
            loading: self.loading,
            gh: self.gh,
            error: opt_view(self.error),
            scroll: self.scroll,
            page: self.page,
            has_more: self.has_more,
            cache: self.cache@,
            token: opt_view(self.token),
            favorites: self.favorites@,
            favorites_mode: self.favorites_mode,
            color_scheme: self.color_scheme,
            link_style: self.link_style,
            settings_cursor: self.settings_cursor,
            settings_editing: self.settings_editing,
            settings_input: self.settings_input@,
            settings_config: self.settings_config,
            settings_token: opt_view(self.settings_token),
            link_cursor: self.link_cursor,
            listings: self.listings@,
            from_cache: self.from_cache,
            detail_loading: self.detail_loading,
            fetch_gen: self.fetch_gen,
            effects: effect_models(self.effects@),
        }
    }
}

impl AppModel {
    /// The settings cursor designates a row.
    pub open spec fn wf(self) -> bool {
        self.settings_cursor < SettingRow::spec_all().len()
    }
}

// ── Text editing ─────────────────────────────────────────────────────────────

/// Number of trailing characters of `s` that are not whitespace.
pub open spec fn trail_word(s: Seq<char>) -> nat
    decreases s.len(),
{
    if s.len() > 0 && !is_ws(s.last()) {
        1 + trail_word(s.drop_last())
    } else {
        0
    }
}

/// `s` without its trailing whitespace and then its last word (Ctrl+W).
pub open spec fn spec_delete_word_back(s: Seq<char>) -> Seq<char> {
    let t = s.take(s.len() - trail_ws(s));
    t.take(t.len() - trail_word(t))
}

/// `s` without its last character (`String::pop`).
pub open spec fn spec_pop(s: Seq<char>) -> Seq<char> {
    if s.len() > 0 {
        s.drop_last()
    } else {
        s
    }
}

/// The length in bytes (UTF-8) of a string, as `String::len` gives it.
pub open spec fn byte_len(s: Seq<char>) -> usize {
    vstd::utf8::encode_utf8(s).len() as usize
}

proof fn lemma_trail_word_bound(s: Seq<char>)
    ensures
        trail_word(s) <= s.len(),
    decreases s.len(),
{
    if s.len() > 0 && !is_ws(s.last()) {
        lemma_trail_word_bound(s.drop_last());
    }
}

/// Remove the last word from `s`: trailing whitespace, then the non-whitespace
/// before it (what Ctrl+W and Ctrl+Backspace do).
pub fn delete_word_back(s: &mut String)
    ensures
        final(s)@ == spec_delete_word_back(old(s)@),
{
    let v = chars_of(s.as_str());
    let e = crate::text::skip_ws_back(&v, 0, v.len());
    assert(v@.subrange(0, v@.len() as int) =~= v@);
    let ghost t = v@.take(e as int);
    let mut j: usize = e;
    proof {
        lemma_trail_word_bound(t);
    }
    while j > 0 && !is_whitespace(v[j - 1])
        invariant
            j <= e <= v@.len(),
            t == v@.take(e as int),
            trail_word(t) == (e - j) + trail_word(v@.take(j as int)),
        decreases j,
    {
        assert(v@.take(j as int).drop_last() =~= v@.take(j - 1));
        j = j - 1;
    }
    assert(t.take(j as int) =~= v@.take(j as int));
    *s = string_from_range(&v, 0, j);
    assert(v@.subrange(0, j as int) =~= v@.take(j as int));
}

/// Remove the last character of `s`, if any.
fn pop_char(s: &mut String)
    ensures
        final(s)@ == spec_pop(old(s)@),
{
    let v = chars_of(s.as_str());
    if v.len() > 0 {
        *s = string_from_range(&v, 0, v.len() - 1);
        assert(v@.subrange(0, v@.len() - 1) =~= v@.drop_last());
    }
}

/// Append `c` to `s` when `s` is shorter than `limit` bytes.
fn push_limited(s: &mut String, c: char, limit: usize)
    ensures
        final(s)@ == if byte_len(old(s)@) < limit {
            old(s)@.push(c)
        } else {
            old(s)@
        },
{
    if s.as_str().len() < limit {
        crate::text::string_push(s, c);
    }
}

// ── Transitions ──────────────────────────────────────────────────────────────

/// `n + 1`, wrapping to 0 past the largest value.
pub open spec fn wrap_inc(n: u64) -> u64 {
    if n == u64::MAX {
        0
    } else {
        (n + 1) as u64
    }
}

/// `n + 1`, wrapping to 0 past the largest value.
pub open spec fn wrap_inc32(n: u32) -> u32 {
    if n == u32::MAX {
        0
    } else {
        (n + 1) as u32
    }
}

/// The listing the current query (trimmed), sort, language and page designate.
pub open spec fn listing_key(m: AppModel) -> ListingKey {
    (trim(m.input), m.sort.spec_api_param(), m.language, m.page)
}

/// `m` with `e` queued.
pub open spec fn queued(m: AppModel, e: EffectModel) -> AppModel {
    AppModel { effects: m.effects.push(e), ..m }
}

/// Show the current listing: from the session cache when it holds it (selecting
/// the first package), else by a fetch under a new generation.
pub open spec fn spec_load(m: AppModel) -> AppModel {
    let k = listing_key(m);
    if m.listings.contains_key(k) {
        AppModel {
            packages: m.listings[k].0,
            has_more: m.listings[k].1,
            from_cache: true,
            loading: false,
            error: None,
            selected: if m.listings[k].0.len() > 0 {
                Some(0usize)
            } else {
                m.selected
            },
            ..m
        }
    } else {
        queued(
            AppModel {
                fetch_gen: wrap_inc(m.fetch_gen),
                loading: true,
                from_cache: false,
                error: None,
                ..m
            },
            EffectModel::FetchListing {
                gen: wrap_inc(m.fetch_gen),
                query: k.0,
                sort: k.1,
                language: m.language,
                page: m.page,
            },
        )
    }
}

/// Back to the first page of the list, nothing selected.
pub open spec fn spec_reset_nav(m: AppModel) -> AppModel {
    AppModel {
        view: View::List,
        selected: None,
        scroll: 0,
        gh: GhState::NoRepo,
        page: 1,
        has_more: false,
        ..m
    }
}

/// Fetch the starred packages under a new generation.
pub open spec fn spec_load_favorites(m: AppModel) -> AppModel {
    queued(
        AppModel { loading: true, error: None, fetch_gen: wrap_inc(m.fetch_gen), ..m },
        EffectModel::FetchFavorites { gen: wrap_inc(m.fetch_gen), favorites: m.favorites },
    )
}

/// Switch to the next (`forward`) or previous language and show its listing.
pub open spec fn spec_switch_language(m: AppModel, forward: bool) -> AppModel {
    spec_load(
        spec_reset_nav(
            AppModel {
                language: if forward {
                    m.language.spec_cycle()
                } else {
                    m.language.spec_cycle_back()
                },
                favorites_mode: false,
                ..m
            },
        ),
    )
}

/// Next page, when one exists and no search is active.
pub open spec fn spec_next_page(m: AppModel) -> AppModel {
    if m.has_more && trim(m.input).len() == 0 {
        spec_load(AppModel { page: wrap_inc32(m.page), selected: None, scroll: 0, ..m })
    } else {
        m
    }
}

/// Previous page, when not on the first and no search is active.
pub open spec fn spec_prev_page(m: AppModel) -> AppModel {
    if m.page > 1 && trim(m.input).len() == 0 {
        spec_load(AppModel { page: (m.page - 1) as u32, selected: None, scroll: 0, ..m })
    } else {
        m
    }
}

/// Move the selection by `delta`, staying within the list.
pub open spec fn spec_nav(m: AppModel, delta: int) -> AppModel {
    if m.packages.len() == 0 {
        m
    } else {
        let cur: int = match m.selected {
            Some(i) => i as int,
            None => 0,
        };
        let t = cur + delta;
        let nxt = if t < 0 {
            0
        } else if t > m.packages.len() - 1 {
            m.packages.len() - 1
        } else {
            t
        };
        if nxt != cur {
            AppModel { selected: Some(nxt as usize), ..m }
        } else {
            m
        }
    }
}

/// The highlighted package.
pub open spec fn selected_pkg(m: AppModel) -> Option<PackageModel> {
    match m.selected {
        Some(i) => if i < m.packages.len() {
            Some(m.packages[i as int])
        } else {
            None
        },
        None => None,
    }
}

/// Show the highlighted package's GitHub statistics: from the cache when fresh at
/// `now`; else the cached ones, if any, while a fetch is queued.
pub open spec fn spec_ensure_gh(m: AppModel, now: u64) -> AppModel {
    match selected_pkg(m) {
        None => AppModel { gh: GhState::NoRepo, ..m },
        Some(p) => match p.repo_url {
            None => AppModel { gh: GhState::NoRepo, ..m },
            Some(url) => if m.cache.contains_key(url) && m.cache[url].spec_fresh_at(now) {
                AppModel { gh: GhState::Cached(m.cache[url]), ..m }
            } else {
                queued(
                    AppModel {
                        gh: if m.cache.contains_key(url) {
                            GhState::Cached(m.cache[url])
                        } else {
                            GhState::Loading
                        },
                        ..m
                    },
                    EffectModel::FetchGithub { repo_url: url, token: m.token },
                )
            },
        },
    }
}

/// Fetch the highlighted package's versions unless it has them.
pub open spec fn spec_ensure_detail(m: AppModel) -> AppModel {
    match selected_pkg(m) {
        None => m,
        Some(p) => if p.versions.len() > 0 {
            m
        } else {
            queued(AppModel { detail_loading: true, ..m }, EffectModel::FetchDetail { name: p.name })
        },
    }
}

/// Whether a package is not named `name`, as a predicate value.
pub open spec fn other_name(name: Seq<char>) -> spec_fn(PackageModel) -> bool {
    |p: PackageModel| p.name != name
}

/// The packages not named `name`, in order.
pub open spec fn without_name(s: Seq<PackageModel>, name: Seq<char>) -> Seq<PackageModel> {
    s.filter(other_name(name))
}

/// Star or unstar the highlighted package (saving the favourites); in the
/// favourites view an unstarred package leaves the list, and an emptied list
/// returns to browsing.
pub open spec fn spec_toggle_star(m: AppModel) -> AppModel {
    match selected_pkg(m) {
        None => m,
        Some(p) => {
            let favs = spec_toggle(m.favorites, p.name, p.language);
            let m1 = queued(AppModel { favorites: favs, ..m }, EffectModel::SaveFavorites);
            if m1.favorites_mode && !favs.contains_key(p.name) {
                let rest = without_name(m.packages, p.name);
                if rest.len() == 0 {
                    spec_load(AppModel { packages: rest, favorites_mode: false, ..m1 })
                } else {
                    AppModel {
                        packages: rest,
                        selected: match m.selected {
                            Some(i) => Some(
                                if i < rest.len() - 1 {
                                    i
                                } else {
                                    (rest.len() - 1) as usize
                                },
                            ),
                            None => None,
                        },
                        ..m1
                    }
                }
            } else {
                m1
            }
        },
    }
}

/// Enter the favourites view (when something is starred) or leave it.
pub open spec fn spec_toggle_favorites_mode(m: AppModel) -> AppModel {
    if m.favorites_mode {
        spec_load(spec_reset_nav(AppModel { favorites_mode: false, ..m }))
    } else if m.favorites == Map::<Seq<char>, Language>::empty() {
        m
    } else {
        spec_load_favorites(
            AppModel { favorites_mode: true, selected: None, scroll: 0, view: View::List, ..m },
        )
    }
}

/// A key while the search query is typed.
pub open spec fn spec_key_input(m: AppModel, k: KeyEvent) -> AppModel {
    if k.code == KeyCode::Esc {
        AppModel { input_mode: false, ..m }
    } else if k.code == KeyCode::Enter {
        spec_load(AppModel { input_mode: false, page: 1, ..m })
    } else if (k.code == KeyCode::Backspace || k.code == KeyCode::Char('w')) && k.ctrl {
        AppModel { input: spec_delete_word_back(m.input), ..m }
    } else if k.code == KeyCode::Backspace {
        AppModel { input: spec_pop(m.input), ..m }
    } else {
        match k.code {
            KeyCode::Char(c) => if byte_len(m.input) < 200 {
                AppModel { input: m.input.push(c), ..m }
            } else {
                m
            },
            _ => m,
        }
    }
}


// ── Settings screen ──────────────────────────────────────────────────────────

/// The snapshot retention presets, in weeks, that ← and → step through.
pub open spec fn keep_weeks_presets() -> Seq<u32> {
    seq![1u32, 2, 4, 8, 12, 24, 52]
}

/// Index of the first `w` in `s` at or after `i`.
pub open spec fn position(s: Seq<u32>, w: u32, i: int) -> Option<int>
    decreases s.len() - i,
{
    if i < 0 || i >= s.len() {
        None
    } else if s[i] == w {
        Some(i)
    } else {
        position(s, w, i + 1)
    }
}

/// Position of `w` among the presets; the 12-week slot when it is none of them.
pub open spec fn preset_pos(w: u32) -> int {
    match position(keep_weeks_presets(), w, 0) {
        Some(i) => i,
        None => 4,
    }
}

/// The preset before (`left`) or after the one `w` is at, stopping at the ends.
pub open spec fn step_preset(w: u32, left: bool) -> u32 {
    let cur = preset_pos(w);
    let next = if left {
        if cur > 0 {
            cur - 1
        } else {
            0
        }
    } else {
        if cur < 6 {
            cur + 1
        } else {
            6
        }
    };
    keep_weeks_presets()[next]
}

/// `m` with its edited configuration queued for writing.
pub open spec fn persisted(m: AppModel) -> AppModel {
    queued(m, EffectModel::PersistConfig(m.settings_config))
}

/// The row under the settings cursor.
pub open spec fn cursor_row(m: AppModel) -> SettingRow {
    SettingRow::spec_all()[m.settings_cursor as int]
}

/// A key while a new GitHub token is typed.
pub open spec fn spec_key_token_input(m: AppModel, k: KeyEvent) -> AppModel {
    if k.code == KeyCode::Esc {
        AppModel { settings_editing: false, settings_input: Seq::empty(), ..m }
    } else if k.code == KeyCode::Enter {
        queued(
            AppModel { settings_editing: false, settings_input: Seq::empty(), ..m },
            EffectModel::StoreToken {
                token: if trim(m.settings_input).len() == 0 {
                    None
                } else {
                    Some(trim(m.settings_input))
                },
                reload: true,
            },
        )
    } else if (k.code == KeyCode::Backspace || k.code == KeyCode::Char('w')) && k.ctrl {
        AppModel { settings_input: spec_delete_word_back(m.settings_input), ..m }
    } else if k.code == KeyCode::Backspace {
        AppModel { settings_input: spec_pop(m.settings_input), ..m }
    } else {
        match k.code {
            KeyCode::Char(c) => if byte_len(m.settings_input) < 256 {
                AppModel { settings_input: m.settings_input.push(c), ..m }
            } else {
                m
            },
            _ => m,
        }
    }
}

/// Enter on the settings screen: edit the token, flip compression, or clear the
/// GitHub cache, by the row under the cursor.
pub open spec fn spec_settings_enter(m: AppModel) -> AppModel {
    match cursor_row(m) {
        SettingRow::GithubToken => AppModel {
            settings_input: match m.settings_token {
                Some(t) => t,
                None => Seq::empty(),
            },
            settings_editing: true,
            ..m
        },
        SettingRow::Compress => persisted(
            AppModel {
                settings_config: StorageConfig {
                    compress: !m.settings_config.compress,
                    ..m.settings_config
                },
                ..m
            },
        ),
        SettingRow::ClearGhCache => queued(AppModel { cache: Map::empty(), ..m }, EffectModel::ClearGhCache),
        _ => m,
    }
}

/// Step the retention preset.
pub open spec fn spec_adjust_keep_weeks(m: AppModel, left: bool) -> AppModel {
    persisted(
        AppModel {
            settings_config: StorageConfig {
                keep_weeks: step_preset(m.settings_config.keep_weeks, left),
                ..m.settings_config
            },
            ..m
        },
    )
}

/// Switch the link style (there are two).
pub open spec fn spec_adjust_link_style(m: AppModel) -> AppModel {
    let ls = m.settings_config.link_style.spec_cycle();
    persisted(
        AppModel {
            settings_config: StorageConfig { link_style: ls, ..m.settings_config },
            link_style: ls,
            ..m
        },
    )
}

/// Step the colour scheme back (`left`) or forward.
pub open spec fn spec_adjust_color_scheme(m: AppModel, left: bool) -> AppModel {
    let cs = if left {
        m.settings_config.color_scheme.spec_cycle_back()
    } else {
        m.settings_config.color_scheme.spec_cycle()
    };
    persisted(
        AppModel {
            settings_config: StorageConfig { color_scheme: cs, ..m.settings_config },
            color_scheme: cs,
            ..m
        },
    )
}

/// Step the default (startup) language back (`left`) or forward.
pub open spec fn spec_adjust_default_language(m: AppModel, left: bool) -> AppModel {
    let l = if left {
        m.settings_config.default_language.spec_cycle_back()
    } else {
        m.settings_config.default_language.spec_cycle()
    };
    persisted(AppModel { settings_config: StorageConfig { default_language: l, ..m.settings_config }, ..m })
}

/// ← (`left`) or → on the settings screen: step the retention preset, the link
/// style, the colour scheme or the default language, by the row under the cursor.
pub open spec fn spec_settings_adjust(m: AppModel, left: bool) -> AppModel {
    let row = cursor_row(m);
    if row == SettingRow::KeepWeeks {
        spec_adjust_keep_weeks(m, left)
    } else if row == SettingRow::LinkStyle {
        spec_adjust_link_style(m)
    } else if row == SettingRow::ColorScheme {
        spec_adjust_color_scheme(m, left)
    } else if row == SettingRow::DefaultLanguage {
        spec_adjust_default_language(m, left)
    } else {
        m
    }
}

/// A key on the settings screen; `true` asks to quit.
pub open spec fn spec_key_settings(m: AppModel, k: KeyEvent) -> (AppModel, bool) {
    let lr = k.code == KeyCode::Left || k.code == KeyCode::Right;
    let left = k.code == KeyCode::Left;
    if m.settings_editing {
        (spec_key_token_input(m, k), false)
    } else if k.code == KeyCode::Char('q') || k.code == KeyCode::Esc {
        (AppModel { view: View::List, ..m }, false)
    } else if k.code == KeyCode::Char('c') && k.ctrl {
        (m, true)
    } else if k.code == KeyCode::Down || k.code == KeyCode::Char('j') {
        (
            AppModel {
                settings_cursor: if m.settings_cursor + 1 < SettingRow::spec_all().len() {
                    (m.settings_cursor + 1) as usize
                } else {
                    (SettingRow::spec_all().len() - 1) as usize
                },
                ..m
            },
            false,
        )
    } else if k.code == KeyCode::Up || k.code == KeyCode::Char('k') {
        (
            AppModel {
                settings_cursor: if m.settings_cursor > 0 {
                    (m.settings_cursor - 1) as usize
                } else {
                    0
                },
                ..m
            },
            false,
        )
    } else if k.code == KeyCode::Enter {
        (spec_settings_enter(m), false)
    } else if k.code == KeyCode::Char('d') && cursor_row(m) == SettingRow::GithubToken {
        (
            queued(
                AppModel { settings_token: None, token: None, ..m },
                EffectModel::StoreToken { token: None, reload: false },
            ),
            false,
        )
    } else if lr {
        (spec_settings_adjust(m, left), false)
    } else {
        (m, false)
    }
}

// ── List and detail views ────────────────────────────────────────────────────

/// Tab on the list: the next sort order, from the first page.
pub open spec fn spec_next_sort(m: AppModel) -> AppModel {
    spec_load(AppModel { sort: m.sort.spec_cycle(), page: 1, ..m })
}

/// Enter on the list: open the highlighted package's detail view and fetch what it
/// lacks (nothing happens on an empty list).
pub open spec fn spec_open_detail(m: AppModel, now: u64) -> AppModel {
    if m.packages.len() > 0 {
        spec_ensure_detail(
            spec_ensure_gh(AppModel { view: View::Detail, scroll: 0, link_cursor: None, ..m }, now),
        )
    } else {
        m
    }
}

/// `r` on the list: unless a fetch is running, forget the session's listings and
/// fetch the current one (or the favourites) again.
pub open spec fn spec_reload(m: AppModel) -> AppModel {
    if !m.loading {
        let m1 = AppModel { listings: Map::empty(), from_cache: false, ..m };
        if m.favorites_mode {
            spec_load_favorites(m1)
        } else {
            spec_load(m1)
        }
    } else {
        m
    }
}

/// A key on the list; `true` asks to quit.
pub open spec fn spec_key_list(m: AppModel, k: KeyEvent, now: u64) -> (AppModel, bool) {
    let c = k.code;
    if c == KeyCode::Char('q') {
        (m, true)
    } else if c == KeyCode::Char('c') && k.ctrl {
        (m, true)
    } else if c == KeyCode::Char('/') {
        (AppModel { input_mode: true, ..m }, false)
    } else if c == KeyCode::Char('?') {
        (queued(m, EffectModel::OpenSettings), false)
    } else if c == KeyCode::Tab {
        (spec_next_sort(m), false)
    } else if c == KeyCode::Char(']') {
        (spec_next_page(m), false)
    } else if c == KeyCode::Char('[') {
        (spec_prev_page(m), false)
    } else if c == KeyCode::Char('l') {
        (spec_switch_language(m, true), false)
    } else if c == KeyCode::Char('L') {
        (spec_switch_language(m, false), false)
    } else if c == KeyCode::Char('s') {
        (spec_toggle_star(m), false)
    } else if c == KeyCode::Char('f') {
        (spec_toggle_favorites_mode(m), false)
    } else if c == KeyCode::Down || c == KeyCode::Char('j') {
        (spec_nav(m, 1), false)
    } else if c == KeyCode::Up || c == KeyCode::Char('k') {
        (spec_nav(m, -1), false)
    } else if c == KeyCode::PageDown {
        (spec_nav(m, 10), false)
    } else if c == KeyCode::PageUp {
        (spec_nav(m, -10), false)
    } else if c == KeyCode::Enter {
        (spec_open_detail(m, now), false)
    } else if c == KeyCode::Char('r') {
        (spec_reload(m), false)
    } else {
        (m, false)
    }
}

/// The links of a package that are present, in the order docs, hex, repository.
pub open spec fn present_links(p: PackageModel) -> Seq<Seq<char>> {
    let a: Seq<Seq<char>> = match p.docs_url {
        Some(u) => seq![u],
        None => Seq::empty(),
    };
    let b: Seq<Seq<char>> = match p.hex_url {
        Some(u) => seq![u],
        None => Seq::empty(),
    };
    let c: Seq<Seq<char>> = match p.repo_url {
        Some(u) => seq![u],
        None => Seq::empty(),
    };
    a + b + c
}

/// How many links the highlighted package has.
pub open spec fn link_count(m: AppModel) -> nat {
    match selected_pkg(m) {
        Some(p) => present_links(p).len(),
        None => 0,
    }
}

pub open spec fn sat_add16(a: u16, b: u16) -> u16 {
    if a + b > u16::MAX {
        u16::MAX
    } else {
        (a + b) as u16
    }
}

pub open spec fn sat_sub16(a: u16, b: u16) -> u16 {
    if a < b {
        0
    } else {
        (a - b) as u16
    }
}

/// The highlighted package with its cached statistics and its versions forgotten.
pub open spec fn spec_forget_selected(m: AppModel) -> AppModel {
    let m1 = match selected_pkg(m) {
        Some(p) => match p.repo_url {
            Some(u) => AppModel { cache: m.cache.remove(u), ..m },
            None => m,
        },
        None => m,
    };
    match m.selected {
        Some(i) => if i < m.packages.len() {
            AppModel {
                packages: m1.packages.update(
                    i as int,
                    PackageModel { versions: Seq::empty(), ..m1.packages[i as int] },
                ),
                ..m1
            }
        } else {
            m1
        },
        None => m1,
    }
}

/// `r` on the detail view: forget the cached statistics and the versions of the
/// highlighted package and fetch both again.
pub open spec fn spec_refresh_detail(m: AppModel, now: u64) -> AppModel {
    spec_ensure_detail(
        spec_ensure_gh(AppModel { gh: GhState::Loading, ..spec_forget_selected(m) }, now),
    )
}

/// Tab on the detail view: highlight the next link, wrapping around.
pub open spec fn spec_next_link(m: AppModel) -> AppModel {
    let n = link_count(m);
    if n > 0 {
        AppModel {
            link_cursor: Some(
                match m.link_cursor {
                    None => 0usize,
                    Some(i) => ((i + 1) % (n as int)) as usize,
                },
            ),
            ..m
        }
    } else {
        m
    }
}

/// Shift+Tab on the detail view: highlight the previous link, wrapping around.
pub open spec fn spec_prev_link(m: AppModel) -> AppModel {
    let n = link_count(m);
    if n > 0 {
        AppModel {
            link_cursor: Some(
                match m.link_cursor {
                    Some(i) => if i > 0 {
                        (i - 1) as usize
                    } else {
                        (n - 1) as usize
                    },
                    None => (n - 1) as usize,
                },
            ),
            ..m
        }
    } else {
        m
    }
}

/// Enter on the detail view: open the highlighted link.
pub open spec fn spec_open_link(m: AppModel) -> AppModel {
    match (m.link_cursor, selected_pkg(m)) {
        (Some(idx), Some(p)) => if idx < present_links(p).len() {
            queued(m, EffectModel::OpenUrl(present_links(p)[idx as int]))
        } else {
            m
        },
        _ => m,
    }
}

/// A key on the detail view; `true` asks to quit.
pub open spec fn spec_key_detail(m: AppModel, k: KeyEvent, now: u64) -> (AppModel, bool) {
    let c = k.code;
    if c == KeyCode::Char('q') || c == KeyCode::Esc || c == KeyCode::Backspace {
        (AppModel { view: View::List, link_cursor: None, ..m }, false)
    } else if c == KeyCode::Char('c') && k.ctrl {
        (m, true)
    } else if c == KeyCode::Down || c == KeyCode::Char('j') {
        (AppModel { scroll: sat_add16(m.scroll, 1), ..m }, false)
    } else if c == KeyCode::Up || c == KeyCode::Char('k') {
        (AppModel { scroll: sat_sub16(m.scroll, 1), ..m }, false)
    } else if c == KeyCode::PageDown {
        (AppModel { scroll: sat_add16(m.scroll, 10), ..m }, false)
    } else if c == KeyCode::PageUp {
        (AppModel { scroll: sat_sub16(m.scroll, 10), ..m }, false)
    } else if c == KeyCode::Tab {
        (spec_next_link(m), false)
    } else if c == KeyCode::BackTab {
        (spec_prev_link(m), false)
    } else if c == KeyCode::Enter {
        (spec_open_link(m), false)
    } else if c == KeyCode::Char('r') {
        (spec_refresh_detail(m, now), false)
    } else {
        (m, false)
    }
}

/// A key press at time `now`; `true` asks to quit.
pub open spec fn spec_on_key(m: AppModel, k: KeyEvent, now: u64) -> (AppModel, bool) {
    if m.input_mode {
        (spec_key_input(m, k), false)
    } else {
        match m.view {
            View::List => spec_key_list(m, k, now),
            View::Detail => spec_key_detail(m, k, now),
            View::Settings => spec_key_settings(m, k),
        }
    }
}

// ── Fetch results ────────────────────────────────────────────────────────────

/// Index of the first package named `name` at or after `i`.
pub open spec fn first_named(s: Seq<PackageModel>, name: Seq<char>, i: int) -> Option<int>
    decreases s.len() - i,
{
    if i < 0 || i >= s.len() {
        None
    } else if s[i].name == name {
        Some(i)
    } else {
        first_named(s, name, i + 1)
    }
}

/// A listing arrives: dropped unless it answers the latest request; otherwise
/// shown (selecting its first package) and kept for the session.
pub open spec fn spec_on_loaded(m: AppModel, gen: u64, pkgs: Seq<PackageModel>, more: bool) -> AppModel {
    if gen != m.fetch_gen {
        m
    } else {
        AppModel {
            loading: false,
            from_cache: false,
            has_more: more,
            packages: pkgs,
            selected: if pkgs.len() > 0 {
                Some(0usize)
            } else {
                m.selected
            },
            listings: m.listings.insert(listing_key(m), (pkgs, more)),
            ..m
        }
    }
}

/// A package's versions arrive: the first package of that name gets them.
pub open spec fn spec_on_detail(m: AppModel, name: Seq<char>, versions: Seq<Seq<char>>) -> AppModel {
    AppModel {
        detail_loading: false,
        packages: match first_named(m.packages, name, 0) {
            Some(i) => m.packages.update(i, PackageModel { versions, ..m.packages[i] }),
            None => m.packages,
        },
        ..m
    }
}

/// GitHub statistics arrive at time `now`: fetched ones are cached and shown.
pub open spec fn spec_on_gh(m: AppModel, url: Seq<char>, r: GhResult, now: u64) -> AppModel {
    match r {
        GhResult::Fetched(stats) => queued(
            AppModel {
                cache: pruned(m.cache.insert(url, CachedEntry::spec_from_stats(stats, now)), now),
                gh: GhState::Live(stats),
                ..m
            },
            EffectModel::SaveGhCache,
        ),
        GhResult::RateLimited => AppModel { gh: GhState::RateLimited, ..m },
        GhResult::BadToken => AppModel { gh: GhState::BadToken, ..m },
        GhResult::Unavailable => AppModel { gh: GhState::Unavailable, ..m },
    }
}

/// A fetch result arriving at time `now`.
pub open spec fn spec_on_msg(m: AppModel, msg: MsgModel, now: u64) -> AppModel {
    match msg {
        MsgModel::Loaded(gen, pkgs, more) => spec_on_loaded(m, gen, pkgs, more),
        MsgModel::DetailLoaded(name, versions) => spec_on_detail(m, name, versions),
        MsgModel::GhFetched(url, r) => spec_on_gh(m, url, r, now),
        MsgModel::Failed(e) => AppModel { loading: false, error: Some(e), ..m },
    }
}

impl App {
    /// A fresh browser on `language`, with the GitHub cache, token, favourites and
    /// configuration read at start-up.
    pub fn new(
        language: Language,
        cache: CacheMap,
        token: Option<String>,
        favorites: Favorites,
        config: StorageConfig,
    ) -> (r: App)
        ensures
            r@ == (AppModel {
                view: View::List,
                language,
                packages: Seq::empty(),
                selected: None,
                input: Seq::empty(),
                input_mode: false,
                sort: Sort::RecentDownloads,
                loading: false,
                gh: GhState::NoRepo,
                error: None,
                scroll: 0,
                page: 1,
                has_more: false,
                cache: cache@,
                token: opt_view(token),
                favorites: favorites@,
                favorites_mode: false,
                color_scheme: config.color_scheme,
                link_style: config.link_style,
                settings_cursor: 0,
                settings_editing: false,
                settings_input: Seq::empty(),
                settings_config: StorageConfig::spec_default(),
                settings_token: None,
                link_cursor: None,
                listings: Map::empty(),
                from_cache: false,
                detail_loading: false,
                fetch_gen: 0,
                effects: Seq::empty(),
            }),
            r@.wf(),
    {
        let r = App {
            view: View::List,
            language,
            packages: Vec::new(),
            selected: None,
            input: String::new(),
            input_mode: false,
            sort: Sort::RecentDownloads,
            loading: false,
            gh: GhState::NoRepo,
            error: None,
            scroll: 0,
            page: 1,
            has_more: false,
            cache,
            token,
            favorites,
            favorites_mode: false,
            color_scheme: config.color_scheme,
            link_style: config.link_style,
            settings_cursor: 0,
            settings_editing: false,
            settings_input: String::new(),
            settings_config: StorageConfig::default(),
            settings_token: None,
            link_cursor: None,
            listings: ListingCache::new(),
            from_cache: false,
            detail_loading: false,
            fetch_gen: 0,
            effects: Vec::new(),
        };
        assert(r@.packages =~= Seq::<PackageModel>::empty());
        assert(r@.effects =~= Seq::<EffectModel>::empty());
        r
    }

    /// Queue `e`.
    fn queue(&mut self, e: Effect)
        ensures
            final(self)@ == queued(old(self)@, e@),
    {
        let ghost before = self.effects@;
        self.effects.push(e);
        assert(effect_models(self.effects@) =~= effect_models(before).push(e@));
    }

    /// Hand the queued effects over, oldest first, leaving none queued.
    pub fn take_effects(&mut self) -> (r: Vec<Effect>)
        ensures
            effect_models(r@) == old(self)@.effects,
            final(self)@ == (AppModel { effects: Seq::empty(), ..old(self)@ }),
    {
        let mut r: Vec<Effect> = Vec::new();
        std::mem::swap(&mut r, &mut self.effects);
        assert(effect_models(self.effects@) =~= Seq::<EffectModel>::empty());
        r
    }

    /// Show the listing for the current query, sort, language and page.
    pub fn load(&mut self)
        ensures
            final(self)@ == spec_load(old(self)@),
    {
        let q = trimmed(self.input.as_str());
        let s = self.sort.api_param();
        match self.listings.get(q.as_str(), s, self.language, self.page) {
            Some((pkgs, more)) => {
                let nonempty = pkgs.len() > 0;
                self.packages = pkgs;
                self.has_more = more;
                self.from_cache = true;
                self.loading = false;
                self.error = None;
                if nonempty {
                    self.selected = Some(0);
                }
            },
            None => {
                self.fetch_gen = if self.fetch_gen == u64::MAX {
                    0
                } else {
                    self.fetch_gen + 1
                };
                self.loading = true;
                self.from_cache = false;
                self.error = None;
                let e = Effect::FetchListing {
                    gen: self.fetch_gen,
                    query: q,
                    sort: s.to_owned(),
                    language: self.language,
                    page: self.page,
                };
                self.queue(e);
            },
        }
    }

    fn reset_nav(&mut self)
        ensures
            final(self)@ == spec_reset_nav(old(self)@),
    {
        self.view = View::List;
        self.selected = None;
        self.scroll = 0;
        self.gh = GhState::NoRepo;
        self.page = 1;
        self.has_more = false;
    }

    fn load_favorites(&mut self)
        ensures
            final(self)@ == spec_load_favorites(old(self)@),
    {
        self.loading = true;
        self.error = None;
        self.fetch_gen = if self.fetch_gen == u64::MAX {
            0
        } else {
            self.fetch_gen + 1
        };
        let e = Effect::FetchFavorites { gen: self.fetch_gen, favorites: self.favorites.duplicate() };
        self.queue(e);
    }

    /// Next language tab.
    pub fn switch_language(&mut self)
        ensures
            final(self)@ == spec_switch_language(old(self)@, true),
    {
        self.language = self.language.cycle();
        self.favorites_mode = false;
        self.reset_nav();
        self.load();
    }

    /// Previous language tab.
    pub fn switch_language_back(&mut self)
        ensures
            final(self)@ == spec_switch_language(old(self)@, false),
    {
        self.language = self.language.cycle_back();
        self.favorites_mode = false;
        self.reset_nav();
        self.load();
    }

    fn query_is_blank(&self) -> (r: bool)
        ensures
            r == (trim(self.input@).len() == 0),
    {
        let t = trimmed(self.input.as_str());
        t.as_str().unicode_len() == 0
    }

    /// Next page, when one exists and no search is active.
    pub fn next_page(&mut self)
        ensures
            final(self)@ == spec_next_page(old(self)@),
    {
        if self.has_more && self.query_is_blank() {
            self.page = if self.page == u32::MAX {
                0
            } else {
                self.page + 1
            };
            self.selected = None;
            self.scroll = 0;
            self.load();
        }
    }

    /// Previous page, when not on the first and no search is active.
    pub fn prev_page(&mut self)
        ensures
            final(self)@ == spec_prev_page(old(self)@),
    {
        if self.page > 1 && self.query_is_blank() {
            self.page = self.page - 1;
            self.selected = None;
            self.scroll = 0;
            self.load();
        }
    }

    #[verifier::rlimit(40)]
    fn nav(&mut self, delta: i32)
        ensures
            final(self)@ == spec_nav(old(self)@, delta as int),
    {
        if self.packages.len() == 0 {
            return;
        }
        let n: i128 = self.packages.len() as i128;
        let cur: i128 = match self.selected {
            Some(i) => i as i128,
            None => 0,
        };
        let t: i128 = cur + delta as i128;
        let nxt: i128 = if t < 0 {
            0
        } else if t > n - 1 {
            n - 1
        } else {
            t
        };
        if nxt != cur {
            self.selected = Some(nxt as usize);
        }
    }

    /// The highlighted package.
    pub fn selected(&self) -> (r: Option<&Package>)
        ensures
            match r {
                Some(p) => selected_pkg(self@) == Some(p@),
                None => selected_pkg(self@) is None,
            },
    {
        match self.selected {
            Some(i) => if i < self.packages.len() {
                Some(&self.packages[i])
            } else {
                None
            },
            None => None,
        }
    }

    /// Cached statistics for the highlighted package (the list preview; no fetch).
    pub fn preview_gh(&self) -> (r: Option<&CachedEntry>)
        ensures
            match r {
                Some(e) => selected_pkg(self@) matches Some(p) && p.repo_url matches Some(u)
                    && self@.cache.contains_key(u) && *e == self@.cache[u],
                None => !(selected_pkg(self@) matches Some(p) && p.repo_url matches Some(u)
                    && self@.cache.contains_key(u)),
            },
    {
        match self.selected() {
            Some(p) => match &p.repo_url {
                Some(u) => get_any(&self.cache, u.as_str()),
                None => None,
            },
            None => None,
        }
    }

    /// The repository URL of the highlighted package.
    fn selected_repo(&self) -> (r: Option<String>)
        ensures
            match r {
                Some(u) => selected_pkg(self@) matches Some(p) && p.repo_url == Some(u@),
                None => !(selected_pkg(self@) matches Some(p) && p.repo_url is Some),
            },
    {
        match self.selected() {
            Some(p) => crate::api::clone_opt_string(&p.repo_url),
            None => None,
        }
    }

    /// Show the highlighted package's GitHub statistics as of `now`.
    #[verifier::rlimit(40)]
    pub fn ensure_gh_stats(&mut self, now: u64)
        ensures
            final(self)@ == spec_ensure_gh(old(self)@, now),
    {
        let url = match self.selected_repo() {
            Some(u) => u,
            None => {
                self.gh = GhState::NoRepo;
                return;
            },
        };
        let fresh: Option<CachedEntry> = match get_fresh_at(&self.cache, url.as_str(), now) {
            Some(e) => Some(*e),
            None => None,
        };
        let any: Option<CachedEntry> = match get_any(&self.cache, url.as_str()) {
            Some(e) => Some(*e),
            None => None,
        };
        match fresh {
            Some(e) => {
                self.gh = GhState::Cached(e);
            },
            None => {
                self.gh = match any {
                    Some(e) => GhState::Cached(e),
                    None => GhState::Loading,
                };
                let token = crate::api::clone_opt_string(&self.token);
                self.queue(Effect::FetchGithub { repo_url: url, token });
            },
        }
    }

    /// Fetch the highlighted package's versions unless it has them.
    pub fn ensure_pkg_detail(&mut self)
        ensures
            final(self)@ == spec_ensure_detail(old(self)@),
    {
        let name = match self.selected() {
            Some(p) => if p.versions.len() > 0 {
                return;
            } else {
                p.name.clone()
            },
            None => {
                return;
            },
        };
        self.detail_loading = true;
        self.queue(Effect::FetchDetail { name });
    }

    #[verifier::rlimit(40)]
    fn key_input(&mut self, k: KeyEvent)
        ensures
            final(self)@ == spec_key_input(old(self)@, k),
    {
        if k.code == KeyCode::Esc {
            self.input_mode = false;
        } else if k.code == KeyCode::Enter {
            self.input_mode = false;
            self.page = 1;
            self.load();
        } else if (k.code == KeyCode::Backspace || k.code == KeyCode::Char('w')) && k.ctrl {
            delete_word_back(&mut self.input);
        } else if k.code == KeyCode::Backspace {
            pop_char(&mut self.input);
        } else {
            match k.code {
                KeyCode::Char(c) => push_limited(&mut self.input, c, 200),
                _ => {},
            }
        }
    }
}

/// The packages of `v` not named `name`, in order.
fn packages_without(v: &Vec<Package>, name: &str) -> (r: Vec<Package>)
    ensures
        models(r@) == without_name(models(v@), name@),
{
    let ghost pred = other_name(name@);
    let n = chars_of(name);
    let mut out: Vec<Package> = Vec::new();
    let mut i: usize = 0;
    assert(models(v@).take(0).filter(pred) =~= Seq::<PackageModel>::empty()) by {
        reveal(Seq::filter);
    }
    assert(models(out@) =~= Seq::<PackageModel>::empty());
    while i < v.len()
        invariant
            i <= v@.len(),
            n@ == name@,
            pred == other_name(name@),
            models(out@) == models(v@).take(i as int).filter(pred),
        decreases v@.len() - i,
    {
        let ghost t = models(v@).take(i + 1);
        assert(t.drop_last() =~= models(v@).take(i as int));
        assert(t.last() == v@[i as int]@);
        assert(t.filter(pred) == if pred(t.last()) {
            t.drop_last().filter(pred).push(t.last())
        } else {
            t.drop_last().filter(pred)
        }) by {
            reveal(Seq::filter);
        }
        if !crate::text::chars_eq(&chars_of(v[i].name.as_str()), &n) {
            let c = v[i].duplicate();
            let ghost before = out@;
            out.push(c);
            assert(models(out@) =~= models(before).push(c@));
        }
        i = i + 1;
    }
    assert(models(v@).take(i as int) =~= models(v@));
    out
}

/// The preset after (or, with `left`, before) the one `w` is at.
fn step_keep_weeks(w: u32, left: bool) -> (r: u32)
    ensures
        r == step_preset(w, left),
{
    let presets: Vec<u32> = vec![1, 2, 4, 8, 12, 24, 52];
    assert(presets@ =~= keep_weeks_presets());
    let mut i: usize = 0;
    let mut pos: usize = 4;
    let mut found = false;
    while i < presets.len() && !found
        invariant
            presets@ == keep_weeks_presets(),
            i <= presets@.len(),
            found ==> i < presets@.len() && position(presets@, w, 0) == Some(i as int) && pos == i,
            !found ==> position(presets@, w, 0) == position(presets@, w, i as int) && pos == 4,
        decreases presets@.len() - i + (if found { 0int } else { 1int }),
    {
        if presets[i] == w {
            pos = i;
            found = true;
        } else {
            i = i + 1;
        }
    }
    let next = if left {
        if pos > 0 {
            pos - 1
        } else {
            0
        }
    } else {
        if pos < 6 {
            pos + 1
        } else {
            6
        }
    };
    presets[next]
}

impl App {
    fn persist_settings_config(&mut self)
        ensures
            final(self)@ == persisted(old(self)@),
    {
        let c = self.settings_config;
        self.queue(Effect::PersistConfig(c));
    }

    /// Star or unstar the highlighted package.
    pub fn toggle_star(&mut self)
        ensures
            final(self)@ == spec_toggle_star(old(self)@),
    {
        let (name, lang) = match self.selected() {
            Some(p) => (p.name.clone(), p.language),
            None => {
                return;
            },
        };
        toggle(&mut self.favorites, name.as_str(), lang);
        self.queue(Effect::SaveFavorites);
        if self.favorites_mode && !self.favorites.contains_key(name.as_str()) {
            self.packages = packages_without(&self.packages, name.as_str());
            if self.packages.len() == 0 {
                self.favorites_mode = false;
                self.load();
            } else {
                let max = self.packages.len() - 1;
                match self.selected {
                    Some(i) => {
                        self.selected = Some(
                            if i < max {
                                i
                            } else {
                                max
                            },
                        );
                    },
                    None => {},
                }
            }
        }
    }

    /// Enter the favourites view (when something is starred) or leave it.
    pub fn toggle_favorites_mode(&mut self)
        ensures
            final(self)@ == spec_toggle_favorites_mode(old(self)@),
    {
        if self.favorites_mode {
            self.favorites_mode = false;
            self.reset_nav();
            self.load();
        } else {
            if self.favorites.is_empty() {
                return;
            }
            self.favorites_mode = true;
            self.selected = None;
            self.scroll = 0;
            self.view = View::List;
            self.load_favorites();
        }
    }

    /// Open the settings screen on the stored configuration and token.
    pub fn open_settings(&mut self, config: StorageConfig, token: Option<String>)
        ensures
            final(self)@ == (AppModel {
                view: View::Settings,
                settings_cursor: 0,
                settings_editing: false,
                settings_input: Seq::empty(),
                settings_config: config,
                settings_token: opt_view(token),
                ..old(self)@
            }),
    {
        self.view = View::Settings;
        self.settings_cursor = 0;
        self.settings_editing = false;
        self.settings_input = String::new();
        self.settings_config = config;
        self.settings_token = token;
    }

    /// The stored token and the one in effect, read back after a `StoreToken`.
    pub fn token_reloaded(&mut self, stored: Option<String>, live: Option<String>)
        ensures
            final(self)@ == (AppModel {
                settings_token: opt_view(stored),
                token: opt_view(live),
                ..old(self)@
            }),
    {
        self.settings_token = stored;
        self.token = live;
    }

    #[verifier::rlimit(80)]
    fn key_token_input(&mut self, k: KeyEvent)
        ensures
            final(self)@ == spec_key_token_input(old(self)@, k),
    {
        if k.code == KeyCode::Esc {
            self.settings_editing = false;
            self.settings_input = String::new();
        } else if k.code == KeyCode::Enter {
            let t = trimmed(self.settings_input.as_str());
            let token = if t.as_str().unicode_len() == 0 {
                None
            } else {
                Some(t)
            };
            self.settings_editing = false;
            self.settings_input = String::new();
            self.queue(Effect::StoreToken { token, reload: true });
        } else if (k.code == KeyCode::Backspace || k.code == KeyCode::Char('w')) && k.ctrl {
            delete_word_back(&mut self.settings_input);
        } else if k.code == KeyCode::Backspace {
            pop_char(&mut self.settings_input);
        } else {
            match k.code {
                KeyCode::Char(c) => push_limited(&mut self.settings_input, c, 256),
                _ => {},
            }
        }
    }

    #[verifier::rlimit(40)]
    fn settings_enter(&mut self)
        requires
            old(self)@.wf(),
        ensures
            final(self)@ == spec_settings_enter(old(self)@),
    {
        let rows = SettingRow::all();
        match rows[self.settings_cursor] {
            SettingRow::GithubToken => {
                self.settings_input = match &self.settings_token {
                    Some(t) => t.clone(),
                    None => String::new(),
                };
                self.settings_editing = true;
            },
            SettingRow::Compress => {
                self.settings_config.compress = !self.settings_config.compress;
                self.persist_settings_config();
            },
            SettingRow::ClearGhCache => {
                self.cache.clear();
                self.queue(Effect::ClearGhCache);
            },
            _ => {},
        }
    }

    fn adjust_keep_weeks(&mut self, left: bool)
        ensures
            final(self)@ == spec_adjust_keep_weeks(old(self)@, left),
    {
        let mut c = self.settings_config;
        c.keep_weeks = step_keep_weeks(c.keep_weeks, left);
        self.settings_config = c;
        self.persist_settings_config();
    }

    fn adjust_link_style(&mut self)
        ensures
            final(self)@ == spec_adjust_link_style(old(self)@),
    {
        let mut c = self.settings_config;
        let ls = c.link_style.cycle();
        c.link_style = ls;
        self.settings_config = c;
        self.link_style = ls;
        self.persist_settings_config();
    }

    fn adjust_color_scheme(&mut self, left: bool)
        ensures
            final(self)@ == spec_adjust_color_scheme(old(self)@, left),
    {
        let mut c = self.settings_config;
        let cs = if left {
            c.color_scheme.cycle_back()
        } else {
            c.color_scheme.cycle()
        };
        c.color_scheme = cs;
        self.settings_config = c;
        self.color_scheme = cs;
        self.persist_settings_config();
    }

    fn adjust_default_language(&mut self, left: bool)
        ensures
            final(self)@ == spec_adjust_default_language(old(self)@, left),
    {
        let mut c = self.settings_config;
        c.default_language = if left {
            c.default_language.cycle_back()
        } else {
            c.default_language.cycle()
        };
        self.settings_config = c;
        self.persist_settings_config();
    }

    fn settings_adjust(&mut self, left: bool)
        requires
            old(self)@.wf(),
        ensures
            final(self)@ == spec_settings_adjust(old(self)@, left),
    {
        let rows = SettingRow::all();
        let row = rows[self.settings_cursor];
        assert(row == cursor_row(self@));
        if row == SettingRow::KeepWeeks {
            self.adjust_keep_weeks(left);
        } else if row == SettingRow::LinkStyle {
            self.adjust_link_style();
        } else if row == SettingRow::ColorScheme {
            self.adjust_color_scheme(left);
        } else if row == SettingRow::DefaultLanguage {
            self.adjust_default_language(left);
        }
    }

    #[verifier::rlimit(60)]
    fn key_settings(&mut self, k: KeyEvent) -> (r: bool)
        requires
            old(self)@.wf(),
        ensures
            (final(self)@, r) == spec_key_settings(old(self)@, k),
    {
        let rows = SettingRow::all();
        let lr = k.code == KeyCode::Left || k.code == KeyCode::Right;
        let left = k.code == KeyCode::Left;
        if self.settings_editing {
            self.key_token_input(k);
            false
        } else if k.code == KeyCode::Char('q') || k.code == KeyCode::Esc {
            self.view = View::List;
            false
        } else if k.code == KeyCode::Char('c') && k.ctrl {
            true
        } else if k.code == KeyCode::Down || k.code == KeyCode::Char('j') {
            let last = rows.len() - 1;
            self.settings_cursor = if self.settings_cursor < last {
                self.settings_cursor + 1
            } else {
                last
            };
            false
        } else if k.code == KeyCode::Up || k.code == KeyCode::Char('k') {
            self.settings_cursor = if self.settings_cursor > 0 {
                self.settings_cursor - 1
            } else {
                0
            };
            false
        } else if k.code == KeyCode::Enter {
            self.settings_enter();
            false
        } else if k.code == KeyCode::Char('d') && rows[self.settings_cursor] == SettingRow::GithubToken {
            self.settings_token = None;
            self.token = None;
            self.queue(Effect::StoreToken { token: None, reload: false });
            false
        } else if lr {
            self.settings_adjust(left);
            false
        } else {
            false
        }
    }
}

/// `(i + 1) % n` from `i % n`.
proof fn lemma_succ_mod(i: int, n: int)
    requires
        0 <= i,
        0 < n,
    ensures
        (i + 1) % n == (if i % n + 1 == n {
            0
        } else {
            i % n + 1
        }),
        0 <= (i + 1) % n < n,
{
    let q = i / n;
    let r = i % n;
    vstd::arithmetic::div_mod::lemma_fundamental_div_mod(i, n);
    vstd::arithmetic::div_mod::lemma_mod_pos_bound(i, n);
    vstd::arithmetic::div_mod::lemma_mod_pos_bound(i + 1, n);
    vstd::arithmetic::mul::lemma_mul_is_commutative(n, q);
    if r + 1 < n {
        vstd::arithmetic::div_mod::lemma_fundamental_div_mod_converse(i + 1, n, q, r + 1);
    } else {
        vstd::arithmetic::mul::lemma_mul_is_distributive_add_other_way(n, q, 1);
        vstd::arithmetic::div_mod::lemma_fundamental_div_mod_converse(i + 1, n, q + 1, 0);
    }
}

impl App {
    fn next_sort(&mut self)
        ensures
            final(self)@ == spec_next_sort(old(self)@),
    {
        self.sort = self.sort.cycle();
        self.page = 1;
        self.load();
    }

    fn open_detail(&mut self, now: u64)
        ensures
            final(self)@ == spec_open_detail(old(self)@, now),
    {
        if self.packages.len() > 0 {
            self.view = View::Detail;
            self.scroll = 0;
            self.link_cursor = None;
            self.ensure_gh_stats(now);
            self.ensure_pkg_detail();
        }
    }

    fn reload(&mut self)
        ensures
            final(self)@ == spec_reload(old(self)@),
    {
        if !self.loading {
            self.listings.clear();
            self.from_cache = false;
            if self.favorites_mode {
                self.load_favorites();
            } else {
                self.load();
            }
        }
    }

    #[verifier::rlimit(60)]
    fn key_list(&mut self, k: KeyEvent, now: u64) -> (r: bool)
        ensures
            (final(self)@, r) == spec_key_list(old(self)@, k, now),
    {
        let c = k.code;
        if c == KeyCode::Char('q') {
            true
        } else if c == KeyCode::Char('c') && k.ctrl {
            true
        } else if c == KeyCode::Char('/') {
            self.input_mode = true;
            false
        } else if c == KeyCode::Char('?') {
            self.queue(Effect::OpenSettings);
            false
        } else if c == KeyCode::Tab {
            self.next_sort();
            false
        } else if c == KeyCode::Char(']') {
            self.next_page();
            false
        } else if c == KeyCode::Char('[') {
            self.prev_page();
            false
        } else if c == KeyCode::Char('l') {
            self.switch_language();
            false
        } else if c == KeyCode::Char('L') {
            self.switch_language_back();
            false
        } else if c == KeyCode::Char('s') {
            self.toggle_star();
            false
        } else if c == KeyCode::Char('f') {
            self.toggle_favorites_mode();
            false
        } else if c == KeyCode::Down || c == KeyCode::Char('j') {
            self.nav(1);
            false
        } else if c == KeyCode::Up || c == KeyCode::Char('k') {
            self.nav(-1);
            false
        } else if c == KeyCode::PageDown {
            self.nav(10);
            false
        } else if c == KeyCode::PageUp {
            self.nav(-10);
            false
        } else if c == KeyCode::Enter {
            self.open_detail(now);
            false
        } else if c == KeyCode::Char('r') {
            self.reload();
            false
        } else {
            false
        }
    }

    /// The highlighted package's present links, in the order docs, hex, repository.
    fn links(&self) -> (r: Vec<String>)
        ensures
            match selected_pkg(self@) {
                Some(p) => crate::types::views(r@) == present_links(p),
                None => r@.len() == 0,
            },
    {
        let mut out: Vec<String> = Vec::new();
        match self.selected() {
            Some(p) => {
                match &p.docs_url {
                    Some(u) => out.push(u.clone()),
                    None => {},
                }
                let ghost a = crate::types::views(out@);
                match &p.hex_url {
                    Some(u) => out.push(u.clone()),
                    None => {},
                }
                let ghost b = crate::types::views(out@);
                match &p.repo_url {
                    Some(u) => out.push(u.clone()),
                    None => {},
                }
                proof {
                    let q = p@;
                    let sa: Seq<Seq<char>> = match q.docs_url {
                        Some(u) => seq![u],
                        None => Seq::empty(),
                    };
                    let sb: Seq<Seq<char>> = match q.hex_url {
                        Some(u) => seq![u],
                        None => Seq::empty(),
                    };
                    let sc: Seq<Seq<char>> = match q.repo_url {
                        Some(u) => seq![u],
                        None => Seq::empty(),
                    };
                    assert(a =~= sa);
                    assert(b =~= sa + sb);
                    assert(crate::types::views(out@) =~= sa + sb + sc);
                }
            },
            None => {},
        }
        out
    }

    fn next_link(&mut self)
        ensures
            final(self)@ == spec_next_link(old(self)@),
    {
        let n = self.links().len();
        if n > 0 {
            let next = match self.link_cursor {
                None => 0,
                Some(i) => {
                    let j = i % n;
                    proof {
                        lemma_succ_mod(i as int, n as int);
                    }
                    if j + 1 == n {
                        0
                    } else {
                        j + 1
                    }
                },
            };
            self.link_cursor = Some(next);
        }
    }

    fn prev_link(&mut self)
        ensures
            final(self)@ == spec_prev_link(old(self)@),
    {
        let n = self.links().len();
        if n > 0 {
            let prev = match self.link_cursor {
                Some(i) => if i > 0 {
                    i - 1
                } else {
                    n - 1
                },
                None => n - 1,
            };
            self.link_cursor = Some(prev);
        }
    }

    fn open_link(&mut self)
        ensures
            final(self)@ == spec_open_link(old(self)@),
    {
        match self.link_cursor {
            Some(idx) => {
                let links = self.links();
                if self.selected().is_some() && idx < links.len() {
                    let url = links[idx].clone();
                    self.queue(Effect::OpenUrl(url));
                }
            },
            None => {},
        }
    }

    #[verifier::rlimit(40)]
    fn forget_selected(&mut self)
        ensures
            final(self)@ == spec_forget_selected(old(self)@),
    {
        match self.selected_repo() {
            Some(u) => self.cache.remove(u.as_str()),
            None => {},
        }
        match self.selected {
            Some(i) => if i < self.packages.len() {
                let mut p = self.packages[i].duplicate();
                p.versions = Vec::new();
                let ghost before = self.packages@;
                self.packages.set(i, p);
                assert(models(self.packages@) =~= models(before).update(i as int, p@));
                assert(p@.versions =~= Seq::<Seq<char>>::empty());
            },
            None => {},
        }
    }

    /// Forget the highlighted package's cached statistics and versions and fetch
    /// both again.
    fn refresh_detail(&mut self, now: u64)
        ensures
            final(self)@ == spec_refresh_detail(old(self)@, now),
    {
        self.forget_selected();
        self.gh = GhState::Loading;
        self.ensure_gh_stats(now);
        self.ensure_pkg_detail();
    }

    fn scroll_by(&mut self, down: bool, step: u16)
        ensures
            final(self)@ == (AppModel {
                scroll: if down {
                    sat_add16(old(self)@.scroll, step)
                } else {
                    sat_sub16(old(self)@.scroll, step)
                },
                ..old(self)@
            }),
    {
        self.scroll = if down {
            if self.scroll as u32 + step as u32 > u16::MAX as u32 {
                u16::MAX
            } else {
                self.scroll + step
            }
        } else {
            if self.scroll < step {
                0
            } else {
                self.scroll - step
            }
        };
    }

    #[verifier::rlimit(60)]
    fn key_detail(&mut self, k: KeyEvent, now: u64) -> (r: bool)
        ensures
            (final(self)@, r) == spec_key_detail(old(self)@, k, now),
    {
        let c = k.code;
        if c == KeyCode::Char('q') || c == KeyCode::Esc || c == KeyCode::Backspace {
            self.view = View::List;
            self.link_cursor = None;
            false
        } else if c == KeyCode::Char('c') && k.ctrl {
            true
        } else if c == KeyCode::Down || c == KeyCode::Char('j') {
            self.scroll_by(true, 1);
            false
        } else if c == KeyCode::Up || c == KeyCode::Char('k') {
            self.scroll_by(false, 1);
            false
        } else if c == KeyCode::PageDown {
            self.scroll_by(true, 10);
            false
        } else if c == KeyCode::PageUp {
            self.scroll_by(false, 10);
            false
        } else if c == KeyCode::Tab {
            self.next_link();
            false
        } else if c == KeyCode::BackTab {
            self.prev_link();
            false
        } else if c == KeyCode::Enter {
            self.open_link();
            false
        } else if c == KeyCode::Char('r') {
            self.refresh_detail(now);
            false
        } else {
            false
        }
    }

    /// A key press at time `now` (the cache's freshness is judged by it). Returns
    /// whether the browser should quit.
    pub fn on_key(&mut self, k: KeyEvent, now: u64) -> (r: bool)
        requires
            old(self)@.wf(),
        ensures
            (final(self)@, r) == spec_on_key(old(self)@, k, now),
    {
        if self.input_mode {
            self.key_input(k);
            return false;
        }
        match self.view {
            View::List => self.key_list(k, now),
            View::Detail => self.key_detail(k, now),
            View::Settings => self.key_settings(k),
        }
    }

    /// Index of the first package named `name`.
    fn find_named(&self, name: &str) -> (r: Option<usize>)
        ensures
            match r {
                Some(i) => i < self@.packages.len() && first_named(self@.packages, name@, 0) == Some(
                    i as int,
                ),
                None => first_named(self@.packages, name@, 0) is None,
            },
    {
        let n = chars_of(name);
        let mut i: usize = 0;
        while i < self.packages.len()
            invariant
                i <= self.packages@.len(),
                n@ == name@,
                first_named(self@.packages, name@, 0) == first_named(self@.packages, name@, i as int),
            decreases self.packages@.len() - i,
        {
            if crate::text::chars_eq(&chars_of(self.packages[i].name.as_str()), &n) {
                return Some(i);
            }
            i = i + 1;
        }
        None
    }

    #[verifier::rlimit(40)]
    fn on_loaded(&mut self, gen: u64, pkgs: Vec<Package>, more: bool)
        ensures
            final(self)@ == spec_on_loaded(old(self)@, gen, models(pkgs@), more),
    {
        if gen != self.fetch_gen {
            return;
        }
        let q = trimmed(self.input.as_str());
        let sort = self.sort.api_param().to_owned();
        let copy = clone_packages(&pkgs);
        let nonempty = pkgs.len() > 0;
        self.loading = false;
        self.from_cache = false;
        self.has_more = more;
        self.packages = pkgs;
        if nonempty {
            self.selected = Some(0);
        }
        self.listings.insert(q, sort, self.language, self.page, copy, more);
    }

    #[verifier::rlimit(40)]
    fn on_detail(&mut self, name: String, versions: Vec<String>)
        ensures
            final(self)@ == spec_on_detail(old(self)@, name@, crate::types::views(versions@)),
    {
        self.detail_loading = false;
        match self.find_named(name.as_str()) {
            Some(i) => {
                let mut p = self.packages[i].duplicate();
                p.versions = versions;
                let ghost before = self.packages@;
                self.packages.set(i, p);
                assert(models(self.packages@) =~= models(before).update(i as int, p@));
            },
            None => {},
        }
    }

    fn on_gh(&mut self, url: String, r: GhResult, now: u64)
        ensures
            final(self)@ == spec_on_gh(old(self)@, url@, r, now),
    {
        match r {
            GhResult::Fetched(stats) => {
                insert_at(&mut self.cache, url, &stats, now);
                self.gh = GhState::Live(stats);
                self.queue(Effect::SaveGhCache);
            },
            GhResult::RateLimited => {
                self.gh = GhState::RateLimited;
            },
            GhResult::BadToken => {
                self.gh = GhState::BadToken;
            },
            GhResult::Unavailable => {
                self.gh = GhState::Unavailable;
            },
        }
    }

    /// A fetch result arriving at time `now`.
    pub fn on_msg(&mut self, msg: Msg, now: u64)
        ensures
            final(self)@ == spec_on_msg(old(self)@, msg@, now),
    {
        match msg {
            Msg::Loaded(gen, pkgs, more) => self.on_loaded(gen, pkgs, more),
            Msg::DetailLoaded(name, versions) => self.on_detail(name, versions),
            Msg::GhFetched(url, r) => self.on_gh(url, r, now),
            Msg::Failed(e) => {
                self.loading = false;
                self.error = Some(e);
            },
        }
    }
}

// ── Laws ─────────────────────────────────────────────────────────────────────

/// The settings cursor always designates a row: no key moves it off the list.
pub proof fn lemma_on_key_keeps_cursor(m: AppModel, k: KeyEvent, now: u64)
    requires
        m.wf(),
    ensures
        spec_on_key(m, k, now).0.wf(),
{
}

/// The settings screen's keys: the cursor always stays on a row; Ctrl+C quits
/// when no token is being edited, and no other key, nor any key while a token is
/// edited, does. Outside token editing, Down or `j` moves the cursor one row
/// down, stopping at the last row, and Up or `k` one row up, stopping at the first.
pub proof fn lemma_settings_keys(m: AppModel, k: KeyEvent, now: u64)
    requires
        m.wf(),
        m.view == View::Settings,
        !m.input_mode,
    ensures
        ({
            let (m2, quit) = spec_on_key(m, k, now);
            let n = SettingRow::spec_all().len();
            let ed = m.settings_editing;
            &&& m2.settings_cursor < n
            &&& quit <==> (!ed && k.code == KeyCode::Char('c') && k.ctrl)
            &&& !ed && (k.code == KeyCode::Down || k.code == KeyCode::Char('j')) ==> m2.settings_cursor
                == (if m.settings_cursor + 1 < n {
                m.settings_cursor + 1
            } else {
                n - 1
            })
            &&& !ed && (k.code == KeyCode::Up || k.code == KeyCode::Char('k')) ==> m2.settings_cursor
                == (if m.settings_cursor > 0 {
                m.settings_cursor - 1
            } else {
                0
            })
        }),
{
    lemma_on_key_keeps_cursor(m, k, now);
}

/// A fetch result keeps the settings cursor where it is.
pub proof fn lemma_on_msg_keeps_cursor(m: AppModel, msg: MsgModel, now: u64)
    ensures
        spec_on_msg(m, msg, now).settings_cursor == m.settings_cursor,
{
}

/// A listing from a superseded request changes nothing.
pub proof fn lemma_stale_listing_ignored(
    m: AppModel,
    gen: u64,
    pkgs: Seq<PackageModel>,
    more: bool,
    now: u64,
)
    requires
        gen != m.fetch_gen,
    ensures
        spec_on_msg(m, MsgModel::Loaded(gen, pkgs, more), now) == m,
{
}

/// What a listing fetch brings back is shown, and asking for the same listing again
/// serves it from the session cache without another fetch.
pub proof fn lemma_fetched_listing_is_cached(
    m: AppModel,
    pkgs: Seq<PackageModel>,
    more: bool,
    now: u64,
)
    requires
        !m.listings.contains_key(listing_key(m)),
    ensures
        ({
            let m1 = spec_load(m);
            let m2 = spec_on_msg(m1, MsgModel::Loaded(m1.fetch_gen, pkgs, more), now);
            let m3 = spec_load(m2);
            &&& m1.loading
            &&& m1.effects.last() == EffectModel::FetchListing {
                gen: m1.fetch_gen,
                query: trim(m.input),
                sort: m.sort.spec_api_param(),
                language: m.language,
                page: m.page,
            }
            &&& m2.packages == pkgs
            &&& m2.has_more == more
            &&& !m2.loading
            &&& m3.packages == pkgs
            &&& m3.has_more == more
            &&& m3.from_cache
            &&& m3.effects == m2.effects
        }),
{
    let m1 = spec_load(m);
    let m2 = spec_on_msg(m1, MsgModel::Loaded(m1.fetch_gen, pkgs, more), now);
    assert(listing_key(m2) == listing_key(m1));
    assert(listing_key(m1) == listing_key(m));
}

/// Moving the selection on a non-empty list leaves it on a package (or unset).
pub proof fn lemma_nav_in_bounds(m: AppModel, delta: int)
    requires
        m.packages.len() > 0,
        m.selected matches Some(i) ==> i < m.packages.len(),
    ensures
        spec_nav(m, delta).selected matches Some(i) ==> i < m.packages.len(),
        spec_nav(m, delta).packages == m.packages,
{
}

/// Tab and Shift+Tab on the detail view keep the highlight on one of the
/// package's links.
pub proof fn lemma_next_link_in_range(m: AppModel)
    requires
        link_count(m) > 0,
        m.link_cursor matches Some(i) ==> i < link_count(m),
    ensures
        spec_next_link(m).link_cursor matches Some(i) && i < link_count(m),
        spec_prev_link(m).link_cursor matches Some(i) && i < link_count(m),
{
    if let Some(i) = m.link_cursor {
        lemma_succ_mod(i as int, link_count(m) as int);
    }
}

/// On the detail view of a package with links: Tab highlights the first link, or
/// the one after the highlighted link (wrapping around), Shift+Tab the last link,
/// or the one before (wrapping around); neither quits, and the highlight stays on
/// one of the package's links. From a highlighted link, Tab then Shift+Tab, or
/// Shift+Tab then Tab, come back to it.
pub proof fn lemma_detail_link_keys(m: AppModel, tab: KeyEvent, back: KeyEvent, now: u64)
    requires
        m.view == View::Detail,
        !m.input_mode,
        tab.code == KeyCode::Tab,
        back.code == KeyCode::BackTab,
        link_count(m) > 0,
        m.link_cursor matches Some(i) ==> i < link_count(m),
    ensures
        ({
            let n = link_count(m);
            let (a, qa) = spec_on_key(m, tab, now);
            let (b, qb) = spec_on_key(m, back, now);
            &&& !qa && !qb
            &&& a.link_cursor == Some(
                match m.link_cursor {
                    None => 0usize,
                    Some(i) => ((i + 1) % (n as int)) as usize,
                },
            )
            &&& b.link_cursor == Some(
                match m.link_cursor {
                    Some(i) => if i > 0 {
                        (i - 1) as usize
                    } else {
                        (n - 1) as usize
                    },
                    None => (n - 1) as usize,
                },
            )
            &&& a.link_cursor matches Some(j) && j < n
            &&& b.link_cursor matches Some(j) && j < n
            &&& m.link_cursor is Some ==> spec_on_key(a, back, now).0.link_cursor == m.link_cursor
            &&& m.link_cursor is Some ==> spec_on_key(b, tab, now).0.link_cursor == m.link_cursor
        }),
{
    let n = link_count(m);
    lemma_next_link_in_range(m);
    let a = spec_next_link(m);
    let b = spec_prev_link(m);
    assert(selected_pkg(a) == selected_pkg(m));
    assert(selected_pkg(b) == selected_pkg(m));
    assert(link_count(a) == n);
    assert(link_count(b) == n);
    assert(spec_on_key(m, tab, now).0 == a);
    assert(spec_on_key(m, back, now).0 == b);
    assert(spec_on_key(a, back, now).0 == spec_prev_link(a));
    assert(spec_on_key(b, tab, now).0 == spec_next_link(b));
    if let Some(i) = m.link_cursor {
        lemma_succ_mod(i as int, n as int);
        vstd::arithmetic::div_mod::lemma_small_mod(i as nat, n);
        vstd::arithmetic::div_mod::lemma_small_mod((n - 1) as nat, n);
        if i > 0 {
            vstd::arithmetic::div_mod::lemma_small_mod((i - 1) as nat, n);
            lemma_succ_mod((i - 1) as int, n as int);
            assert(b.link_cursor == Some((i - 1) as usize));
            assert(spec_next_link(b).link_cursor == Some(i));
        } else {
            lemma_succ_mod((n - 1) as int, n as int);
            assert(b.link_cursor == Some((n - 1) as usize));
            assert(spec_next_link(b).link_cursor == Some(0usize));
        }
        if i + 1 < n {
            assert(a.link_cursor == Some((i + 1) as usize));
        } else {
            assert(a.link_cursor == Some(0usize));
        }
        assert(spec_prev_link(a).link_cursor == Some(i));
    }
}

/// Going to the next page and back returns to the page started from.
pub proof fn lemma_next_then_prev_page(m: AppModel)
    requires
        m.has_more,
        trim(m.input).len() == 0,
        1 <= m.page < u32::MAX,
    ensures
        spec_prev_page(spec_next_page(m)).page == m.page,
        spec_next_page(m).page == m.page + 1,
{
    let m0 = AppModel { page: wrap_inc32(m.page), selected: None, scroll: 0, ..m };
    assert(spec_load(m0).page == m0.page);
    assert(spec_load(m0).input == m0.input);
    let m1 = spec_next_page(m);
    assert(m1 == spec_load(m0));
    assert(m1.page > 1);
    let m2 = AppModel { page: (m1.page - 1) as u32, selected: None, scroll: 0, ..m1 };
    assert(spec_load(m2).page == m2.page);
    assert(spec_prev_page(m1) == spec_load(m2));
}

/// Switching to the next language and back returns to the language started from,
/// on its first page.
pub proof fn lemma_switch_language_back(m: AppModel)
    ensures
        spec_switch_language(spec_switch_language(m, true), false).language == m.language,
        spec_switch_language(spec_switch_language(m, true), false).page == 1,
        !spec_switch_language(spec_switch_language(m, true), false).favorites_mode,
{
    crate::types::lemma_language_cycle_inverse(m.language);
}

/// Starring the highlighted package twice (outside the favourites view) leaves the
/// favourites as they were, when it was not starred under another language.
pub proof fn lemma_star_twice(m: AppModel)
    requires
        !m.favorites_mode,
        selected_pkg(m) matches Some(p) && (m.favorites.contains_key(p.name) ==> m.favorites[p.name]
            == p.language),
    ensures
        spec_toggle_star(spec_toggle_star(m)).favorites == m.favorites,
{
    let p = selected_pkg(m).unwrap();
    crate::favorites::lemma_toggle_twice(m.favorites, p.name, p.language);
    assert(selected_pkg(spec_toggle_star(m)) == selected_pkg(m));
}

} // verus!
