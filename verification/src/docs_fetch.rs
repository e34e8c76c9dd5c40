//! The order in which a package's documentation search index is looked for on
//! hexdocs.pm, as a state machine: each step takes what the last request or
//! parse gave and says what to do next. The caller performs the requests and the
//! JSON deserialisation and hands the outcomes back.
//!
//! First a fixed list of well-known index paths is tried; then the package's
//! `search.html` is fetched, and the index it links (or the `searchData` it
//! embeds) is used. A response counts only when it yields at least one entry.

use vstd::prelude::*;
use crate::docs::{
    map_search_items, search_payload, spec_map_item, spec_search_payload, RawSearchItem,
    SearchItem, SearchItemModel, SearchPayload, SearchPayloadModel,
};
use crate::index_url::{spec_find_index, try_find_search_index_url};
use crate::text::{chars_of, contains, contains_seq, opt_view};

verus! {

// ── Constants ────────────────────────────────────────────────────────────────

/// The index paths tried before `search.html`, in order.
pub open spec fn direct_candidates() -> Seq<Seq<char>> {
    seq![
        "search_data.json"@,
        "search-data.json"@,
        "search_data.js"@,
        "search-data.js"@,
        "dist/search_data.js"@,
        "dist/search-data.js"@,
    ]
}

fn direct_candidate(k: usize) -> (r: &'static str)
    requires
        k < direct_candidates().len(),
    ensures
        r@ == direct_candidates()[k as int],
{
    match k {
        0 => "search_data.json",
        1 => "search-data.json",
        2 => "search_data.js",
        3 => "search-data.js",
        4 => "dist/search_data.js",
        _ => "dist/search-data.js",
    }
}

/// `https://hexdocs.pm/<package>/`.
pub open spec fn docs_base(package: Seq<char>) -> Seq<char> {
    "https://hexdocs.pm/"@ + package + "/"@
}

/// The message when no strategy found an index.
pub open spec fn not_found_message(package: Seq<char>) -> Seq<char> {
    "docs search index not found for '"@ + package
        + "' — tried direct candidates and HTML discovery"@
}

fn docs_url(package: &str, path: &str) -> (r: String)
    ensures
        r@ == docs_base(package@) + path@,
{
    let mut s = "https://hexdocs.pm/".to_owned();
    s.append(package);
    s.append("/");
    s.append(path);
    s
}

// ── States, events, actions ──────────────────────────────────────────────────

/// Where the search is.
pub enum DocsStage {
    /// Waiting for the `k`-th direct candidate.
    Direct(usize),
    /// Waiting for the `k`-th direct candidate's JSON to be deserialised.
    DirectParse(usize),
    /// Waiting for `search.html`.
    Page,
    /// Waiting for the index `search.html` (kept here) links.
    Asset(String),
    /// Waiting for that index's JSON to be deserialised.
    AssetParse(String),
    /// Waiting for the `searchData` embedded in `search.html` to be deserialised.
    InlineParse,
    /// The search has ended.
    Finished,
}

pub enum DocsStageModel {
    Direct(usize),
    DirectParse(usize),
    Page,
    Asset(Seq<char>),
    AssetParse(Seq<char>),
    InlineParse,
    Finished,
}

impl View for DocsStage {
    type V = DocsStageModel;

    open spec fn view(&self) -> DocsStageModel {
        match self {
            DocsStage::Direct(k) => DocsStageModel::Direct(*k),
            DocsStage::DirectParse(k) => DocsStageModel::DirectParse(*k),
            DocsStage::Page => DocsStageModel::Page,
            DocsStage::Asset(p) => DocsStageModel::Asset(p@),
            DocsStage::AssetParse(p) => DocsStageModel::AssetParse(p@),
            DocsStage::InlineParse => DocsStageModel::InlineParse,
            DocsStage::Finished => DocsStageModel::Finished,
        }
    }
}

/// The search for one package's index.
pub struct DocsFetch {
    pub package: String,
    pub stage: DocsStage,
}

pub struct DocsFetchModel {
    pub package: Seq<char>,
    pub stage: DocsStageModel,
}

impl View for DocsFetch {
    type V = DocsFetchModel;

    open spec fn view(&self) -> DocsFetchModel {
        DocsFetchModel { package: self.package@, stage: self.stage@ }
    }
}

/// What the caller hands back.
pub enum DocsEvent {
    /// The body of a successful response to the last `Get`; `None` when the
    /// request failed or its status was not a success.
    Body(Option<String>),
    /// The entries deserialised from the last `ParseJson`; `None` when it did not
    /// deserialise.
    Parsed(Option<Vec<RawSearchItem>>),
}

pub enum DocsEventModel {
    Body(Option<Seq<char>>),
    Parsed(Option<Seq<RawSearchItem>>),
}

impl View for DocsEvent {
    type V = DocsEventModel;

    open spec fn view(&self) -> DocsEventModel {
        match self {
            DocsEvent::Body(b) => DocsEventModel::Body(opt_view(*b)),
            DocsEvent::Parsed(p) => DocsEventModel::Parsed(
                match p {
                    Some(v) => Some(v@),
                    None => None,
                },
            ),
        }
    }
}

/// What the caller is asked to do.
pub enum DocsAction {
    /// Fetch this URL; answer with `Body`.
    Get(String),
    /// Deserialise this JSON as a search index; answer with `Parsed`.
    ParseJson(String),
    /// The index was found: its entries.
    Found(Vec<SearchItem>),
    /// No strategy found an index; the message says so.
    NotFound(String),
    /// The page's `src=` scan resumed inside a character: slicing the text there
    /// panics, and the search stops.
    Abort,
}

pub enum DocsActionModel {
    Get(Seq<char>),
    ParseJson(Seq<char>),
    Found(Seq<SearchItemModel>),
    NotFound(Seq<char>),
    Abort,
}

impl View for DocsAction {
    type V = DocsActionModel;

    open spec fn view(&self) -> DocsActionModel {
        match self {
            DocsAction::Get(u) => DocsActionModel::Get(u@),
            DocsAction::ParseJson(j) => DocsActionModel::ParseJson(j@),
            DocsAction::Found(v) => DocsActionModel::Found(v@.map_values(|i: SearchItem| i@)),
            DocsAction::NotFound(m) => DocsActionModel::NotFound(m@),
            DocsAction::Abort => DocsActionModel::Abort,
        }
    }
}

// ── Transitions ──────────────────────────────────────────────────────────────

/// The JSON text of a payload.
pub open spec fn payload_json(p: SearchPayloadModel) -> Seq<char> {
    match p {
        SearchPayloadModel::Json(s) => s,
        SearchPayloadModel::Assignment(s) => s,
    }
}

/// Ask for the `k`-th direct candidate, or for `search.html` once they are used up.
pub open spec fn spec_try_direct(package: Seq<char>, k: usize) -> (DocsFetchModel, DocsActionModel) {
    if k < direct_candidates().len() {
        (
            DocsFetchModel { package, stage: DocsStageModel::Direct(k) },
            DocsActionModel::Get(docs_base(package) + direct_candidates()[k as int]),
        )
    } else {
        (
            DocsFetchModel { package, stage: DocsStageModel::Page },
            DocsActionModel::Get(docs_base(package) + "search.html"@),
        )
    }
}

/// The search ends without an index.
pub open spec fn spec_give_up(package: Seq<char>) -> (DocsFetchModel, DocsActionModel) {
    (
        DocsFetchModel { package, stage: DocsStageModel::Finished },
        DocsActionModel::NotFound(not_found_message(package)),
    )
}

/// The last resort: the `searchData` embedded in the page itself.
pub open spec fn spec_try_inline(package: Seq<char>, page: Seq<char>) -> (
    DocsFetchModel,
    DocsActionModel,
) {
    if contains_seq(page, "searchData"@) {
        match spec_search_payload(page) {
            Some(p) => (
                DocsFetchModel { package, stage: DocsStageModel::InlineParse },
                DocsActionModel::ParseJson(payload_json(p)),
            ),
            None => spec_give_up(package),
        }
    } else {
        spec_give_up(package)
    }
}

/// The entries found, as search items of `package`.
pub open spec fn found(package: Seq<char>, items: Seq<RawSearchItem>) -> (DocsFetchModel, DocsActionModel) {
    (
        DocsFetchModel { package, stage: DocsStageModel::Finished },
        DocsActionModel::Found(items.map_values(|r: RawSearchItem| spec_map_item(r, package))),
    )
}

/// The page `search.html` arrived (empty when it could not be had).
pub open spec fn spec_on_page(package: Seq<char>, page: Seq<char>) -> (DocsFetchModel, DocsActionModel) {
    if page.len() == 0 {
        spec_give_up(package)
    } else {
        match spec_find_index(docs_base(package) + "search.html"@, page) {
            None => (DocsFetchModel { package, stage: DocsStageModel::Finished }, DocsActionModel::Abort),
            Some(Some(u)) => (
                DocsFetchModel { package, stage: DocsStageModel::Asset(page) },
                DocsActionModel::Get(u),
            ),
            Some(None) => spec_try_inline(package, page),
        }
    }
}

/// A fetched body: parse its payload, or go on with `next` when it has none.
pub open spec fn spec_on_body(
    package: Seq<char>,
    body: Seq<char>,
    parse_stage: DocsStageModel,
    next: (DocsFetchModel, DocsActionModel),
) -> (DocsFetchModel, DocsActionModel) {
    match spec_search_payload(body) {
        Some(p) => (
            DocsFetchModel { package, stage: parse_stage },
            DocsActionModel::ParseJson(payload_json(p)),
        ),
        None => next,
    }
}

/// Deserialised entries: found when there is at least one, else go on with `next`.
pub open spec fn spec_on_parsed(
    package: Seq<char>,
    items: Option<Seq<RawSearchItem>>,
    next: (DocsFetchModel, DocsActionModel),
) -> (DocsFetchModel, DocsActionModel) {
    match items {
        Some(v) => if v.len() > 0 {
            found(package, v)
        } else {
            next
        },
        None => next,
    }
}

/// The event fits the stage: a body where a request is pending, entries where a
/// deserialisation is.
pub open spec fn event_fits(stage: DocsStageModel, ev: DocsEventModel) -> bool {
    match stage {
        DocsStageModel::Direct(_) | DocsStageModel::Page | DocsStageModel::Asset(_) => ev is Body,
        DocsStageModel::DirectParse(_) | DocsStageModel::AssetParse(_)
        | DocsStageModel::InlineParse => ev is Parsed,
        DocsStageModel::Finished => false,
    }
}

/// One step of the search.
pub open spec fn spec_docs_step(m: DocsFetchModel, ev: DocsEventModel) -> (DocsFetchModel, DocsActionModel) {
    let pkg = m.package;
    match (m.stage, ev) {
        (DocsStageModel::Direct(k), DocsEventModel::Body(b)) => match b {
            Some(body) => spec_on_body(
                pkg,
                body,
                DocsStageModel::DirectParse(k),
                spec_try_direct(pkg, (k + 1) as usize),
            ),
            None => spec_try_direct(pkg, (k + 1) as usize),
        },
        (DocsStageModel::DirectParse(k), DocsEventModel::Parsed(items)) => spec_on_parsed(
            pkg,
            items,
            spec_try_direct(pkg, (k + 1) as usize),
        ),
        (DocsStageModel::Page, DocsEventModel::Body(b)) => spec_on_page(
            pkg,
            match b {
                Some(p) => p,
                None => Seq::empty(),
            },
        ),
        (DocsStageModel::Asset(page), DocsEventModel::Body(b)) => match b {
            Some(body) => spec_on_body(
                pkg,
                body,
                DocsStageModel::AssetParse(page),
                spec_try_inline(pkg, page),
            ),
            None => spec_try_inline(pkg, page),
        },
        (DocsStageModel::AssetParse(page), DocsEventModel::Parsed(items)) => spec_on_parsed(
            pkg,
            items,
            spec_try_inline(pkg, page),
        ),
        (DocsStageModel::InlineParse, DocsEventModel::Parsed(items)) => spec_on_parsed(
            pkg,
            items,
            spec_give_up(pkg),
        ),
        _ => (m, DocsActionModel::Abort),
    }
}

/// The stage is one the search can be in: a direct candidate that exists, a
/// non-empty page kept for its inline data.
pub open spec fn stage_ok(s: DocsStageModel) -> bool {
    match s {
        DocsStageModel::Direct(k) => k < direct_candidates().len(),
        DocsStageModel::DirectParse(k) => k < direct_candidates().len(),
        DocsStageModel::Asset(p) => 0 < p.len(),
        DocsStageModel::AssetParse(p) => 0 < p.len(),
        _ => true,
    }
}

impl DocsFetch {
    /// Start looking for `package`'s index: the first direct candidate.
    pub fn start(package: &str) -> (r: (DocsFetch, DocsAction))
        ensures
            (r.0@, r.1@) == spec_try_direct(package@, 0),
            stage_ok(r.0.stage@),
    {
        let fetch = DocsFetch { package: package.to_owned(), stage: DocsStage::Direct(0) };
        let url = docs_url(package, direct_candidate(0));
        (fetch, DocsAction::Get(url))
    }

    fn try_direct(&mut self, k: usize) -> (a: DocsAction)
        requires
            k <= direct_candidates().len(),
        ensures
            (final(self)@, a@) == spec_try_direct(old(self)@.package, k),
            stage_ok(final(self).stage@),
    {
        if k < 6 {
            self.stage = DocsStage::Direct(k);
            DocsAction::Get(docs_url(self.package.as_str(), direct_candidate(k)))
        } else {
            self.stage = DocsStage::Page;
            DocsAction::Get(docs_url(self.package.as_str(), "search.html"))
        }
    }

    fn give_up(&mut self) -> (a: DocsAction)
        ensures
            (final(self)@, a@) == spec_give_up(old(self)@.package),
            stage_ok(final(self).stage@),
    {
        self.stage = DocsStage::Finished;
        let mut m = "docs search index not found for '".to_owned();
        m.append(self.package.as_str());
        m.append("' — tried direct candidates and HTML discovery");
        DocsAction::NotFound(m)
    }

    fn json_of(p: SearchPayload) -> (r: String)
        ensures
            r@ == payload_json(p@),
    {
        match p {
            SearchPayload::Json(s) => s,
            SearchPayload::Assignment(s) => s,
        }
    }

    fn try_inline(&mut self, page: String) -> (a: DocsAction)
        ensures
            (final(self)@, a@) == spec_try_inline(old(self)@.package, page@),
            stage_ok(final(self).stage@),
    {
        let kw = chars_of("searchData");
        let pv = chars_of(page.as_str());
        if contains(&pv, &kw) {
            match search_payload(page.as_str()) {
                Some(p) => {
                    self.stage = DocsStage::InlineParse;
                    DocsAction::ParseJson(Self::json_of(p))
                },
                None => self.give_up(),
            }
        } else {
            self.give_up()
        }
    }

    fn found(&mut self, items: Vec<RawSearchItem>) -> (a: DocsAction)
        ensures
            (final(self)@, a@) == found(old(self)@.package, items@),
            stage_ok(final(self).stage@),
    {
        self.stage = DocsStage::Finished;
        let out = map_search_items(items, self.package.as_str());
        let ghost pkg = self.package@;
        assert(out@.map_values(|i: SearchItem| i@) =~= items@.map_values(
            |r: RawSearchItem| spec_map_item(r, pkg),
        ));
        DocsAction::Found(out)
    }

    fn on_page(&mut self, page: String) -> (a: DocsAction)
        ensures
            (final(self)@, a@) == spec_on_page(old(self)@.package, page@),
            stage_ok(final(self).stage@),
    {
        if page.unicode_len() == 0 {
            return self.give_up();
        }
        let page_url = docs_url(self.package.as_str(), "search.html");
        match try_find_search_index_url(page_url.as_str(), page.as_str()) {
            None => {
                self.stage = DocsStage::Finished;
                DocsAction::Abort
            },
            Some(Some(u)) => {
                self.stage = DocsStage::Asset(page);
                DocsAction::Get(u)
            },
            Some(None) => self.try_inline(page),
        }
    }

    /// Hand over what the last action produced; returns what to do next.
    pub fn step(&mut self, ev: DocsEvent) -> (a: DocsAction)
        requires
            stage_ok(old(self).stage@),
            event_fits(old(self).stage@, ev@),
        ensures
            (final(self)@, a@) == spec_docs_step(old(self)@, ev@),
            stage_ok(final(self).stage@),
    {
        let mut stage = DocsStage::Finished;
        std::mem::swap(&mut stage, &mut self.stage);
        match (stage, ev) {
            (DocsStage::Direct(k), DocsEvent::Body(b)) => match b {
                Some(body) => match search_payload(body.as_str()) {
                    Some(p) => {
                        self.stage = DocsStage::DirectParse(k);
                        DocsAction::ParseJson(Self::json_of(p))
                    },
                    None => self.try_direct(k + 1),
                },
                None => self.try_direct(k + 1),
            },
            (DocsStage::DirectParse(k), DocsEvent::Parsed(items)) => match items {
                Some(v) => if v.len() > 0 {
                    self.found(v)
                } else {
                    self.try_direct(k + 1)
                },
                None => self.try_direct(k + 1),
            },
            (DocsStage::Page, DocsEvent::Body(b)) => match b {
                Some(p) => self.on_page(p),
                None => self.on_page(String::new()),
            },
            (DocsStage::Asset(page), DocsEvent::Body(b)) => match b {
                Some(body) => match search_payload(body.as_str()) {
                    Some(p) => {
                        self.stage = DocsStage::AssetParse(page);
                        DocsAction::ParseJson(Self::json_of(p))
                    },
                    None => self.try_inline(page),
                },
                None => self.try_inline(page),
            },
            (DocsStage::AssetParse(page), DocsEvent::Parsed(items)) => match items {
                Some(v) => if v.len() > 0 {
                    self.found(v)
                } else {
                    self.try_inline(page)
                },
                None => self.try_inline(page),
            },
            (DocsStage::InlineParse, DocsEvent::Parsed(items)) => match items {
                Some(v) => if v.len() > 0 {
                    self.found(v)
                } else {
                    self.give_up()
                },
                None => self.give_up(),
            },
            (stage, _) => {
                self.stage = stage;
                DocsAction::Abort
            },
        }
    }
}

// ── Laws ─────────────────────────────────────────────────────────────────────

/// How many steps the search can still take at most.
pub open spec fn steps_left(s: DocsStageModel) -> int {
    match s {
        DocsStageModel::Direct(k) => 20 - 2 * k,
        DocsStageModel::DirectParse(k) => 19 - 2 * k,
        DocsStageModel::Page => 7,
        DocsStageModel::Asset(_) => 6,
        DocsStageModel::AssetParse(_) => 5,
        DocsStageModel::InlineParse => 4,
        DocsStageModel::Finished => 0,
    }
}

/// The search always ends: every step it takes leaves fewer steps to take, and
/// none is left once it has finished.
pub proof fn lemma_docs_search_ends(m: DocsFetchModel, ev: DocsEventModel)
    requires
        stage_ok(m.stage),
        event_fits(m.stage, ev),
    ensures
        0 <= steps_left(spec_docs_step(m, ev).0.stage) < steps_left(m.stage),
        spec_docs_step(m, ev).0.stage is Finished <==> !(spec_docs_step(m, ev).1 is Get
            || spec_docs_step(m, ev).1 is ParseJson),
{
}

/// An index counts as found only when it has at least one entry, and then every
/// entry is the package's.
pub proof fn lemma_docs_found_nonempty(m: DocsFetchModel, ev: DocsEventModel)
    requires
        stage_ok(m.stage),
        event_fits(m.stage, ev),
    ensures
        spec_docs_step(m, ev).1 matches DocsActionModel::Found(items) ==> items.len() > 0 && forall|
            i: int,
        |
            0 <= i < items.len() ==> (#[trigger] items[i]).package == m.package,
{
}

/// The order of the search: a direct candidate that gave nothing (no body, no
/// payload, or no entries) is followed by the next candidate, or by
/// `search.html` after the last one; the search never goes back to a candidate
/// it has passed, nor to the candidates once it has reached the page.
pub proof fn lemma_docs_search_order(m: DocsFetchModel, ev: DocsEventModel)
    requires
        stage_ok(m.stage),
        event_fits(m.stage, ev),
    ensures
        ({
            let (m2, a) = spec_docs_step(m, ev);
            &&& m.stage matches DocsStageModel::Direct(k) ==> (m2.stage matches DocsStageModel::Direct(
                j,
            ) ==> j == k + 1) && (m2.stage matches DocsStageModel::DirectParse(j) ==> j == k)
            &&& m.stage matches DocsStageModel::DirectParse(k) ==> (m2.stage matches DocsStageModel::Direct(
                j,
            ) ==> j == k + 1) && !(m2.stage is DirectParse)
            &&& m.stage matches DocsStageModel::Direct(k) ==> (!(a is ParseJson) ==> a
                == spec_try_direct(m.package, (k + 1) as usize).1)
            &&& m.stage matches DocsStageModel::DirectParse(k) ==> (!(a is Found) ==> a
                == spec_try_direct(m.package, (k + 1) as usize).1)
            &&& !(m.stage is Direct || m.stage is DirectParse) ==> !(m2.stage is Direct
                || m2.stage is DirectParse)
            &&& m2.package == m.package
        }),
{
}

// ── A whole search ───────────────────────────────────────────────────────────

/// The answer the caller owes to `a`, when the web answers `fetch` (the body of a
/// successful response to a URL, `None` when there is none) and deserialising
/// gives `parse`; `None` when `a` ends the search.
pub open spec fn answer(
    a: DocsActionModel,
    fetch: spec_fn(Seq<char>) -> Option<Seq<char>>,
    parse: spec_fn(Seq<char>) -> Option<Seq<RawSearchItem>>,
) -> Option<DocsEventModel> {
    match a {
        DocsActionModel::Get(u) => Some(DocsEventModel::Body(fetch(u))),
        DocsActionModel::ParseJson(j) => Some(DocsEventModel::Parsed(parse(j))),
        _ => None,
    }
}

/// The last action of a search run from `(m, a)` for at most `fuel` steps, each
/// request answered from `fetch` and `parse`.
pub open spec fn run_search(
    m: DocsFetchModel,
    a: DocsActionModel,
    fetch: spec_fn(Seq<char>) -> Option<Seq<char>>,
    parse: spec_fn(Seq<char>) -> Option<Seq<RawSearchItem>>,
    fuel: nat,
) -> DocsActionModel
    decreases fuel,
{
    match answer(a, fetch, parse) {
        Some(ev) => if fuel == 0 {
            a
        } else {
            let (m2, a2) = spec_docs_step(m, ev);
            run_search(m2, a2, fetch, parse, (fuel - 1) as nat)
        },
        None => a,
    }
}

/// The entries a body offers: its payload deserialised, when that gives at least one.
pub open spec fn entries_of(
    body: Option<Seq<char>>,
    parse: spec_fn(Seq<char>) -> Option<Seq<RawSearchItem>>,
) -> Option<Seq<RawSearchItem>> {
    match body {
        Some(b) => match spec_search_payload(b) {
            Some(p) => match parse(payload_json(p)) {
                Some(v) => if v.len() > 0 {
                    Some(v)
                } else {
                    None
                },
                None => None,
            },
            None => None,
        },
        None => None,
    }
}

/// The entries of the `k`-th direct candidate.
pub open spec fn direct_entries(
    package: Seq<char>,
    fetch: spec_fn(Seq<char>) -> Option<Seq<char>>,
    parse: spec_fn(Seq<char>) -> Option<Seq<RawSearchItem>>,
    k: int,
) -> Option<Seq<RawSearchItem>> {
    entries_of(fetch(docs_base(package) + direct_candidates()[k]), parse)
}

/// The entries of the `searchData` that `search.html` embeds.
pub open spec fn inline_entries(
    page: Seq<char>,
    parse: spec_fn(Seq<char>) -> Option<Seq<RawSearchItem>>,
) -> Option<Seq<RawSearchItem>> {
    if contains_seq(page, "searchData"@) {
        entries_of(Some(page), parse)
    } else {
        None
    }
}

/// The outcome once every direct candidate has failed: `search.html` is fetched;
/// without it the search fails; a page whose `src=` scan would stop inside a
/// character aborts; the index the page links is tried, then the data the page
/// embeds; the search fails when neither has entries.
pub open spec fn page_outcome(
    package: Seq<char>,
    fetch: spec_fn(Seq<char>) -> Option<Seq<char>>,
    parse: spec_fn(Seq<char>) -> Option<Seq<RawSearchItem>>,
) -> DocsActionModel {
    let page = match fetch(docs_base(package) + "search.html"@) {
        Some(p) => p,
        None => Seq::empty(),
    };
    let inline = match inline_entries(page, parse) {
        Some(v) => found(package, v).1,
        None => spec_give_up(package).1,
    };
    if page.len() == 0 {
        spec_give_up(package).1
    } else {
        match spec_find_index(docs_base(package) + "search.html"@, page) {
            None => DocsActionModel::Abort,
            Some(Some(u)) => match entries_of(fetch(u), parse) {
                Some(v) => found(package, v).1,
                None => inline,
            },
            Some(None) => inline,
        }
    }
}

/// The outcome from the `k`-th direct candidate on: the first candidate with
/// entries, else the page's outcome.
pub open spec fn direct_outcome(
    package: Seq<char>,
    fetch: spec_fn(Seq<char>) -> Option<Seq<char>>,
    parse: spec_fn(Seq<char>) -> Option<Seq<RawSearchItem>>,
    k: int,
) -> DocsActionModel
    decreases 6 - k,
{
    if 0 <= k < 6 {
        match direct_entries(package, fetch, parse, k) {
            Some(v) => found(package, v).1,
            None => direct_outcome(package, fetch, parse, k + 1),
        }
    } else {
        page_outcome(package, fetch, parse)
    }
}

proof fn lemma_run_inline(
    package: Seq<char>,
    page: Seq<char>,
    fetch: spec_fn(Seq<char>) -> Option<Seq<char>>,
    parse: spec_fn(Seq<char>) -> Option<Seq<RawSearchItem>>,
    fuel: nat,
)
    requires
        fuel >= 2,
    ensures
        ({
            let (m, a) = spec_try_inline(package, page);
            run_search(m, a, fetch, parse, fuel) == match inline_entries(page, parse) {
                Some(v) => found(package, v).1,
                None => spec_give_up(package).1,
            }
        }),
{
    let (m, a) = spec_try_inline(package, page);
    if contains_seq(page, "searchData"@) {
        match spec_search_payload(page) {
            Some(p) => {
                let ev = DocsEventModel::Parsed(parse(payload_json(p)));
                let (m2, a2) = spec_docs_step(m, ev);
                assert(run_search(m, a, fetch, parse, fuel) == run_search(m2, a2, fetch, parse, (fuel - 1) as nat));
            },
            None => {},
        }
    }
}

proof fn lemma_run_page(
    package: Seq<char>,
    fetch: spec_fn(Seq<char>) -> Option<Seq<char>>,
    parse: spec_fn(Seq<char>) -> Option<Seq<RawSearchItem>>,
    fuel: nat,
)
    requires
        fuel >= 6,
    ensures
        ({
            let (m, a) = spec_try_direct(package, 6);
            run_search(m, a, fetch, parse, fuel) == page_outcome(package, fetch, parse)
        }),
{
    let (m, a) = spec_try_direct(package, 6);
    let url = docs_base(package) + "search.html"@;
    let page = match fetch(url) {
        Some(p) => p,
        None => Seq::empty(),
    };
    let (m1, a1) = spec_docs_step(m, DocsEventModel::Body(fetch(url)));
    assert(run_search(m, a, fetch, parse, fuel) == run_search(m1, a1, fetch, parse, (fuel - 1) as nat));
    assert((m1, a1) == spec_on_page(package, page));
    if page.len() > 0 {
        match spec_find_index(url, page) {
            Some(Some(u)) => {
                let f1 = (fuel - 1) as nat;
                let (m2, a2) = spec_docs_step(m1, DocsEventModel::Body(fetch(u)));
                assert(run_search(m1, a1, fetch, parse, f1) == run_search(m2, a2, fetch, parse, (f1 - 1) as nat));
                lemma_run_inline(package, page, fetch, parse, (f1 - 1) as nat);
                lemma_run_inline(package, page, fetch, parse, (f1 - 2) as nat);
                match fetch(u) {
                    Some(body) => match spec_search_payload(body) {
                        Some(p) => {
                            let f2 = (f1 - 1) as nat;
                            let (m3, a3) = spec_docs_step(m2, DocsEventModel::Parsed(parse(payload_json(p))));
                            assert(run_search(m2, a2, fetch, parse, f2) == run_search(m3, a3, fetch, parse, (f2 - 1) as nat));
                        },
                        None => {},
                    },
                    None => {},
                }
            },
            Some(None) => {
                lemma_run_inline(package, page, fetch, parse, (fuel - 1) as nat);
            },
            None => {},
        }
    }
}

proof fn lemma_run_direct(
    package: Seq<char>,
    fetch: spec_fn(Seq<char>) -> Option<Seq<char>>,
    parse: spec_fn(Seq<char>) -> Option<Seq<RawSearchItem>>,
    k: int,
    fuel: nat,
)
    requires
        0 <= k <= 6,
        fuel >= 2 * (6 - k) + 6,
    ensures
        ({
            let (m, a) = spec_try_direct(package, k as usize);
            run_search(m, a, fetch, parse, fuel) == direct_outcome(package, fetch, parse, k)
        }),
    decreases 6 - k,
{
    if k == 6 {
        lemma_run_page(package, fetch, parse, fuel);
    } else {
        let (m, a) = spec_try_direct(package, k as usize);
        let url = docs_base(package) + direct_candidates()[k];
        let (m1, a1) = spec_docs_step(m, DocsEventModel::Body(fetch(url)));
        assert(run_search(m, a, fetch, parse, fuel) == run_search(m1, a1, fetch, parse, (fuel - 1) as nat));
        lemma_run_direct(package, fetch, parse, k + 1, (fuel - 1) as nat);
        lemma_run_direct(package, fetch, parse, k + 1, (fuel - 2) as nat);
        assert(((k + 1) as usize) as int == k + 1);
        match fetch(url) {
            Some(body) => match spec_search_payload(body) {
                Some(p) => {
                    let f1 = (fuel - 1) as nat;
                    let (m2, a2) = spec_docs_step(m1, DocsEventModel::Parsed(parse(payload_json(p))));
                    assert(run_search(m1, a1, fetch, parse, f1) == run_search(m2, a2, fetch, parse, (f1 - 1) as nat));
                },
                None => {},
            },
            None => {},
        }
    }
}

proof fn lemma_direct_outcome_first(
    package: Seq<char>,
    fetch: spec_fn(Seq<char>) -> Option<Seq<char>>,
    parse: spec_fn(Seq<char>) -> Option<Seq<RawSearchItem>>,
    from: int,
)
    requires
        0 <= from <= 6,
    ensures
        forall|k: int|
            from <= k < 6 && (forall|j: int| from <= j < k ==> direct_entries(package, fetch, parse, j) is None)
                ==> match #[trigger] direct_entries(package, fetch, parse, k) {
                Some(v) => direct_outcome(package, fetch, parse, from) == found(package, v).1,
                None => true,
            },
        (forall|j: int| from <= j < 6 ==> direct_entries(package, fetch, parse, j) is None)
            ==> direct_outcome(package, fetch, parse, from) == page_outcome(package, fetch, parse),
    decreases 6 - from,
{
    if from < 6 {
        lemma_direct_outcome_first(package, fetch, parse, from + 1);
        assert forall|k: int|
            from <= k < 6 && (forall|j: int| from <= j < k ==> direct_entries(package, fetch, parse, j) is None)
                implies match #[trigger] direct_entries(package, fetch, parse, k) {
                Some(v) => direct_outcome(package, fetch, parse, from) == found(package, v).1,
                None => true,
            } by {
            if k > from {
                assert(direct_entries(package, fetch, parse, from) is None);
                assert forall|j: int| from + 1 <= j < k implies direct_entries(package, fetch, parse, j) is None by {}
            }
        }
        if forall|j: int| from <= j < 6 ==> direct_entries(package, fetch, parse, j) is None {
            assert(direct_entries(package, fetch, parse, from) is None);
        }
    }
}

/// A whole search for `package`'s index, when each URL asked for answers
/// `fetch` (a successful response's body, `None` for a failed one) and each
/// payload deserialises as `parse` says: the direct candidates are tried in
/// order and the first whose body holds a payload with at least one entry gives
/// the result; when none does, `search.html` decides (see `page_outcome`: the
/// index it links, then the data it embeds, else the search fails). A result with
/// entries always has at least one, and the search ends within twenty steps.
pub proof fn lemma_docs_whole_search(
    package: Seq<char>,
    fetch: spec_fn(Seq<char>) -> Option<Seq<char>>,
    parse: spec_fn(Seq<char>) -> Option<Seq<RawSearchItem>>,
)
    ensures
        ({
            let (m, a) = spec_try_direct(package, 0);
            let r = run_search(m, a, fetch, parse, 20);
            &&& forall|k: int|
                0 <= k < 6 && (forall|j: int| 0 <= j < k ==> direct_entries(package, fetch, parse, j) is None)
                    ==> match #[trigger] direct_entries(package, fetch, parse, k) {
                    Some(v) => r == found(package, v).1,
                    None => true,
                }
            &&& (forall|j: int| 0 <= j < 6 ==> direct_entries(package, fetch, parse, j) is None) ==> r
                == page_outcome(package, fetch, parse)
            &&& r is Found || r is NotFound || r is Abort
            &&& r matches DocsActionModel::Found(items) ==> items.len() > 0
        }),
{
    lemma_run_direct(package, fetch, parse, 0, 20);
    lemma_direct_outcome_first(package, fetch, parse, 0);
    lemma_direct_outcome_shape(package, fetch, parse, 0);
}

proof fn lemma_direct_outcome_shape(
    package: Seq<char>,
    fetch: spec_fn(Seq<char>) -> Option<Seq<char>>,
    parse: spec_fn(Seq<char>) -> Option<Seq<RawSearchItem>>,
    from: int,
)
    requires
        0 <= from <= 6,
    ensures
        ({
            let r = direct_outcome(package, fetch, parse, from);
            &&& r is Found || r is NotFound || r is Abort
            &&& r matches DocsActionModel::Found(items) ==> items.len() > 0
        }),
    decreases 6 - from,
{
    if from < 6 {
        lemma_direct_outcome_shape(package, fetch, parse, from + 1);
    }
}

} // verus!
