//! The GitHub statistics cache: entries stay fresh for six hours and are
//! dropped after seven times that. Reading and writing the cache file is the
//! application's part.

use vstd::prelude::*;
use crate::api::GithubStats;
use crate::strmap::StrMap;
use crate::text::{string_from_chars, decimal_chars, chars_of};

verus! {

/// Stats stay fresh for 6 h; after that a re-fetch is due.
pub const TTL_SECS: u64 = 6 * 3600;

/// Entries older than 7 × TTL are dropped on every write.
pub const PRUNE_SECS: u64 = TTL_SECS * 7;

/// One cached GitHub record.
#[derive(Debug, Clone, Copy, PartialEq, Eq, Structural)]
pub struct CachedEntry {
    pub stars: u32,
    pub forks: u32,
    pub issues: u32,
    /// Unix time (seconds) of the fetch.
    pub cached_at: u64,
}

/// Seconds from `then` to `now`, 0 when `then` is later (saturating subtraction).
pub open spec fn elapsed(now: u64, then: u64) -> u64 {
    if now >= then {
        (now - then) as u64
    } else {
        0
    }
}

/// The system clock, in whole seconds since the Unix epoch (0 for a clock set
/// before it): `SystemTime::now().duration_since(UNIX_EPOCH)`, as seconds.
/// Nothing is promised of the value: it depends on the machine's clock.
#[verifier::external_body]
fn unix_now() -> (r: u64) {
    std::time::SystemTime::now().duration_since(std::time::UNIX_EPOCH).map(|d| d.as_secs()).unwrap_or(0)
}

fn seconds_since(now: u64, then: u64) -> (r: u64)
    ensures
        r == elapsed(now, then),
{
    if now >= then {
        now - then
    } else {
        0
    }
}

impl CachedEntry {
    pub open spec fn spec_fresh_at(self, now: u64) -> bool {
        elapsed(now, self.cached_at) < TTL_SECS
    }

    /// `"just now"`, `"42m ago"`, `"3h ago"` for the age at time `now`.
    pub open spec fn spec_age_label(self, now: u64) -> Seq<char> {
        let s = elapsed(now, self.cached_at);
        if s < 60 {
            "just now"@
        } else if s < 3600 {
            crate::text::decimal((s / 60) as nat) + "m ago"@
        } else {
            crate::text::decimal((s / 3600) as nat) + "h ago"@
        }
    }

    /// The entry for stats fetched at `now`.
    pub open spec fn spec_from_stats(stats: GithubStats, now: u64) -> CachedEntry {
        CachedEntry { stars: stats.stars, forks: stats.forks, issues: stats.issues, cached_at: now }
    }

    /// Whether the entry is within the TTL at time `now`.
    pub fn is_fresh_at(&self, now: u64) -> (r: bool)
        ensures
            r == self.spec_fresh_at(now),
    {
        seconds_since(now, self.cached_at) < TTL_SECS
    }

    /// Whether the entry is within the TTL now (by the system clock).
    pub fn is_fresh(&self) -> (r: bool)
        ensures
            exists|now: u64| r == self.spec_fresh_at(now),
    {
        let now = unix_now();
        self.is_fresh_at(now)
    }

    /// Human-readable age at time `now`.
    pub fn age_label_at(&self, now: u64) -> (r: String)
        ensures
            r@ == self.spec_age_label(now),
    {
        let secs = seconds_since(now, self.cached_at);
        if secs < 60 {
            "just now".to_owned()
        } else if secs < 3600 {
            let mut v = decimal_chars(secs / 60);
            let mut tail = chars_of("m ago");
            v.append(&mut tail);
            string_from_chars(&v)
        } else {
            let mut v = decimal_chars(secs / 3600);
            let mut tail = chars_of("h ago");
            v.append(&mut tail);
            string_from_chars(&v)
        }
    }

    /// Human-readable age now: "just now", "42m ago", "3h ago".
    pub fn age_label(&self) -> (r: String)
        ensures
            exists|now: u64| r@ == self.spec_age_label(now),
    {
        let now = unix_now();
        self.age_label_at(now)
    }

    /// The entry for `stats` fetched at `now`.
    pub fn from_stats(stats: &GithubStats, now: u64) -> (r: CachedEntry)
        ensures
            r == CachedEntry::spec_from_stats(*stats, now),
    {
        CachedEntry { stars: stats.stars, forks: stats.forks, issues: stats.issues, cached_at: now }
    }
}

/// Repository URL → cached record.
pub type CacheMap = StrMap<CachedEntry>;

/// Whether a package's cached documentation search items, written at
/// `cached_at`, are still served at `now` under a time-to-live of `ttl_hours`
/// (`0` turns the cache off).
pub open spec fn spec_docs_fresh(cached_at: u64, now: u64, ttl_hours: u32) -> bool {
    ttl_hours > 0 && elapsed(now, cached_at) < ttl_hours * 3600
}

/// See `spec_docs_fresh`.
pub fn docs_fresh(cached_at: u64, now: u64, ttl_hours: u32) -> (r: bool)
    ensures
        r == spec_docs_fresh(cached_at, now, ttl_hours),
{
    ttl_hours > 0 && seconds_since(now, cached_at) < ttl_hours as u64 * 3600
}

/// `m` without the entries older than `PRUNE_SECS` at time `now`.
pub open spec fn pruned(m: Map<Seq<char>, CachedEntry>, now: u64) -> Map<Seq<char>, CachedEntry> {
    m.restrict(m.dom().filter(|k: Seq<char>| elapsed(now, m[k].cached_at) < PRUNE_SECS))
}

/// `r` is the entry for `url` when it is fresh at time `now`, else `None`.
pub open spec fn fresh_lookup(
    m: Map<Seq<char>, CachedEntry>,
    url: Seq<char>,
    now: u64,
    r: Option<&CachedEntry>,
) -> bool {
    match r {
        Some(e) => m.contains_key(url) && *e == m[url] && e.spec_fresh_at(now),
        None => !m.contains_key(url) || !m[url].spec_fresh_at(now),
    }
}

/// The entry for `repo_url` if it is fresh at time `now`.
pub fn get_fresh_at<'a>(map: &'a CacheMap, repo_url: &str, now: u64) -> (r: Option<&'a CachedEntry>)
    ensures
        fresh_lookup(map@, repo_url@, now, r),
{
    match map.get(repo_url) {
        Some(e) => if e.is_fresh_at(now) {
            Some(e)
        } else {
            None
        },
        None => None,
    }
}

/// The entry for `repo_url` if it is still fresh (by the system clock).
pub fn get_fresh<'a>(map: &'a CacheMap, repo_url: &str) -> (r: Option<&'a CachedEntry>)
    ensures
        exists|now: u64| #[trigger] fresh_lookup(map@, repo_url@, now, r),
{
    let now = unix_now();
    let r = get_fresh_at(map, repo_url, now);
    assert(fresh_lookup(map@, repo_url@, now, r));
    r
}

/// The entry for `repo_url`, fresh or not.
pub fn get_any<'a>(map: &'a CacheMap, repo_url: &str) -> (r: Option<&'a CachedEntry>)
    ensures
        match r {
            Some(e) => map@.contains_key(repo_url@) && *e == map@[repo_url@],
            None => !map@.contains_key(repo_url@),
        },
{
    map.get(repo_url)
}

/// Store `stats` for `repo_url` as fetched at `now`, then drop entries older than `PRUNE_SECS`.
pub fn insert_at(map: &mut CacheMap, repo_url: String, stats: &GithubStats, now: u64)
    ensures
        final(map)@ == pruned(
            old(map)@.insert(repo_url@, CachedEntry::spec_from_stats(*stats, now)),
            now,
        ),
{
    let entry = CachedEntry::from_stats(stats, now);
    map.insert(repo_url, entry);
    let keep = |e: &CachedEntry| -> (b: bool)
        ensures
            b == (elapsed(now, e.cached_at) < PRUNE_SECS),
        { seconds_since(now, e.cached_at) < PRUNE_SECS };
    let ghost m = map@;
    map.retain(keep, Ghost(|e: CachedEntry| elapsed(now, e.cached_at) < PRUNE_SECS));
    assert(map@ =~= pruned(m, now));
}

/// Store freshly fetched `stats` for `repo_url` (by the system clock) and prune old
/// entries. Writing the cache file afterwards is the caller's part.
pub fn insert(map: &mut CacheMap, repo_url: String, stats: &GithubStats)
    ensures
        exists|now: u64|
            final(map)@ == pruned(
                old(map)@.insert(repo_url@, CachedEntry::spec_from_stats(*stats, now)),
                now,
            ),
{
    let now = unix_now();
    insert_at(map, repo_url, stats, now);
}

/// What one write gives back: right after `insert_at`, the entry for the URL is the new
/// one, and it is fresh.
pub proof fn lemma_insert_then_get(
    m: Map<Seq<char>, CachedEntry>,
    url: Seq<char>,
    stats: GithubStats,
    now: u64,
)
    ensures
        pruned(m.insert(url, CachedEntry::spec_from_stats(stats, now)), now).contains_key(url),
        pruned(m.insert(url, CachedEntry::spec_from_stats(stats, now)), now)[url]
            == CachedEntry::spec_from_stats(stats, now),
        CachedEntry::spec_from_stats(stats, now).spec_fresh_at(now),
{
    let m2 = m.insert(url, CachedEntry::spec_from_stats(stats, now));
    assert(m2.dom().filter(|k: Seq<char>| elapsed(now, m2[k].cached_at) < PRUNE_SECS).contains(url));
}

/// A fresh entry is also returned when freshness does not matter.
pub proof fn lemma_fresh_implies_any(m: Map<Seq<char>, CachedEntry>, url: Seq<char>, now: u64)
    requires
        m.contains_key(url),
        m[url].spec_fresh_at(now),
    ensures
        elapsed(now, m[url].cached_at) < PRUNE_SECS,
        pruned(m, now).contains_key(url),
{
    assert(m.dom().filter(|k: Seq<char>| elapsed(now, m[k].cached_at) < PRUNE_SECS).contains(url));
}

/// What an entry's age label says at time `now` (a clock behind the fetch counts
/// as no time passed): under a minute, `just now`; under an hour, the whole
/// minutes passed, then `m ago`; from an hour on, the whole hours passed, then
/// `h ago`. The entry is fresh exactly while less than six hours have passed.
pub proof fn lemma_age_label_law(e: CachedEntry, now: u64)
    ensures
        ({
            let s: int = if now >= e.cached_at {
                now - e.cached_at
            } else {
                0
            };
            &&& s < 60 ==> e.spec_age_label(now) == "just now"@
            &&& 60 <= s < 3600 ==> exists|m: nat|
                #![trigger crate::text::decimal(m)]
                1 <= m < 60 && m * 60 <= s < m * 60 + 60 && e.spec_age_label(now) == crate::text::decimal(m)
                    + "m ago"@
            &&& 3600 <= s ==> exists|h: nat|
                #![trigger crate::text::decimal(h)]
                1 <= h && h * 3600 <= s < h * 3600 + 3600 && e.spec_age_label(now) == crate::text::decimal(
                    h,
                ) + "h ago"@
            &&& e.spec_fresh_at(now) <==> s < 6 * 3600
        }),
{
    let s = elapsed(now, e.cached_at);
    if 60 <= s < 3600 {
        let m = (s / 60) as nat;
        assert(m * 60 <= s < m * 60 + 60) by (nonlinear_arith)
            requires
                m == s / 60,
                s >= 0,
        ;
        assert(crate::text::decimal(m) == crate::text::decimal(m));
    }
    if 3600 <= s {
        let h = (s / 3600) as nat;
        assert(h * 3600 <= s < h * 3600 + 3600) by (nonlinear_arith)
            requires
                h == s / 3600,
                s >= 0,
        ;
        assert(crate::text::decimal(h) == crate::text::decimal(h));
    }
}

} // verus!
