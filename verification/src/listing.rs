//! The session cache of package listings, keyed by query, sort parameter,
//! language and page, so that going back to a listing shows it at once.

use vstd::prelude::*;
use crate::api::{clone_packages, models, Package, PackageModel};
use crate::text::{chars_eq, chars_of};
use crate::types::Language;

verus! {

/// What identifies a listing: the trimmed query, the sort parameter, the language
/// and the page.
pub type ListingKey = (Seq<char>, Seq<char>, Language, u32);

/// One cached listing.
pub struct Listing {
    pub query: String,
    pub sort: String,
    pub language: Language,
    pub page: u32,
    pub packages: Vec<Package>,
    pub has_more: bool,
}

impl Listing {
    pub open spec fn key(self) -> ListingKey {
        (self.query@, self.sort@, self.language, self.page)
    }

    pub open spec fn value(self) -> (Seq<PackageModel>, bool) {
        (models(self.packages@), self.has_more)
    }
}

/// The map a list of entries describes: each entry stores its listing under its
/// key, later entries replacing earlier ones.
pub open spec fn listing_map(s: Seq<Listing>) -> Map<ListingKey, (Seq<PackageModel>, bool)>
    decreases s.len(),
{
    if s.len() == 0 {
        Map::empty()
    } else {
        listing_map(s.drop_last()).insert(s.last().key(), s.last().value())
    }
}

/// The entry at `j` is the last one with key `k` (`j == -1`: there is none), so it
/// is what the map holds under `k`.
proof fn lemma_listing_map_last(s: Seq<Listing>, k: ListingKey, j: int)
    requires
        -1 <= j < s.len(),
        j >= 0 ==> s[j].key() == k,
        forall|i: int| j < i < s.len() ==> (#[trigger] s[i]).key() != k,
    ensures
        j < 0 ==> !listing_map(s).contains_key(k),
        j >= 0 ==> listing_map(s).contains_key(k) && listing_map(s)[k] == s[j].value(),
    decreases s.len(),
{
    if s.len() > 0 && j < s.len() - 1 {
        assert(s.last() == s[s.len() - 1]);
        let t = s.drop_last();
        assert forall|i: int| j < i < t.len() implies (#[trigger] t[i]).key() != k by {
            assert(t[i] == s[i]);
        }
        lemma_listing_map_last(t, k, j);
        if j >= 0 {
            assert(t[j] == s[j]);
        }
    }
}

/// Listings by key.
pub struct ListingCache {
    entries: Vec<Listing>,
}

impl View for ListingCache {
    type V = Map<ListingKey, (Seq<PackageModel>, bool)>;

    closed spec fn view(&self) -> Map<ListingKey, (Seq<PackageModel>, bool)> {
        listing_map(self.entries@)
    }
}

impl ListingCache {
    pub fn new() -> (r: ListingCache)
        ensures
            r@ == Map::<ListingKey, (Seq<PackageModel>, bool)>::empty(),
    {
        ListingCache { entries: Vec::new() }
    }

    /// Forget every listing.
    pub fn clear(&mut self)
        ensures
            final(self)@ == Map::<ListingKey, (Seq<PackageModel>, bool)>::empty(),
    {
        self.entries = Vec::new();
    }

    /// Store `packages` and `has_more` under the key, replacing what it held.
    pub fn insert(
        &mut self,
        query: String,
        sort: String,
        language: Language,
        page: u32,
        packages: Vec<Package>,
        has_more: bool,
    )
        ensures
            final(self)@ == old(self)@.insert(
                (query@, sort@, language, page),
                (models(packages@), has_more),
            ),
    {
        let ghost before = self.entries@;
        self.entries.push(Listing { query, sort, language, page, packages, has_more });
        assert(self.entries@.drop_last() =~= before);
    }

    /// A copy of the listing stored under the key, if any.
    pub fn get(&self, query: &str, sort: &str, language: Language, page: u32) -> (r: Option<
        (Vec<Package>, bool),
    >)
        ensures
            match r {
                Some(l) => self@.contains_key((query@, sort@, language, page)) && self@[(
                    query@,
                    sort@,
                    language,
                    page,
                )] == (models(l.0@), l.1),
                None => !self@.contains_key((query@, sort@, language, page)),
            },
    {
        let ghost k: ListingKey = (query@, sort@, language, page);
        let q = chars_of(query);
        let s = chars_of(sort);
        let mut i: usize = self.entries.len();
        while i > 0
            invariant
                i <= self.entries@.len(),
                q@ == query@,
                s@ == sort@,
                k == (query@, sort@, language, page),
                forall|j: int| i <= j < self.entries@.len() ==> (#[trigger] self.entries@[j]).key() != k,
            decreases i,
        {
            let e = &self.entries[i - 1];
            if e.language == language && e.page == page && chars_eq(&chars_of(e.query.as_str()), &q)
                && chars_eq(&chars_of(e.sort.as_str()), &s) {
                proof {
                    lemma_listing_map_last(self.entries@, k, i - 1);
                }
                return Some((clone_packages(&e.packages), e.has_more));
            }
            i = i - 1;
        }
        proof {
            lemma_listing_map_last(self.entries@, k, -1);
        }
        None
    }
}

} // verus!
