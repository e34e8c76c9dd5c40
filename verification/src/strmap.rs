//! A finite map keyed by strings, kept as a list of entries with distinct keys.
//! Its view is a `Map` from the keys' characters to the values.

use vstd::prelude::*;
use crate::text::{chars_eq, chars_of};

verus! {

/// The map an entry list denotes (a later entry for a key overrides an earlier one).
pub open spec fn map_of<T>(s: Seq<(String, T)>) -> Map<Seq<char>, T>
    decreases s.len(),
{
    if s.len() == 0 {
        Map::empty()
    } else {
        map_of(s.drop_last()).insert(s.last().0@, s.last().1)
    }
}

/// No two entries have the same key.
pub open spec fn unique_keys<T>(s: Seq<(String, T)>) -> bool {
    forall|i: int, j: int| 0 <= i < s.len() && 0 <= j < s.len() && i != j ==> s[i].0@ != s[j].0@
}

pub proof fn lemma_map_of_contains<T>(s: Seq<(String, T)>, k: Seq<char>)
    ensures
        map_of(s).contains_key(k) <==> exists|i: int| 0 <= i < s.len() && s[i].0@ == k,
    decreases s.len(),
{
    if s.len() > 0 {
        lemma_map_of_contains(s.drop_last(), k);
        if exists|i: int| 0 <= i < s.len() && s[i].0@ == k {
            let i = choose|i: int| 0 <= i < s.len() && s[i].0@ == k;
            if i < s.len() - 1 {
                assert(s.drop_last()[i].0@ == k);
            }
        }
        if exists|i: int| 0 <= i < s.drop_last().len() && s.drop_last()[i].0@ == k {
            let i = choose|i: int| 0 <= i < s.drop_last().len() && s.drop_last()[i].0@ == k;
            assert(s[i].0@ == k);
        }
    }
}

pub proof fn lemma_map_of_index<T>(s: Seq<(String, T)>, i: int)
    requires
        unique_keys(s),
        0 <= i < s.len(),
    ensures
        map_of(s).contains_key(s[i].0@),
        map_of(s)[s[i].0@] == s[i].1,
    decreases s.len(),
{
    if i < s.len() - 1 {
        let p = s.drop_last();
        assert(p[i] == s[i]);
        assert(unique_keys(p));
        lemma_map_of_index(p, i);
        assert(s.last().0@ != s[i].0@);
    }
}

pub proof fn lemma_map_of_len<T>(s: Seq<(String, T)>)
    requires
        unique_keys(s),
    ensures
        map_of(s).dom().finite(),
        map_of(s).dom().len() == s.len(),
    decreases s.len(),
{
    if s.len() > 0 {
        let p = s.drop_last();
        assert(unique_keys(p));
        lemma_map_of_len(p);
        lemma_map_of_contains(p, s.last().0@);
        if map_of(p).contains_key(s.last().0@) {
            let i = choose|i: int| 0 <= i < p.len() && p[i].0@ == s.last().0@;
            assert(s[i].0@ == s[s.len() - 1].0@);
        }
    }
}

/// Replacing the value of entry `i` updates that key.
pub proof fn lemma_map_of_update<T>(s: Seq<(String, T)>, i: int, v: T)
    requires
        unique_keys(s),
        0 <= i < s.len(),
    ensures
        unique_keys(s.update(i, (s[i].0, v))),
        map_of(s.update(i, (s[i].0, v))) == map_of(s).insert(s[i].0@, v),
    decreases s.len(),
{
    let t = s.update(i, (s[i].0, v));
    assert forall|a: int, b: int| 0 <= a < t.len() && 0 <= b < t.len() && a != b implies t[a].0@
        != t[b].0@ by {
        assert(t[a].0 == s[a].0);
        assert(t[b].0 == s[b].0);
    }
    if i == s.len() - 1 {
        assert(t.drop_last() =~= s.drop_last());
        assert(map_of(t) =~= map_of(s).insert(s[i].0@, v));
    } else {
        let p = s.drop_last();
        assert(unique_keys(p));
        lemma_map_of_update(p, i, v);
        assert(t.drop_last() =~= p.update(i, (p[i].0, v)));
        assert(s.last().0@ != s[i].0@);
        assert(map_of(t) =~= map_of(s).insert(s[i].0@, v));
    }
}

/// Removing entry `i` removes its key.
pub proof fn lemma_map_of_remove<T>(s: Seq<(String, T)>, i: int)
    requires
        unique_keys(s),
        0 <= i < s.len(),
    ensures
        unique_keys(s.remove(i)),
        map_of(s.remove(i)) == map_of(s).remove(s[i].0@),
    decreases s.len(),
{
    let t = s.remove(i);
    assert forall|a: int, b: int| 0 <= a < t.len() && 0 <= b < t.len() && a != b implies t[a].0@
        != t[b].0@ by {
        let a2 = if a < i { a } else { a + 1 };
        let b2 = if b < i { b } else { b + 1 };
        assert(t[a] == s[a2]);
        assert(t[b] == s[b2]);
    }
    if i == s.len() - 1 {
        assert(t =~= s.drop_last());
        lemma_map_of_contains(s.drop_last(), s[i].0@);
        if map_of(s.drop_last()).contains_key(s[i].0@) {
            let j = choose|j: int| 0 <= j < s.drop_last().len() && s.drop_last()[j].0@ == s[i].0@;
            assert(s[j].0@ == s[i].0@);
        }
        assert(map_of(t) =~= map_of(s).remove(s[i].0@));
    } else {
        let p = s.drop_last();
        assert(unique_keys(p));
        lemma_map_of_remove(p, i);
        assert(t.drop_last() =~= p.remove(i));
        assert(t.last() == s.last());
        assert(s.last().0@ != s[i].0@);
        assert(map_of(t) =~= map_of(s).remove(s[i].0@));
    }
}

/// A map from strings to values.
pub struct StrMap<T> {
    entries: Vec<(String, T)>,
}

impl<T> View for StrMap<T> {
    type V = Map<Seq<char>, T>;

    closed spec fn view(&self) -> Map<Seq<char>, T> {
        map_of(self.entries@)
    }
}

impl<T> StrMap<T> {
    #[verifier::type_invariant]
    closed spec fn inv(self) -> bool {
        unique_keys(self.entries@)
    }

    pub fn new() -> (r: StrMap<T>)
        ensures
            r@ == Map::<Seq<char>, T>::empty(),
    {
        StrMap { entries: Vec::new() }
    }

    /// Number of keys.
    pub fn len(&self) -> (r: usize)
        ensures
            self@.dom().finite(),
            r == self@.dom().len(),
    {
        proof {
            use_type_invariant(self);
            lemma_map_of_len(self.entries@);
        }
        self.entries.len()
    }

    /// Whether the map has no key.
    pub fn is_empty(&self) -> (r: bool)
        ensures
            r <==> self@ == Map::<Seq<char>, T>::empty(),
    {
        proof {
            use_type_invariant(self);
            if self.entries@.len() > 0 {
                lemma_map_of_contains(self.entries@, self.entries@[0].0@);
            } else {
                assert(self@ =~= Map::<Seq<char>, T>::empty());
            }
        }
        self.entries.len() == 0
    }

    /// Position of the entry with key `k`.
    fn find(&self, k: &[char]) -> (r: Option<usize>)
        ensures
            match r {
                Some(i) => i < self.entries@.len() && self.entries@[i as int].0@ == k@,
                None => forall|i: int|
                    0 <= i < self.entries@.len() ==> self.entries@[i].0@ != k@,
            },
    {
        let mut i: usize = 0;
        while i < self.entries.len()
            invariant
                i <= self.entries@.len(),
                forall|j: int| 0 <= j < i ==> self.entries@[j].0@ != k@,
            decreases self.entries@.len() - i,
        {
            if chars_eq(&chars_of(self.entries[i].0.as_str()), k) {
                return Some(i);
            }
            i = i + 1;
        }
        None
    }

    /// The value under `k`, if any.
    pub fn get(&self, k: &str) -> (r: Option<&T>)
        ensures
            match r {
                Some(v) => self@.contains_key(k@) && *v == self@[k@],
                None => !self@.contains_key(k@),
            },
    {
        proof {
            use_type_invariant(self);
            lemma_map_of_contains(self.entries@, k@);
        }
        match self.find(&chars_of(k)) {
            Some(i) => {
                proof {
                    lemma_map_of_index(self.entries@, i as int);
                }
                Some(&self.entries[i].1)
            },
            None => None,
        }
    }

    pub fn contains_key(&self, k: &str) -> (r: bool)
        ensures
            r == self@.contains_key(k@),
    {
        match self.get(k) {
            Some(_) => true,
            None => false,
        }
    }

    /// Insert or replace the value under `k`.
    pub fn insert(&mut self, k: String, v: T)
        ensures
            final(self)@ == old(self)@.insert(k@, v),
    {
        proof {
            use_type_invariant(&*self);
        }
        let kc = chars_of(k.as_str());
        match self.find(&kc) {
            Some(i) => {
                let ghost s = self.entries@;
                proof {
                    lemma_map_of_update(s, i as int, v);
                }
                let mut entries: Vec<(String, T)> = Vec::new();
                std::mem::swap(&mut entries, &mut self.entries);
                let (key, _old) = entries.remove(i);
                entries.insert(i, (key, v));
                assert(entries@ =~= s.update(i as int, (s[i as int].0, v)));
                self.entries = entries;
            },
            None => {
                let ghost s = self.entries@;
                let mut entries: Vec<(String, T)> = Vec::new();
                std::mem::swap(&mut entries, &mut self.entries);
                entries.push((k, v));
                assert(entries@.drop_last() =~= s);
                assert forall|a: int, b: int|
                    0 <= a < entries@.len() && 0 <= b < entries@.len() && a != b implies entries@[a].0@
                    != entries@[b].0@ by {
                    if a < s.len() && b < s.len() {
                        assert(entries@[a] == s[a]);
                        assert(entries@[b] == s[b]);
                    } else if a < s.len() {
                        assert(entries@[a] == s[a]);
                    } else {
                        assert(entries@[b] == s[b]);
                    }
                }
                self.entries = entries;
            },
        }
    }

    /// Remove the entry under `k` (if any).
    pub fn remove(&mut self, k: &str)
        ensures
            final(self)@ == old(self)@.remove(k@),
    {
        proof {
            use_type_invariant(&*self);
            lemma_map_of_contains(self.entries@, k@);
        }
        match self.find(&chars_of(k)) {
            Some(i) => {
                let ghost s = self.entries@;
                proof {
                    lemma_map_of_remove(s, i as int);
                }
                let mut entries: Vec<(String, T)> = Vec::new();
                std::mem::swap(&mut entries, &mut self.entries);
                let _removed = entries.remove(i);
                self.entries = entries;
            },
            None => {
                assert(old(self)@ =~= old(self)@.remove(k@));
            },
        }
    }

    /// Remove every entry.
    pub fn clear(&mut self)
        ensures
            final(self)@ == Map::<Seq<char>, T>::empty(),
    {
        self.entries = Vec::new();
    }

    /// The keys, each once, in unspecified order.
    pub fn keys(&self) -> (r: Vec<String>)
        ensures
            forall|k: Seq<char>| self@.contains_key(k) <==> exists|i: int|
                0 <= i < r@.len() && r@[i]@ == k,
            forall|i: int, j: int| 0 <= i < r@.len() && 0 <= j < r@.len() && i != j ==> r@[i]@
                != r@[j]@,
    {
        proof {
            use_type_invariant(self);
        }
        let mut out: Vec<String> = Vec::new();
        let mut i: usize = 0;
        while i < self.entries.len()
            invariant
                i <= self.entries@.len(),
                unique_keys(self.entries@),
                out@.len() == i,
                forall|j: int| 0 <= j < i ==> #[trigger] out@[j]@ == self.entries@[j].0@,
            decreases self.entries@.len() - i,
        {
            out.push(self.entries[i].0.clone());
            i = i + 1;
        }
        proof {
            assert forall|k: Seq<char>| self@.contains_key(k) <==> exists|i: int|
                0 <= i < out@.len() && out@[i]@ == k by {
                lemma_map_of_contains(self.entries@, k);
                if self@.contains_key(k) {
                    let i = choose|i: int| 0 <= i < self.entries@.len() && self.entries@[i].0@ == k;
                    assert(out@[i]@ == k);
                }
            }
        }
        out
    }

    /// The entries, keys distinct, in unspecified order.
    pub fn entries(&self) -> (r: &Vec<(String, T)>)
        ensures
            map_of(r@) == self@,
            unique_keys(r@),
    {
        proof {
            use_type_invariant(self);
        }
        &self.entries
    }

    /// Keep the entries whose value satisfies `keep` (which computes `pred`).
    pub fn retain<F: Fn(&T) -> bool>(&mut self, keep: F, Ghost(pred): Ghost<spec_fn(T) -> bool>)
        requires
            forall|t: &T| #[trigger] keep.requires((t,)),
            forall|t: &T, b: bool| keep.ensures((t,), b) ==> b == pred(*t),
        ensures
            final(self)@ == old(self)@.restrict(old(self)@.dom().filter(|k: Seq<char>| pred(old(self)@[k]))),
    {
        proof {
            use_type_invariant(&*self);
        }
        let ghost s = self.entries@;
        let ghost m = map_of(s);
        let mut rest: Vec<(String, T)> = Vec::new();
        std::mem::swap(&mut rest, &mut self.entries);
        let _n = rest.len();
        let mut out: Vec<(String, T)> = Vec::new();
        let mut k: usize = 0;
        assert(s.skip(0) =~= s);
        assert(s.take(0) =~= Seq::<(String, T)>::empty());
        assert(map_of(out@) =~= map_of(s.take(0)).restrict(map_of(s.take(0)).dom().filter(
            |q: Seq<char>| pred(map_of(s.take(0))[q]),
        )));
        while rest.len() > 0
            invariant
                k + rest@.len() == s.len(),
                s.len() <= usize::MAX,
                rest@ == s.skip(k as int),
                unique_keys(s),
                m == map_of(s),
                forall|t: &T| #[trigger] keep.requires((t,)),
                forall|t: &T, b: bool| keep.ensures((t,), b) ==> b == pred(*t),
                unique_keys(out@),
                forall|j: int| 0 <= j < out@.len() ==> exists|i: int| 0 <= i < k && #[trigger] out@[j].0@ == s[i].0@,
                map_of(out@) == map_of(s.take(k as int)).restrict(
                    map_of(s.take(k as int)).dom().filter(|q: Seq<char>| pred(map_of(s.take(k as int))[q])),
                ),
            decreases rest@.len(),
        {
            let e = rest.remove(0);
            assert(rest@ =~= s.skip(k + 1));
            assert(s[k as int] == e);
            let ghost p = s.take(k as int);
            let ghost mp = map_of(p);
            assert(s.take(k + 1).drop_last() =~= p);
            assert(s.take(k + 1).last() == e);
            proof {
                lemma_map_of_contains(p, e.0@);
                if mp.contains_key(e.0@) {
                    let i = choose|i: int| 0 <= i < p.len() && p[i].0@ == e.0@;
                    assert(s[i].0@ == s[k as int].0@);
                }
            }
            let ghost mk = map_of(s.take(k + 1));
            assert(mk == mp.insert(e.0@, e.1));
            let ghost o = out@;
            let b = keep(&e.1);
            if b {
                out.push(e);
                proof {
                    assert(out@.drop_last() =~= o);
                    assert forall|a: int, c: int|
                        0 <= a < out@.len() && 0 <= c < out@.len() && a != c implies out@[a].0@
                        != out@[c].0@ by {
                        if a < o.len() && c == o.len() {
                            assert(out@[a] == o[a]);
                            let i = choose|i: int| 0 <= i < k && o[a].0@ == s[i].0@;
                            assert(s[i].0@ != s[k as int].0@);
                        } else if c < o.len() && a == o.len() {
                            assert(out@[c] == o[c]);
                            let i = choose|i: int| 0 <= i < k && o[c].0@ == s[i].0@;
                            assert(s[i].0@ != s[k as int].0@);
                        } else {
                            assert(out@[a] == o[a]);
                            assert(out@[c] == o[c]);
                        }
                    }
                    assert forall|j: int| 0 <= j < out@.len() implies exists|i: int|
                        0 <= i < k + 1 && #[trigger] out@[j].0@ == s[i].0@ by {
                        if j < o.len() {
                            assert(out@[j] == o[j]);
                            let i = choose|i: int| 0 <= i < k && o[j].0@ == s[i].0@;
                            assert(out@[j].0@ == s[i].0@);
                        } else {
                            assert(out@[j].0@ == s[k as int].0@);
                        }
                    }
                    assert(map_of(out@) =~= mk.restrict(mk.dom().filter(|q: Seq<char>| pred(mk[q]))));
                }
            } else {
                proof {
                    assert forall|j: int| 0 <= j < out@.len() implies exists|i: int|
                        0 <= i < k + 1 && #[trigger] out@[j].0@ == s[i].0@ by {
                        let i = choose|i: int| 0 <= i < k && out@[j].0@ == s[i].0@;
                        assert(out@[j].0@ == s[i].0@);
                    }
                    assert(map_of(out@) =~= mk.restrict(mk.dom().filter(|q: Seq<char>| pred(mk[q]))));
                }
            }
            k = k + 1;
        }
        assert(s.take(k as int) =~= s);
        self.entries = out;
    }
}

impl<T: Copy> StrMap<T> {
    /// An independent copy of the map.
    pub fn duplicate(&self) -> (r: StrMap<T>)
        ensures
            r@ == self@,
    {
        proof {
            use_type_invariant(self);
        }
        let mut out: Vec<(String, T)> = Vec::new();
        let mut i: usize = 0;
        while i < self.entries.len()
            invariant
                i <= self.entries@.len(),
                out@ == self.entries@.take(i as int),
            decreases self.entries@.len() - i,
        {
            out.push((self.entries[i].0.clone(), self.entries[i].1));
            assert(out@ =~= self.entries@.take(i + 1));
            i = i + 1;
        }
        assert(out@ =~= self.entries@);
        StrMap { entries: out }
    }
}

} // verus!
