//! Starred packages: package name → language. Persisting them is the
//! application's part.

use vstd::prelude::*;
use crate::strmap::StrMap;
use crate::api::{models, Package, PackageModel};
use crate::types::Language;

verus! {

/// `package_name → Language`.
pub type Favorites = StrMap<Language>;

/// The favourites after toggling `name`: removed when starred, else added with `language`.
pub open spec fn spec_toggle(m: Map<Seq<char>, Language>, name: Seq<char>, language: Language) -> Map<
    Seq<char>,
    Language,
> {
    if m.contains_key(name) {
        m.remove(name)
    } else {
        m.insert(name, language)
    }
}

/// Toggle `name` (storing its `language`). Returns whether it is now starred.
pub fn toggle(favs: &mut Favorites, name: &str, language: Language) -> (r: bool)
    ensures
        final(favs)@ == spec_toggle(old(favs)@, name@, language),
        r == !old(favs)@.contains_key(name@),
        r == final(favs)@.contains_key(name@),
{
    if favs.contains_key(name) {
        favs.remove(name);
        false
    } else {
        favs.insert(name.to_owned(), language);
        true
    }
}

/// Toggling twice restores the favourites, unless the package was starred under
/// another language (the second toggle stores the language it is given).
pub proof fn lemma_toggle_twice(m: Map<Seq<char>, Language>, name: Seq<char>, language: Language)
    requires
        m.contains_key(name) ==> m[name] == language,
    ensures
        spec_toggle(spec_toggle(m, name, language), name, language) == m,
{
    if m.contains_key(name) {
        assert(spec_toggle(spec_toggle(m, name, language), name, language) =~= m);
    } else {
        assert(spec_toggle(spec_toggle(m, name, language), name, language) =~= m);
    }
}

/// A fetched package labelled with the language it was starred under, if starred.
pub open spec fn spec_relabel(p: PackageModel, favs: Map<Seq<char>, Language>) -> PackageModel {
    if favs.contains_key(p.name) {
        PackageModel { language: favs[p.name], ..p }
    } else {
        p
    }
}

/// Label each starred package with the language it was starred under (the
/// by-name listing does not always say which it is).
pub fn apply_languages(pkgs: Vec<Package>, favs: &Favorites) -> (r: Vec<Package>)
    ensures
        models(r@) == models(pkgs@).map_values(|p: PackageModel| spec_relabel(p, favs@)),
{
    let mut out: Vec<Package> = Vec::new();
    let mut i: usize = 0;
    while i < pkgs.len()
        invariant
            i <= pkgs@.len(),
            models(out@) == models(pkgs@).take(i as int).map_values(
                |p: PackageModel| spec_relabel(p, favs@),
            ),
        decreases pkgs@.len() - i,
    {
        let mut p = pkgs[i].duplicate();
        match favs.get(p.name.as_str()) {
            Some(l) => {
                p.language = *l;
            },
            None => {},
        }
        let ghost before = out@;
        out.push(p);
        assert(models(out@) =~= models(before).push(p@));
        assert(models(pkgs@).take(i + 1).map_values(|p: PackageModel| spec_relabel(p, favs@))
            =~= models(pkgs@).take(i as int).map_values(|p: PackageModel| spec_relabel(p, favs@)).push(
            spec_relabel(models(pkgs@)[i as int], favs@),
        ));
        i = i + 1;
    }
    assert(models(pkgs@).take(i as int) =~= models(pkgs@));
    out
}

} // verus!
