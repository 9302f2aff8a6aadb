//! The janitor: which entries of a directory are removed, given the names
//! that are in use.

use crate::recipe::{pkgbuild_views, Pkgbuild, PkgbuildModel};
use crate::seqs::lemma_filter_members;
use crate::text::{excluding, sort_strings, sorted, str_views, strings_excluding};
use vstd::prelude::*;

verus! {

/// The entries that are removed: those whose name is not in use, in order.
pub open spec fn unused(entries: Seq<Seq<char>>, used: Seq<Seq<char>>) -> Seq<Seq<char>> {
    excluding(entries, used)
}

/// The entries that stay: those whose name is in use, in order.
pub open spec fn remaining(entries: Seq<Seq<char>>, used: Seq<Seq<char>>) -> Seq<Seq<char>> {
    entries.filter(|e: Seq<char>| used.contains(e))
}

/// The direct children of a directory that the janitor removes: every one
/// whose name is not among the used names.
pub fn unused_entries(entries: &Vec<String>, used: &Vec<String>) -> (removed: Vec<String>)
    ensures
        str_views(removed@) == unused(str_views(entries@), str_views(used@)),
{
    strings_excluding(entries, used)
}

/// Janitor safety. After a sweep over a directory, the entries that remain
/// are the entries that were there and are in use; what was removed was
/// there and is not in use; nothing else changes.
pub proof fn lemma_janitor_safety(entries: Seq<Seq<char>>, used: Seq<Seq<char>>)
    ensures
        forall|x: Seq<char>| #[trigger]
            remaining(entries, used).contains(x) <==> (entries.contains(x) && used.contains(x)),
        forall|x: Seq<char>| #[trigger]
            unused(entries, used).contains(x) <==> (entries.contains(x) && !used.contains(x)),
        remaining(entries, used).to_set() == entries.to_set().intersect(used.to_set()),
        remaining(entries, used).len() + unused(entries, used).len() == entries.len(),
{
    let keep = |e: Seq<char>| used.contains(e);
    let drop = |e: Seq<char>| !used.contains(e);
    assert forall|x: Seq<char>| #[trigger]
        remaining(entries, used).contains(x) <==> (entries.contains(x) && used.contains(x)) by {
        lemma_filter_members(entries, keep, x);
    }
    assert forall|x: Seq<char>| #[trigger]
        unused(entries, used).contains(x) <==> (entries.contains(x) && !used.contains(x)) by {
        lemma_filter_members(entries, drop, x);
    }
    assert(remaining(entries, used).to_set() =~= entries.to_set().intersect(used.to_set()));
    lemma_split_len(entries, used);
}

proof fn lemma_split_len(entries: Seq<Seq<char>>, used: Seq<Seq<char>>)
    ensures
        remaining(entries, used).len() + unused(entries, used).len() == entries.len(),
    decreases entries.len(),
{
    let keep = |e: Seq<char>| used.contains(e);
    let drop = |e: Seq<char>| !used.contains(e);
    if entries.len() == 0 {
        assert(entries.filter(keep) =~= Seq::<Seq<char>>::empty()) by {
            entries.lemma_filter_len(keep);
        }
        assert(entries.filter(drop) =~= Seq::<Seq<char>>::empty()) by {
            entries.lemma_filter_len(drop);
        }
    } else {
        let front = entries.drop_last();
        lemma_split_len(front, used);
        assert(entries =~= front.push(entries.last()));
        front.lemma_filter_push(entries.last(), keep);
        front.lemma_filter_push(entries.last(), drop);
    }
}

/// The names of the recipes, in order: what is in use in the cache of
/// recipe repositories.
pub open spec fn names_of(s: Seq<PkgbuildModel>) -> Seq<Seq<char>> {
    Seq::new(s.len(), |i: int| s[i].name)
}

/// The names of the recipes of this run.
pub fn recipe_names(pkgbuilds: &Vec<Pkgbuild>) -> (names: Vec<String>)
    ensures
        str_views(names@) == names_of(pkgbuild_views(pkgbuilds@)),
{
    let mut names: Vec<String> = Vec::new();
    let mut i: usize = 0;
    while i < pkgbuilds.len()
        invariant
            i <= pkgbuilds.len(),
            str_views(names@) == names_of(pkgbuild_views(pkgbuilds@)).take(i as int),
        decreases pkgbuilds.len() - i,
    {
        let ghost before = str_views(names@);
        names.push(pkgbuilds[i].name.clone());
        assert(str_views(names@) =~= before.push(pkgbuilds@[i as int]@.name));
        assert(str_views(names@) =~= names_of(pkgbuild_views(pkgbuilds@)).take(i as int + 1));
        i += 1;
    }
    assert(names_of(pkgbuild_views(pkgbuilds@)).take(pkgbuilds.len() as int) =~= names_of(
        pkgbuild_views(pkgbuilds@),
    ));
    names
}

/// What is in use under the output root: the package identifiers of the
/// recipes and the two views.
pub open spec fn pkgdir_names_of(s: Seq<PkgbuildModel>) -> Seq<Seq<char>> {
    Seq::new(s.len(), |i: int| s[i].pkgid) + seq!["updated"@, "latest"@]
}

/// The names in use under the output root, in ascending order.
pub fn used_pkgdir_names(pkgbuilds: &Vec<Pkgbuild>) -> (used: Vec<String>)
    ensures
        sorted(str_views(used@)),
        str_views(used@).to_multiset() == pkgdir_names_of(pkgbuild_views(pkgbuilds@)).to_multiset(),
{
    let ghost ids = Seq::new(pkgbuilds@.len(), |i: int| pkgbuild_views(pkgbuilds@)[i].pkgid);
    let mut used: Vec<String> = Vec::new();
    let mut i: usize = 0;
    while i < pkgbuilds.len()
        invariant
            i <= pkgbuilds.len(),
            ids == Seq::new(pkgbuilds@.len(), |i: int| pkgbuild_views(pkgbuilds@)[i].pkgid),
            str_views(used@) == ids.take(i as int),
        decreases pkgbuilds.len() - i,
    {
        let ghost before = str_views(used@);
        used.push(pkgbuilds[i].pkgid.clone());
        assert(str_views(used@) =~= before.push(pkgbuilds@[i as int]@.pkgid));
        assert(str_views(used@) =~= ids.take(i as int + 1));
        i += 1;
    }
    let ghost before = str_views(used@);
    used.push(String::from_str("updated"));
    used.push(String::from_str("latest"));
    proof {
        assert(ids.take(pkgbuilds.len() as int) =~= ids);
        assert(str_views(used@) =~= pkgdir_names_of(pkgbuild_views(pkgbuilds@)));
    }
    sort_strings(used)
}

/// The views are never removed from the output root, and neither is the
/// package directory of a recipe of this run.
pub proof fn lemma_views_are_kept(s: Seq<PkgbuildModel>, entries: Seq<Seq<char>>, i: int)
    ensures
        !unused(entries, pkgdir_names_of(s)).contains("updated"@),
        !unused(entries, pkgdir_names_of(s)).contains("latest"@),
        0 <= i < s.len() ==> !unused(entries, pkgdir_names_of(s)).contains(s[i].pkgid),
{
    let used = pkgdir_names_of(s);
    lemma_janitor_safety(entries, used);
    assert(used[s.len() as int] == "updated"@);
    assert(used[s.len() as int + 1] == "latest"@);
    if 0 <= i < s.len() {
        assert(used[i] == s[i].pkgid);
    }
}

} // verus!
