//! The manifest: which recipes a run works on, and the settings it runs with.

use crate::recipe::{fresh_pkgbuild, pkgbuild_views, Pkgbuild, PkgbuildModel};
use crate::text::{
    contains_str, lex_le, lex_lt, models, names, of_name, opt_view, pair_views, sort_by_name,
    str_views,
};
use vstd::prelude::*;

verus! {

/// Why a manifest could not be used.
#[derive(Clone, Copy, Debug, PartialEq, Eq, Structural)]
pub enum ConfigError {
    /// The text is no YAML mapping from names to URLs.
    Malformed,
}

/// The error of the YAML parser.
#[verifier::external_type_specification]
#[verifier::external_body]
pub struct ExYamlError(serde_yaml::Error);

/// The packages that count as installed when a configuration names none.
pub fn default_basepkgs() -> (pkgs: Vec<String>)
    ensures
        str_views(pkgs@) == seq!["base-devel"@],
{
    let mut pkgs: Vec<String> = Vec::new();
    pkgs.push(String::from_str("base-devel"));
    assert(str_views(pkgs@) =~= seq!["base-devel"@]);
    pkgs
}

/// The fresh recipes of a sequence of entries, in the same order.
pub open spec fn fresh_pkgbuilds(entries: Seq<(Seq<char>, Seq<char>)>) -> Seq<PkgbuildModel> {
    Seq::new(entries.len(), |i: int| fresh_pkgbuild(entries[i].0, entries[i].1))
}

/// No two entries have the same name.
pub open spec fn names_distinct(entries: Seq<(Seq<char>, Seq<char>)>) -> bool {
    forall|i: int, j: int|
        0 <= i < entries.len() && 0 <= j < entries.len() && i != j ==> (#[trigger] entries[i]).0
            != (#[trigger] entries[j]).0
}

/// The entries are the pairs of the mapping, each once, in some order.
pub open spec fn enumerates(
    entries: Seq<(Seq<char>, Seq<char>)>,
    mapping: Map<Seq<char>, Seq<char>>,
) -> bool {
    &&& names_distinct(entries)
    &&& forall|i: int|
        0 <= i < entries.len() ==> mapping.contains_pair(
            (#[trigger] entries[i]).0,
            entries[i].1,
        )
    &&& forall|name: Seq<char>| #[trigger]
        mapping.dom().contains(name) ==> exists|i: int|
            0 <= i < entries.len() && (#[trigger] entries[i]).0 == name
}

/// What `serde_yaml::from_str` reads from a text as a mapping from strings to
/// strings: `None` where it reports an error.
pub uninterp spec fn yaml_string_map(text: Seq<char>) -> Option<Map<Seq<char>, Seq<char>>>;

/// Calls `serde_yaml::from_str` for a `HashMap<String, String>` and hands the
/// pairs out as a vector. Trusted: whether the parser accepts the text, and
/// which mapping it reads, depend on the text alone; the pairs come in the
/// order in which the hash map is walked, which is not stated, each key once.
#[verifier::external_body]
fn parse_yaml_string_map(text: &str) -> (parsed: Result<Vec<(String, String)>, serde_yaml::Error>)
    ensures
        parsed is Ok <==> yaml_string_map(text@) is Some,
        parsed matches Ok(entries) ==> enumerates(
            pair_views(entries@),
            yaml_string_map(text@)->0,
        ),
{
    let map: std::collections::HashMap<String, String> = serde_yaml::from_str(text)?;
    Ok(map.into_iter().collect())
}

/// The recipes stand in ascending order of their names.
pub open spec fn sorted_by_name(s: Seq<PkgbuildModel>) -> bool {
    forall|i: int, j: int|
        0 <= i < j < s.len() ==> lex_le((#[trigger] s[i]).name, (#[trigger] s[j]).name)
}

/// The recipes stand in strictly ascending order of their names, so no name
/// occurs twice.
pub open spec fn strictly_sorted_by_name(s: Seq<PkgbuildModel>) -> bool {
    forall|i: int, j: int|
        0 <= i < j < s.len() ==> lex_lt((#[trigger] s[i]).name, (#[trigger] s[j]).name)
}

/// One fresh recipe for each entry, sorted by name; recipes of one name
/// keep the order of their entries.
pub fn pkgbuilds_from_entries(entries: &Vec<(String, String)>) -> (out: Vec<Pkgbuild>)
    ensures
        sorted_by_name(pkgbuild_views(out@)),
        pkgbuild_views(out@).to_multiset() == fresh_pkgbuilds(pair_views(entries@)).to_multiset(),
        forall|name: Seq<char>| #[trigger]
            of_name::<Pkgbuild>(pkgbuild_views(out@), name) == of_name::<Pkgbuild>(
                fresh_pkgbuilds(pair_views(entries@)),
                name,
            ),
{
    let ghost fresh = fresh_pkgbuilds(pair_views(entries@));
    let mut unsorted: Vec<Pkgbuild> = Vec::new();
    let mut i: usize = 0;
    while i < entries.len()
        invariant
            i <= entries.len(),
            fresh == fresh_pkgbuilds(pair_views(entries@)),
            pkgbuild_views(unsorted@) == fresh.take(i as int),
        decreases entries.len() - i,
    {
        let ghost before = pkgbuild_views(unsorted@);
        unsorted.push(Pkgbuild::new(entries[i].0.clone(), entries[i].1.clone()));
        assert(pkgbuild_views(unsorted@) =~= before.push(fresh[i as int]));
        assert(pkgbuild_views(unsorted@) =~= fresh.take(i as int + 1));
        i += 1;
    }
    proof {
        assert(fresh.take(entries.len() as int) =~= fresh);
        assert(pkgbuild_views(unsorted@) =~= models(unsorted@));
    }
    let out = sort_by_name(unsorted);
    proof {
        let sorted_models = pkgbuild_views(out@);
        assert(sorted_models =~= models(out@));
        let keys = names::<Pkgbuild>(models(out@));
        assert forall|p: int, q: int| 0 <= p < q < sorted_models.len() implies lex_le(
            (#[trigger] sorted_models[p]).name,
            (#[trigger] sorted_models[q]).name,
        ) by {
            assert(lex_le(keys[p], keys[q]));
        }
    }
    out
}

/// The recipes are those of the mapping: one fresh recipe for each name, with
/// the URL that the mapping gives it, in strictly ascending order of the names.
pub open spec fn recipes_of_map(s: Seq<PkgbuildModel>, mapping: Map<Seq<char>, Seq<char>>) -> bool {
    &&& strictly_sorted_by_name(s)
    &&& forall|i: int|
        0 <= i < s.len() ==> mapping.dom().contains((#[trigger] s[i]).name) && s[i]
            == fresh_pkgbuild(s[i].name, mapping[s[i].name])
    &&& forall|name: Seq<char>| #[trigger]
        mapping.dom().contains(name) ==> exists|i: int|
            0 <= i < s.len() && (#[trigger] s[i]).name == name
}

/// Sorted fresh recipes of entries that enumerate a mapping are the recipes
/// of that mapping.
pub proof fn lemma_sorted_entries_are_recipes(
    s: Seq<PkgbuildModel>,
    entries: Seq<(Seq<char>, Seq<char>)>,
    mapping: Map<Seq<char>, Seq<char>>,
)
    requires
        sorted_by_name(s),
        s.to_multiset() == fresh_pkgbuilds(entries).to_multiset(),
        enumerates(entries, mapping),
    ensures
        recipes_of_map(s, mapping),
{
    let fresh = fresh_pkgbuilds(entries);
    assert forall|x: PkgbuildModel| s.contains(x) <==> fresh.contains(x) by {
        vstd::seq_lib::to_multiset_contains(s, x);
        vstd::seq_lib::to_multiset_contains(fresh, x);
    }
    assert(fresh.no_duplicates()) by {
        assert forall|i: int, j: int|
            0 <= i < fresh.len() && 0 <= j < fresh.len() && i != j implies fresh[i] != fresh[j] by {
            assert(entries[i].0 != entries[j].0);
        }
    }
    fresh.lemma_multiset_has_no_duplicates();
    s.lemma_multiset_has_no_duplicates_conv();
    assert forall|i: int| 0 <= i < s.len() implies mapping.dom().contains((#[trigger] s[i]).name)
        && s[i] == fresh_pkgbuild(s[i].name, mapping[s[i].name]) by {
        assert(s.contains(s[i]));
        let k = choose|k: int| 0 <= k < fresh.len() && fresh[k] == s[i];
        assert(mapping.contains_pair(entries[k].0, entries[k].1));
    }
    assert forall|name: Seq<char>| #[trigger] mapping.dom().contains(name) implies exists|i: int|
        0 <= i < s.len() && (#[trigger] s[i]).name == name by {
        let k = choose|k: int| 0 <= k < entries.len() && (#[trigger] entries[k]).0 == name;
        assert(fresh[k].name == name);
        assert(fresh.contains(fresh[k]));
        let i = choose|i: int| 0 <= i < s.len() && s[i] == fresh[k];
        assert(s[i].name == name);
    }
    assert forall|p: int, q: int| 0 <= p < q < s.len() implies lex_lt(
        (#[trigger] s[p]).name,
        (#[trigger] s[q]).name,
    ) by {
        assert(lex_le(s[p].name, s[q].name));
        if s[p].name == s[q].name {
            assert(s[p] == fresh_pkgbuild(s[p].name, mapping[s[p].name]));
            assert(s[q] == fresh_pkgbuild(s[q].name, mapping[s[q].name]));
            assert(s[p] == s[q]);
        }
    }
}

/// Turns what the parser gave into recipes: a parser error becomes
/// [`ConfigError::Malformed`], entries become fresh recipes sorted by name.
pub fn pkgbuilds_from_parsed(parsed: Result<Vec<(String, String)>, serde_yaml::Error>) -> (out:
    Result<Vec<Pkgbuild>, ConfigError>)
    ensures
        parsed is Err ==> out == Err::<Vec<Pkgbuild>, ConfigError>(ConfigError::Malformed),
        parsed matches Ok(entries) ==> out matches Ok(v) && sorted_by_name(pkgbuild_views(v@))
            && pkgbuild_views(v@).to_multiset() == fresh_pkgbuilds(
            pair_views(entries@),
        ).to_multiset(),
{
    match parsed {
        Ok(entries) => Ok(pkgbuilds_from_entries(&entries)),
        Err(_) => Err(ConfigError::Malformed),
    }
}

/// Reads a manifest, a YAML mapping from recipe names to URLs, into recipes
/// sorted by name. Fails exactly where the parser rejects the text.
pub fn read_pkgbuilds_yaml(text: &str) -> (out: Result<Vec<Pkgbuild>, ConfigError>)
    ensures
        yaml_string_map(text@) is None ==> out == Err::<Vec<Pkgbuild>, ConfigError>(
            ConfigError::Malformed,
        ),
        yaml_string_map(text@) matches Some(mapping) ==> out matches Ok(v) && recipes_of_map(
            pkgbuild_views(v@),
            mapping,
        ),
{
    let parsed = parse_yaml_string_map(text);
    proof {
        if parsed is Ok {
            let entries = parsed->Ok_0;
            let fresh = fresh_pkgbuilds(pair_views(entries@));
            assert forall|s: Seq<PkgbuildModel>|
                sorted_by_name(s) && s.to_multiset() == fresh.to_multiset() implies recipes_of_map(
                s,
                yaml_string_map(text@)->0,
            ) by {
                lemma_sorted_entries_are_recipes(
                    s,
                    pair_views(entries@),
                    yaml_string_map(text@)->0,
                );
            }
        }
    }
    pkgbuilds_from_parsed(parsed)
}

/// The entries that a run restricted to the names in `only` works on: all of
/// them where `only` is empty, else those whose name `only` holds, in order.
pub open spec fn restricted(entries: Seq<(Seq<char>, Seq<char>)>, only: Seq<Seq<char>>) -> Seq<
    (Seq<char>, Seq<char>),
> {
    if only.len() == 0 {
        entries
    } else {
        entries.filter(|e: (Seq<char>, Seq<char>)| only.contains(e.0))
    }
}

/// Restricts the manifest entries to the recipe names given on the command
/// line, if any were given.
pub fn restrict_entries(entries: &Vec<(String, String)>, only: &Vec<String>) -> (out: Vec<
    (String, String),
>)
    ensures
        pair_views(out@) == restricted(pair_views(entries@), str_views(only@)),
{
    let ghost keep = |e: (Seq<char>, Seq<char>)| str_views(only@).contains(e.0);
    let all = only.len() == 0;
    let mut out: Vec<(String, String)> = Vec::new();
    let mut i: usize = 0;
    proof {
        assert(pair_views(entries@).take(0) =~= Seq::<(Seq<char>, Seq<char>)>::empty());
        assert(pair_views(out@) =~= pair_views(entries@).take(0));
        assert(pair_views(out@) =~= pair_views(entries@).take(0).filter(keep));
    }
    while i < entries.len()
        invariant
            i <= entries.len(),
            all == (only@.len() == 0),
            keep == |e: (Seq<char>, Seq<char>)| str_views(only@).contains(e.0),
            all ==> pair_views(out@) == pair_views(entries@).take(i as int),
            !all ==> pair_views(out@) == pair_views(entries@).take(i as int).filter(keep),
        decreases entries.len() - i,
    {
        let ghost before = pair_views(out@);
        let ghost head = pair_views(entries@).take(i as int);
        let ghost item = (entries@[i as int].0@, entries@[i as int].1@);
        proof {
            assert(pair_views(entries@).take(i as int + 1) =~= head.push(item));
            head.lemma_filter_push(item, keep);
        }
        if all || contains_str(only, entries[i].0.as_str()) {
            out.push((entries[i].0.clone(), entries[i].1.clone()));
            assert(pair_views(out@) =~= before.push(item));
        }
        i += 1;
    }
    assert(pair_views(entries@).take(entries.len() as int) =~= pair_views(entries@));
    out
}

/// The switches and addresses that a run is steered by, as the command line
/// or the configuration file gives them.
#[derive(Clone, Debug, PartialEq, Eq)]
pub struct Settings {
    /// Do not update recipe repositories that are healthy.
    pub holdpkg: bool,
    /// Do not update git sources that are present.
    pub holdgit: bool,
    /// Skip the integrity check of network files that are present.
    pub skipint: bool,
    /// Prepare, but do not build.
    pub nobuild: bool,
    /// Leave unused cache entries and outdated packages alone.
    pub noclean: bool,
    /// Build without network access.
    pub nonet: bool,
    /// The proxy to retry a failed fetch through.
    pub proxy: Option<String>,
    /// The prefix of a git mirror.
    pub gmr: Option<String>,
    /// The key to sign artifacts with.
    pub sign: Option<String>,
}

/// The mathematical value of [`Settings`].
pub struct SettingsModel {
    pub holdpkg: bool,
    pub holdgit: bool,
    pub skipint: bool,
    pub nobuild: bool,
    pub noclean: bool,
    pub nonet: bool,
    pub proxy: Option<Seq<char>>,
    pub gmr: Option<Seq<char>>,
    pub sign: Option<Seq<char>>,
}

impl View for Settings {
    type V = SettingsModel;

    open spec fn view(&self) -> SettingsModel {
        SettingsModel {
            holdpkg: self.holdpkg,
            holdgit: self.holdgit,
            skipint: self.skipint,
            nobuild: self.nobuild,
            noclean: self.noclean,
            nonet: self.nonet,
            proxy: opt_view(self.proxy),
            gmr: opt_view(self.gmr),
            sign: opt_view(self.sign),
        }
    }
}

/// The first value where there is one, else the second.
pub open spec fn first_some(a: Option<Seq<char>>, b: Option<Seq<char>>) -> Option<Seq<char>> {
    if a is Some {
        a
    } else {
        b
    }
}

/// The settings in force: a switch is on where the command line or the file
/// turns it on; an address is the command line's where it gives one, else the
/// file's.
pub open spec fn merged(cli: SettingsModel, file: SettingsModel) -> SettingsModel {
    SettingsModel {
        holdpkg: cli.holdpkg || file.holdpkg,
        holdgit: cli.holdgit || file.holdgit,
        skipint: cli.skipint || file.skipint,
        nobuild: cli.nobuild || file.nobuild,
        noclean: cli.noclean || file.noclean,
        nonet: cli.nonet || file.nonet,
        proxy: first_some(cli.proxy, file.proxy),
        gmr: first_some(cli.gmr, file.gmr),
        sign: first_some(cli.sign, file.sign),
    }
}

fn pick(a: Option<String>, b: Option<String>) -> (r: Option<String>)
    ensures
        opt_view(r) == first_some(opt_view(a), opt_view(b)),
{
    match a {
        Some(text) => Some(text),
        None => b,
    }
}

/// Combines the settings of the command line with those of the file.
pub fn merge_settings(cli: Settings, file: Settings) -> (out: Settings)
    ensures
        out@ == merged(cli@, file@),
{
    Settings {
        holdpkg: cli.holdpkg || file.holdpkg,
        holdgit: cli.holdgit || file.holdgit,
        skipint: cli.skipint || file.skipint,
        nobuild: cli.nobuild || file.nobuild,
        noclean: cli.noclean || file.noclean,
        nonet: cli.nonet || file.nonet,
        proxy: pick(cli.proxy, file.proxy),
        gmr: pick(cli.gmr, file.gmr),
        sign: pick(cli.sign, file.sign),
    }
}

} // verus!
