//! Recipes: the unit of work of a run, and the identifiers derived from them.

use crate::source::{
    first_occurrences_by_kind, source_views, unique_sources, Source, SourceModel,
};
use crate::text::{concat2, concat3, Named};
use vstd::prelude::*;

verus! {

/// The number of bytes of a revision identifier.
pub const COMMIT_BYTES: usize = 20;

/// The revision of a recipe tree: twenty bytes, written as forty hex digits.
#[derive(Clone, Copy, Debug, PartialEq, Eq)]
pub struct Commit {
    pub bytes: [u8; COMMIT_BYTES],
}

/// The lower-case hexadecimal digit of a value below sixteen.
pub open spec fn hex_digit(n: int) -> char {
    if n < 10 {
        (n + 0x30) as u8 as char
    } else {
        (n - 10 + 0x61) as u8 as char
    }
}

/// The bytes written as lower-case hexadecimal digits, two for each byte.
pub open spec fn hex_of(bytes: Seq<u8>) -> Seq<char>
    decreases bytes.len(),
{
    if bytes.len() == 0 {
        Seq::<char>::empty()
    } else {
        hex_of(bytes.drop_last()) + seq![
            hex_digit(bytes.last() as int / 16),
            hex_digit(bytes.last() as int % 16),
        ]
    }
}

/// Hexadecimal text has two digits for each byte.
pub proof fn lemma_hex_len(bytes: Seq<u8>)
    ensures
        hex_of(bytes).len() == 2 * bytes.len(),
    decreases bytes.len(),
{
    if bytes.len() > 0 {
        lemma_hex_len(bytes.drop_last());
    }
}

fn hex_digit_str(d: u8) -> (s: &'static str)
    requires
        d < 16,
    ensures
        s@ == seq![hex_digit(d as int)],
{
    proof {
        reveal_strlit("0123456789abcdef");
    }
    let digits: &'static str = "0123456789abcdef";
    let s = digits.substring_ascii(d as usize, d as usize + 1);
    assert(s@ =~= seq![hex_digit(d as int)]);
    s
}

impl Commit {
    /// The revision of a recipe that has not been synced yet: all zero.
    pub fn zero() -> (c: Commit)
        ensures
            c.bytes@ == Seq::new(COMMIT_BYTES as nat, |i: int| 0u8),
    {
        let c = Commit { bytes: [0u8; COMMIT_BYTES] };
        assert(c.bytes@ =~= Seq::new(COMMIT_BYTES as nat, |i: int| 0u8));
        c
    }

    /// The revision with the given bytes.
    pub fn from_bytes(bytes: [u8; COMMIT_BYTES]) -> (c: Commit)
        ensures
            c.bytes == bytes,
    {
        Commit { bytes }
    }

    /// The forty hex digits of the revision.
    pub open spec fn hex(&self) -> Seq<char> {
        hex_of(self.bytes@)
    }

    /// Writes the revision as forty lower-case hex digits.
    pub fn to_hex(&self) -> (s: String)
        ensures
            s@ == self.hex(),
            s@.len() == 2 * COMMIT_BYTES,
    {
        let mut s = String::new();
        let mut i: usize = 0;
        assert(self.bytes@.take(0) =~= Seq::<u8>::empty());
        while i < COMMIT_BYTES
            invariant
                i <= COMMIT_BYTES,
                s@ == hex_of(self.bytes@.take(i as int)),
            decreases COMMIT_BYTES - i,
        {
            let b = self.bytes[i];
            let ghost next = self.bytes@.take(i as int + 1);
            proof {
                assert(next.drop_last() =~= self.bytes@.take(i as int));
                assert(next.last() == b);
            }
            s.append(hex_digit_str(b / 16));
            s.append(hex_digit_str(b % 16));
            assert(s@ =~= hex_of(next));
            i += 1;
        }
        proof {
            assert(self.bytes@.take(COMMIT_BYTES as int) =~= self.bytes@);
            lemma_hex_len(self.bytes@);
        }
        s
    }
}

/// How a recipe gets its upstream version.
#[derive(Clone, Debug, PartialEq, Eq)]
pub enum Pkgver {
    /// The version is fixed in the recipe.
    Plain,
    /// The recipe computes its version; `pkgver` is what it computed.
    Func { pkgver: String },
}

impl View for Pkgver {
    type V = Option<Seq<char>>;

    open spec fn view(&self) -> Option<Seq<char>> {
        match self {
            Pkgver::Plain => None,
            Pkgver::Func { pkgver } => Some(pkgver@),
        }
    }
}

impl Pkgver {
    /// A second value with the same view.
    pub fn duplicate(&self) -> (p: Pkgver)
        ensures
            p@ == self@,
    {
        match self {
            Pkgver::Plain => Pkgver::Plain,
            Pkgver::Func { pkgver } => Pkgver::Func { pkgver: pkgver.clone() },
        }
    }
}

/// A recipe and what the run has learnt of it so far.
#[derive(Clone, Debug, PartialEq, Eq)]
pub struct Pkgbuild {
    /// The short name, unique within a run.
    pub name: String,
    /// Where the recipe tree is fetched from.
    pub url: String,
    /// The scratch directory of the build.
    pub build: String,
    /// The bare repository of the recipe tree.
    pub git: String,
    /// The package identifier, empty until assigned.
    pub pkgid: String,
    /// The directory the artifacts are published in.
    pub pkgdir: String,
    /// The revision of the recipe tree.
    pub commit: Commit,
    /// The version mode.
    pub pkgver: Pkgver,
    /// Whether the tree is to be, or has been, extracted into `build`.
    pub extract: bool,
    /// The sources that the recipe declares, in order.
    pub sources: Vec<Source>,
}

/// The mathematical value of a [`Pkgbuild`].
pub struct PkgbuildModel {
    pub name: Seq<char>,
    pub url: Seq<char>,
    pub build: Seq<char>,
    pub git: Seq<char>,
    pub pkgid: Seq<char>,
    pub pkgdir: Seq<char>,
    pub commit: Seq<u8>,
    pub pkgver: Option<Seq<char>>,
    pub extract: bool,
    pub sources: Seq<SourceModel>,
}

impl View for Pkgbuild {
    type V = PkgbuildModel;

    open spec fn view(&self) -> PkgbuildModel {
        PkgbuildModel {
            name: self.name@,
            url: self.url@,
            build: self.build@,
            git: self.git@,
            pkgid: self.pkgid@,
            pkgdir: self.pkgdir@,
            commit: self.commit.bytes@,
            pkgver: self.pkgver@,
            extract: self.extract,
            sources: source_views(self.sources@),
        }
    }
}

impl Named for Pkgbuild {
    open spec fn name_of(model: PkgbuildModel) -> Seq<char> {
        model.name
    }

    fn name(&self) -> (n: &str) {
        self.name.as_str()
    }
}

/// The values of a sequence of recipes.
pub open spec fn pkgbuild_views(v: Seq<Pkgbuild>) -> Seq<PkgbuildModel> {
    Seq::new(v.len(), |i: int| v[i]@)
}

/// The directory under which every package directory lies.
pub open spec fn output_root() -> Seq<char> {
    "pkgs"@
}

/// The recipe as it is when the manifest has just been read: its paths are
/// derived from the name, nothing else is known yet.
pub open spec fn fresh_pkgbuild(name: Seq<char>, url: Seq<char>) -> PkgbuildModel {
    PkgbuildModel {
        name,
        url,
        build: "build/"@ + name,
        git: "sources/PKGBUILD/"@ + name,
        pkgid: Seq::<char>::empty(),
        pkgdir: output_root(),
        commit: Seq::new(COMMIT_BYTES as nat, |i: int| 0u8),
        pkgver: None,
        extract: false,
        sources: Seq::<SourceModel>::empty(),
    }
}

/// The package identifier: name and revision, and the computed version where
/// the recipe has one, joined by hyphens.
pub open spec fn pkg_id_of(name: Seq<char>, commit: Seq<u8>, pkgver: Option<Seq<char>>) -> Seq<
    char,
> {
    let fixed = name + seq!['-'] + hex_of(commit);
    match pkgver {
        None => fixed,
        Some(version) => fixed + seq!['-'] + version,
    }
}

/// The directory in which the artifacts of a package identifier are published.
pub open spec fn output_dir_of(root: Seq<char>, pkgid: Seq<char>) -> Seq<char> {
    root + seq!['/'] + pkgid
}

/// The identifier is a function of name, revision and version mode alone:
/// recipes that agree on these get the same identifier and the same
/// directory, whatever else differs and in whichever run.
pub proof fn lemma_pkg_id_deterministic(a: PkgbuildModel, b: PkgbuildModel)
    requires
        a.name == b.name,
        a.commit == b.commit,
        a.pkgver == b.pkgver,
    ensures
        pkg_id_of(a.name, a.commit, a.pkgver) == pkg_id_of(b.name, b.commit, b.pkgver),
        output_dir_of(output_root(), pkg_id_of(a.name, a.commit, a.pkgver)) == output_dir_of(
            output_root(),
            pkg_id_of(b.name, b.commit, b.pkgver),
        ),
{
}

impl Pkgbuild {
    /// The recipe of a manifest entry.
    pub fn new(name: String, url: String) -> (p: Pkgbuild)
        ensures
            p@ == fresh_pkgbuild(name@, url@),
    {
        let build = concat2("build/", name.as_str());
        let git = concat2("sources/PKGBUILD/", name.as_str());
        let p = Pkgbuild {
            name,
            url,
            build,
            git,
            pkgid: String::new(),
            pkgdir: String::from_str("pkgs"),
            commit: Commit::zero(),
            pkgver: Pkgver::Plain,
            extract: false,
            sources: Vec::new(),
        };
        assert(p@.sources =~= Seq::<SourceModel>::empty());
        p
    }

    /// Where the recipe tree is fetched from.
    pub fn url(&self) -> (u: &str)
        ensures
            u@ == self@.url,
    {
        self.url.as_str()
    }

    /// The bare repository of the recipe tree.
    pub fn path(&self) -> (p: Option<&str>)
        ensures
            p matches Some(s) && s@ == self@.git,
    {
        Some(self.git.as_str())
    }

    /// The package identifier that the recipe's name, revision and version
    /// mode give.
    pub fn pkg_id(&self) -> (id: String)
        ensures
            id@ == pkg_id_of(self@.name, self@.commit, self@.pkgver),
    {
        proof {
            reveal_strlit("-");
        }
        let mut id = self.name.clone();
        id.append("-");
        let hex = self.commit.to_hex();
        id.append(hex.as_str());
        assert(id@ =~= self@.name + seq!['-'] + hex_of(self@.commit));
        match &self.pkgver {
            Pkgver::Plain => {},
            Pkgver::Func { pkgver } => {
                id.append("-");
                id.append(pkgver.as_str());
                assert(id@ =~= self@.name + seq!['-'] + hex_of(self@.commit) + seq!['-']
                    + pkgver@);
            },
        }
        id
    }

    /// A second recipe with the same value.
    pub fn duplicate(&self) -> (p: Pkgbuild)
        ensures
            p@ == self@,
    {
        let mut sources: Vec<Source> = Vec::new();
        let mut i: usize = 0;
        while i < self.sources.len()
            invariant
                i <= self.sources.len(),
                source_views(sources@) == source_views(self.sources@).take(i as int),
            decreases self.sources.len() - i,
        {
            let ghost before = source_views(sources@);
            sources.push(self.sources[i].duplicate());
            assert(source_views(sources@) =~= before.push(self.sources@[i as int]@));
            assert(source_views(sources@) =~= source_views(self.sources@).take(i as int + 1));
            i += 1;
        }
        assert(source_views(self.sources@).take(self.sources.len() as int) =~= source_views(
            self.sources@,
        ));
        Pkgbuild {
            name: self.name.clone(),
            url: self.url.clone(),
            build: self.build.clone(),
            git: self.git.clone(),
            pkgid: self.pkgid.clone(),
            pkgdir: self.pkgdir.clone(),
            commit: self.commit,
            pkgver: self.pkgver.duplicate(),
            extract: self.extract,
            sources,
        }
    }
}

/// What assigning identifiers makes of a recipe: the identifier of its name,
/// revision and version mode, and the directory of that identifier under the
/// output root.
pub open spec fn with_pkgdir(p: PkgbuildModel) -> PkgbuildModel {
    let id = pkg_id_of(p.name, p.commit, p.pkgver);
    PkgbuildModel { pkgid: id, pkgdir: output_dir_of(output_root(), id), ..p }
}

/// Assigns every recipe its package identifier and its output directory.
pub fn fill_all_pkgdirs(pkgbuilds: &mut Vec<Pkgbuild>)
    ensures
        final(pkgbuilds)@.len() == old(pkgbuilds)@.len(),
        forall|i: int|
            0 <= i < old(pkgbuilds)@.len() ==> (#[trigger] final(pkgbuilds)@[i])@ == with_pkgdir(
                old(pkgbuilds)@[i]@,
            ),
{
    let mut i: usize = 0;
    while i < pkgbuilds.len()
        invariant
            i <= pkgbuilds.len(),
            pkgbuilds@.len() == old(pkgbuilds)@.len(),
            forall|j: int| 0 <= j < i ==> (#[trigger] pkgbuilds@[j])@ == with_pkgdir(old(pkgbuilds)@[j]@),
            forall|j: int| i <= j < pkgbuilds@.len() ==> pkgbuilds@[j] == old(pkgbuilds)@[j],
        decreases pkgbuilds.len() - i,
    {
        proof {
            reveal_strlit("/");
        }
        let ghost before = pkgbuilds@[i as int]@;
        let id = pkgbuilds[i].pkg_id();
        let mut dir = String::from_str("pkgs");
        dir.append("/");
        dir.append(id.as_str());
        pkgbuilds[i].pkgdir = dir;
        pkgbuilds[i].pkgid = id;
        proof {
            let after = pkgbuilds@[i as int]@;
            let want = with_pkgdir(before);
            assert(after.pkgdir =~= want.pkgdir);
            assert(after.pkgid == want.pkgid);
            assert(after.sources == want.sources);
            assert(after == want);
        }
        i += 1;
    }
}

/// Where the recipe file of a recipe is dumped: under its name, in the
/// scratch directory of the run.
pub open spec fn dump_path_of(dir: Seq<char>, name: Seq<char>) -> Seq<char> {
    dir + "/"@ + name
}

/// The file that the recipe is dumped into.
pub fn dump_path(dir: &str, pkgbuild: &Pkgbuild) -> (path: String)
    ensures
        path@ == dump_path_of(dir@, pkgbuild@.name),
{
    concat3(dir, "/", pkgbuild.name.as_str())
}

/// The sources that the first `n` recipes declare, in the order of the
/// recipes, repeats included.
pub open spec fn declared_sources(s: Seq<PkgbuildModel>, n: int) -> Seq<SourceModel>
    decreases n,
{
    if n <= 0 || n > s.len() {
        Seq::<SourceModel>::empty()
    } else {
        declared_sources(s, n - 1) + s[n - 1].sources
    }
}

/// The sources of all recipes, each once, split by kind: network files, git
/// repositories and local files.
pub fn get_all_sources(pkgbuilds: &Vec<Pkgbuild>) -> (out: (Vec<Source>, Vec<Source>, Vec<Source>))
    ensures
        first_occurrences_by_kind(
            declared_sources(pkgbuild_views(pkgbuilds@), pkgbuilds@.len() as int),
            source_views(out.0@),
            source_views(out.1@),
            source_views(out.2@),
        ),
{
    let mut all: Vec<Source> = Vec::new();
    let mut i: usize = 0;
    assert(source_views(all@) =~= declared_sources(pkgbuild_views(pkgbuilds@), 0));
    while i < pkgbuilds.len()
        invariant
            i <= pkgbuilds.len(),
            source_views(all@) == declared_sources(pkgbuild_views(pkgbuilds@), i as int),
        decreases pkgbuilds.len() - i,
    {
        let ghost before = source_views(all@);
        let mut k: usize = 0;
        assert(source_views(all@) =~= before + source_views(pkgbuilds@[i as int].sources@).take(0));
        while k < pkgbuilds[i].sources.len()
            invariant
                i < pkgbuilds.len(),
                k <= pkgbuilds@[i as int].sources@.len(),
                source_views(all@) == before + source_views(pkgbuilds@[i as int].sources@).take(
                    k as int,
                ),
            decreases pkgbuilds@[i as int].sources@.len() - k,
        {
            let ghost was = source_views(all@);
            all.push(pkgbuilds[i].sources[k].duplicate());
            assert(source_views(all@) =~= was.push(pkgbuilds@[i as int].sources@[k as int]@));
            assert(source_views(all@) =~= before + source_views(
                pkgbuilds@[i as int].sources@,
            ).take(k as int + 1));
            k += 1;
        }
        assert(source_views(pkgbuilds@[i as int].sources@).take(
            pkgbuilds@[i as int].sources@.len() as int,
        ) =~= source_views(pkgbuilds@[i as int].sources@));
        i += 1;
    }
    unique_sources(&all)
}

} // verus!
