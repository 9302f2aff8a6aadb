//! The symlink views over the published package directories.

use crate::recipe::{pkgbuild_views, Pkgbuild, PkgbuildModel};
use crate::text::{concat3, str_views};
use vstd::prelude::*;

verus! {

/// A symbolic link to make.
#[derive(Clone, Debug, PartialEq, Eq)]
pub struct Link {
    /// Where the link is made.
    pub link: String,
    /// What the link points to, relative to its own directory.
    pub target: String,
}

/// The values of a sequence of links: place and target.
pub open spec fn link_views(v: Seq<Link>) -> Seq<(Seq<char>, Seq<char>)> {
    Seq::new(v.len(), |i: int| (v[i].link@, v[i].target@))
}

/// The view of the artifacts that this run built.
pub open spec fn updated_view() -> Seq<char> {
    "pkgs/updated"@
}

/// The view of the artifacts of every recipe of this run.
pub open spec fn latest_view() -> Seq<char> {
    "pkgs/latest"@
}

/// The link for one artifact: it stands in the view under the artifact's
/// name and points into the package directory beside the view.
pub open spec fn link_of(view: Seq<char>, pkgid: Seq<char>, entry: Seq<char>) -> (
    Seq<char>,
    Seq<char>,
) {
    (view + "/"@ + entry, "../"@ + pkgid + "/"@ + entry)
}

/// The links for the artifacts of one package directory, in order.
pub open spec fn links_of(view: Seq<char>, pkgid: Seq<char>, entries: Seq<Seq<char>>) -> Seq<
    (Seq<char>, Seq<char>),
> {
    Seq::new(entries.len(), |i: int| link_of(view, pkgid, entries[i]))
}

/// The links for the artifacts of one package directory. `entries` are the
/// names found in that directory.
pub fn artifact_links(view: &str, pkgid: &str, entries: &Vec<String>) -> (links: Vec<Link>)
    ensures
        link_views(links@) == links_of(view@, pkgid@, str_views(entries@)),
{
    let mut links: Vec<Link> = Vec::new();
    let mut i: usize = 0;
    while i < entries.len()
        invariant
            i <= entries.len(),
            link_views(links@) == links_of(view@, pkgid@, str_views(entries@)).take(i as int),
        decreases entries.len() - i,
    {
        let ghost before = link_views(links@);
        let entry = entries[i].as_str();
        let link = concat3(view, "/", entry);
        let mut target = concat3("../", pkgid, "/");
        target.append(entry);
        links.push(Link { link, target });
        proof {
            assert(link_views(links@) =~= before.push(link_of(view@, pkgid@, entries@[i as int]@)));
            assert(link_views(links@) =~= links_of(view@, pkgid@, str_views(entries@)).take(
                i as int + 1,
            ));
        }
        i += 1;
    }
    assert(links_of(view@, pkgid@, str_views(entries@)).take(entries.len() as int) =~= links_of(
        view@,
        pkgid@,
        str_views(entries@),
    ));
    links
}

/// The links that a finished build adds to the view of this run.
pub fn updated_links(pkgbuild: &Pkgbuild, entries: &Vec<String>) -> (links: Vec<Link>)
    ensures
        link_views(links@) == links_of(updated_view(), pkgbuild@.pkgid, str_views(entries@)),
{
    artifact_links("pkgs/updated", pkgbuild.pkgid.as_str(), entries)
}

/// The values of the listings of several directories.
pub open spec fn listing_views(v: Seq<Vec<String>>) -> Seq<Seq<Seq<char>>> {
    Seq::new(v.len(), |i: int| str_views(v[i]@))
}

/// The links of the view of all recipes, for the first `n` recipes: those of
/// each recipe's package directory, in the order of the recipes. A recipe
/// without a listing has no package directory and adds no link.
pub open spec fn latest_links_of(s: Seq<PkgbuildModel>, listings: Seq<Seq<Seq<char>>>, n: int) -> Seq<
    (Seq<char>, Seq<char>),
>
    decreases n,
{
    if n <= 0 {
        Seq::<(Seq<char>, Seq<char>)>::empty()
    } else if n - 1 < s.len() && n - 1 < listings.len() {
        latest_links_of(s, listings, n - 1) + links_of(
            latest_view(),
            s[n - 1].pkgid,
            listings[n - 1],
        )
    } else {
        latest_links_of(s, listings, n - 1)
    }
}

/// The links of the view of all recipes. `listings[i]` holds the names found
/// in the package directory of recipe `i`, and is empty where the recipe has
/// none.
pub fn latest_links(pkgbuilds: &Vec<Pkgbuild>, listings: &Vec<Vec<String>>) -> (links: Vec<Link>)
    ensures
        link_views(links@) == latest_links_of(
            pkgbuild_views(pkgbuilds@),
            listing_views(listings@),
            pkgbuilds@.len() as int,
        ),
{
    let mut links: Vec<Link> = Vec::new();
    let mut i: usize = 0;
    assert(link_views(links@) =~= latest_links_of(
        pkgbuild_views(pkgbuilds@),
        listing_views(listings@),
        0,
    ));
    while i < pkgbuilds.len()
        invariant
            i <= pkgbuilds.len(),
            link_views(links@) == latest_links_of(
                pkgbuild_views(pkgbuilds@),
                listing_views(listings@),
                i as int,
            ),
        decreases pkgbuilds.len() - i,
    {
        if i < listings.len() {
            let more = artifact_links("pkgs/latest", pkgbuilds[i].pkgid.as_str(), &listings[i]);
            let ghost before = link_views(links@);
            let mut k: usize = 0;
            assert(link_views(links@) =~= before + link_views(more@).take(0));
            while k < more.len()
                invariant
                    k <= more.len(),
                    link_views(links@) == before + link_views(more@).take(k as int),
                decreases more.len() - k,
            {
                let ghost was = link_views(links@);
                links.push(Link { link: more[k].link.clone(), target: more[k].target.clone() });
                assert(link_views(links@) =~= was.push(link_views(more@)[k as int]));
                assert(link_views(links@) =~= before + link_views(more@).take(k as int + 1));
                k += 1;
            }
            assert(link_views(more@).take(more.len() as int) =~= link_views(more@));
        }
        i += 1;
    }
    links
}

/// Symlink view regeneration. Every link of the view of all recipes stands
/// for an artifact that was found in the package directory of a recipe, and
/// points at that artifact.
pub proof fn lemma_latest_links_resolve(
    s: Seq<PkgbuildModel>,
    listings: Seq<Seq<Seq<char>>>,
    n: int,
    k: int,
)
    requires
        0 <= k < latest_links_of(s, listings, n).len(),
    ensures
        exists|i: int, e: int|
            0 <= i < n && i < s.len() && i < listings.len() && 0 <= e < listings[i].len()
                && latest_links_of(s, listings, n)[k] == #[trigger] link_of(
                latest_view(),
                s[i].pkgid,
                listings[i][e],
            ),
    decreases n,
{
    if n > 0 {
        let before = latest_links_of(s, listings, n - 1);
        if k < before.len() {
            lemma_latest_links_resolve(s, listings, n - 1, k);
            let (i, e) = choose|i: int, e: int|
                0 <= i < n - 1 && i < s.len() && i < listings.len() && 0 <= e < listings[i].len()
                    && before[k] == #[trigger] link_of(latest_view(), s[i].pkgid, listings[i][e]);
            assert(latest_links_of(s, listings, n)[k] == link_of(
                latest_view(),
                s[i].pkgid,
                listings[i][e],
            ));
        } else {
            let e = k - before.len();
            assert(latest_links_of(s, listings, n)[k] == link_of(
                latest_view(),
                s[n - 1].pkgid,
                listings[n - 1][e],
            ));
        }
    }
}

/// One thing done to a view directory.
#[derive(Clone, Debug, PartialEq, Eq)]
pub enum ViewStep {
    /// Remove the directory and all in it.
    Remove(String),
    /// Create the directory.
    Create(String),
}

/// The mathematical value of a [`ViewStep`].
pub enum ViewStepModel {
    Remove(Seq<char>),
    Create(Seq<char>),
}

impl View for ViewStep {
    type V = ViewStepModel;

    open spec fn view(&self) -> ViewStepModel {
        match self {
            ViewStep::Remove(dir) => ViewStepModel::Remove(dir@),
            ViewStep::Create(dir) => ViewStepModel::Create(dir@),
        }
    }
}

/// The values of a sequence of steps.
pub open spec fn step_views(v: Seq<ViewStep>) -> Seq<ViewStepModel> {
    Seq::new(v.len(), |i: int| v[i]@)
}

/// How the views are made anew at the start of publication: both are
/// removed with all that a former run left in them, then created empty.
pub fn reset_views() -> (steps: Vec<ViewStep>)
    ensures
        step_views(steps@) == seq![
            ViewStepModel::Remove(updated_view()),
            ViewStepModel::Remove(latest_view()),
            ViewStepModel::Create(updated_view()),
            ViewStepModel::Create(latest_view()),
        ],
{
    let mut steps: Vec<ViewStep> = Vec::new();
    steps.push(ViewStep::Remove(String::from_str("pkgs/updated")));
    steps.push(ViewStep::Remove(String::from_str("pkgs/latest")));
    steps.push(ViewStep::Create(String::from_str("pkgs/updated")));
    steps.push(ViewStep::Create(String::from_str("pkgs/latest")));
    assert(step_views(steps@) =~= seq![
        ViewStepModel::Remove(updated_view()),
        ViewStepModel::Remove(latest_view()),
        ViewStepModel::Create(updated_view()),
        ViewStepModel::Create(latest_view()),
    ]);
    steps
}

} // verus!
