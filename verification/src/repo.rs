//! The recipe repositories: how one is opened or made, how it is synced, and
//! when it counts as healthy.

use crate::recipe::{Commit, Pkgbuild, PkgbuildModel};
use crate::text::{compare_strs, opt_view, str_views, Order};
use vstd::prelude::*;

verus! {

/// Which references a sync fetches.
#[derive(Clone, Copy, Debug, PartialEq, Eq, Structural)]
pub enum Refspecs {
    /// The branch `master` only: what a recipe repository needs.
    MasterOnly,
    /// Every reference: a full mirror.
    Everything,
}

/// The refspec that a mode fetches with.
pub open spec fn refspec_of(mode: Refspecs) -> Seq<char> {
    match mode {
        Refspecs::MasterOnly => "+refs/heads/master:refs/heads/master"@,
        Refspecs::Everything => "+refs/*:refs/*"@,
    }
}

/// The refspecs to fetch with.
pub fn refspecs(mode: Refspecs) -> (specs: Vec<String>)
    ensures
        str_views(specs@) == seq![refspec_of(mode)],
{
    let mut specs: Vec<String> = Vec::new();
    match mode {
        Refspecs::MasterOnly => specs.push(String::from_str("+refs/heads/master:refs/heads/master")),
        Refspecs::Everything => specs.push(String::from_str("+refs/*:refs/*")),
    }
    assert(str_views(specs@) =~= seq![refspec_of(mode)]);
    specs
}

/// The refspecs that a recipe repository is synced with: the branch
/// `master`, and nothing else.
pub fn recipe_refspecs() -> (specs: Vec<String>)
    ensures
        str_views(specs@) == seq!["+refs/heads/master:refs/heads/master"@],
{
    refspecs(Refspecs::MasterOnly)
}

/// The remote that a new bare repository is given.
#[derive(Clone, Debug, PartialEq, Eq)]
pub struct Origin {
    pub name: String,
    pub url: String,
    pub refspec: String,
}

/// The remote of a new bare repository: `origin`, at the recipe's URL,
/// mirroring every reference.
pub fn origin_of(url: &str) -> (origin: Origin)
    ensures
        origin.name@ == "origin"@,
        origin.url@ == url@,
        origin.refspec@ == refspec_of(Refspecs::Everything),
{
    Origin {
        name: String::from_str("origin"),
        url: String::from_str(url),
        refspec: String::from_str("+refs/*:refs/*"),
    }
}

/// Where opening or making a bare repository stands.
#[derive(Clone, Copy, Debug, PartialEq, Eq, Structural)]
pub enum RepoState {
    /// The repository is being opened.
    Opening,
    /// Nothing was found at the path; a bare repository is being made.
    Creating,
    /// The new repository is being given its remote.
    Registering,
    /// The repository is open.
    Ready,
    /// The repository cannot be had.
    Failed,
}

/// What is to be done next to a repository.
#[derive(Clone, Copy, Debug, PartialEq, Eq, Structural)]
pub enum RepoAction {
    /// Make a bare repository at the path.
    InitBare,
    /// Register the remote of [`origin_of`].
    AddOrigin,
    /// Remove the directory that was made, then report the failure.
    RemoveDirectory,
    /// Report the failure.
    Report,
    /// Nothing: the state says all.
    Nothing,
}

/// The state after the pending operation ended. `ok` says whether it
/// succeeded; `missing` says, of a failed opening, whether the failure was
/// that of the operating system finding nothing at the path.
pub open spec fn repo_state_after(state: RepoState, ok: bool, missing: bool) -> RepoState {
    match state {
        RepoState::Opening => if ok {
            RepoState::Ready
        } else if missing {
            RepoState::Creating
        } else {
            RepoState::Failed
        },
        RepoState::Creating => if ok {
            RepoState::Registering
        } else {
            RepoState::Failed
        },
        RepoState::Registering => if ok {
            RepoState::Ready
        } else {
            RepoState::Failed
        },
        _ => state,
    }
}

/// What follows the pending operation: a repository that is not there is
/// made and given its remote; one that cannot be given its remote is removed
/// again; every other failure is reported.
pub open spec fn repo_action_after(state: RepoState, ok: bool, missing: bool) -> RepoAction {
    match state {
        RepoState::Opening => if ok {
            RepoAction::Nothing
        } else if missing {
            RepoAction::InitBare
        } else {
            RepoAction::Report
        },
        RepoState::Creating => if ok {
            RepoAction::AddOrigin
        } else {
            RepoAction::Report
        },
        RepoState::Registering => if ok {
            RepoAction::Nothing
        } else {
            RepoAction::RemoveDirectory
        },
        _ => RepoAction::Nothing,
    }
}

/// Decides what follows the pending operation on a repository.
pub fn open_or_init_step(state: RepoState, ok: bool, missing: bool) -> (r: (RepoState, RepoAction))
    ensures
        r.0 == repo_state_after(state, ok, missing),
        r.1 == repo_action_after(state, ok, missing),
{
    match state {
        RepoState::Opening => {
            if ok {
                (RepoState::Ready, RepoAction::Nothing)
            } else if missing {
                (RepoState::Creating, RepoAction::InitBare)
            } else {
                (RepoState::Failed, RepoAction::Report)
            }
        },
        RepoState::Creating => {
            if ok {
                (RepoState::Registering, RepoAction::AddOrigin)
            } else {
                (RepoState::Failed, RepoAction::Report)
            }
        },
        RepoState::Registering => {
            if ok {
                (RepoState::Ready, RepoAction::Nothing)
            } else {
                (RepoState::Failed, RepoAction::RemoveDirectory)
            }
        },
        RepoState::Ready => (RepoState::Ready, RepoAction::Nothing),
        RepoState::Failed => (RepoState::Failed, RepoAction::Nothing),
    }
}

/// How a fetch is set up: all tags are downloaded, references that the
/// remote dropped are pruned, and `FETCH_HEAD` is updated.
#[derive(Clone, Copy, Debug, PartialEq, Eq, Structural)]
pub struct FetchSettings {
    pub download_all_tags: bool,
    pub prune: bool,
    pub update_fetchhead: bool,
}

/// The settings of every fetch.
pub fn fetch_settings() -> (s: FetchSettings)
    ensures
        s == (FetchSettings { download_all_tags: true, prune: true, update_fetchhead: true }),
{
    FetchSettings { download_all_tags: true, prune: true, update_fetchhead: true }
}

/// Where the fetch of one repository stands.
#[derive(Clone, Copy, Debug, PartialEq, Eq, Structural)]
pub enum FetchState {
    /// Fetching without a proxy.
    Direct,
    /// Fetching once more, through the proxy.
    ViaProxy,
    /// The fetch succeeded.
    Done,
    /// The fetch failed for good.
    Failed,
}

/// The state after a fetch ended: a failed direct fetch is retried once
/// through the proxy where one is configured; any other failure is final.
pub open spec fn fetch_state_after(state: FetchState, ok: bool, has_proxy: bool) -> FetchState {
    match state {
        FetchState::Direct => if ok {
            FetchState::Done
        } else if has_proxy {
            FetchState::ViaProxy
        } else {
            FetchState::Failed
        },
        FetchState::ViaProxy => if ok {
            FetchState::Done
        } else {
            FetchState::Failed
        },
        _ => state,
    }
}

/// Decides what follows a fetch.
pub fn fetch_step(state: FetchState, ok: bool, proxy: Option<&str>) -> (next: FetchState)
    ensures
        next == fetch_state_after(state, ok, proxy is Some),
{
    match state {
        FetchState::Direct => {
            if ok {
                FetchState::Done
            } else if proxy.is_some() {
                FetchState::ViaProxy
            } else {
                FetchState::Failed
            }
        },
        FetchState::ViaProxy => {
            if ok {
                FetchState::Done
            } else {
                FetchState::Failed
            }
        },
        FetchState::Done => FetchState::Done,
        FetchState::Failed => FetchState::Failed,
    }
}

/// A fetch is tried at most twice: from the direct fetch, two results always
/// lead to an end.
pub proof fn lemma_at_most_one_retry(first: bool, second: bool, has_proxy: bool)
    ensures
        fetch_state_after(fetch_state_after(FetchState::Direct, first, has_proxy), second, has_proxy)
            == FetchState::Done || fetch_state_after(
            fetch_state_after(FetchState::Direct, first, has_proxy),
            second,
            has_proxy,
        ) == FetchState::Failed,
{
}

/// A reference that the remote lists.
#[derive(Clone, Debug, PartialEq, Eq)]
pub struct RemoteHead {
    /// The name of the reference.
    pub name: String,
    /// What the reference points to, where it is symbolic.
    pub symref_target: Option<String>,
}

/// The values of a sequence of listed references.
pub open spec fn head_views(v: Seq<RemoteHead>) -> Seq<(Seq<char>, Option<Seq<char>>)> {
    Seq::new(v.len(), |i: int| (v[i].name@, opt_view(v[i].symref_target)))
}

/// The targets that the local `HEAD` is set to, in order: the target of
/// every listed reference that is named `HEAD` and is symbolic.
pub open spec fn head_targets_of(heads: Seq<(Seq<char>, Option<Seq<char>>)>) -> Seq<Seq<char>>
    decreases heads.len(),
{
    if heads.len() == 0 {
        Seq::<Seq<char>>::empty()
    } else {
        let before = head_targets_of(heads.drop_last());
        let last = heads.last();
        if last.0 == "HEAD"@ && last.1 is Some {
            before.push(last.1->0)
        } else {
            before
        }
    }
}

/// The targets to set the local `HEAD` to after a fetch, in order.
pub fn head_targets(heads: &Vec<RemoteHead>) -> (targets: Vec<String>)
    ensures
        str_views(targets@) == head_targets_of(head_views(heads@)),
{
    let mut targets: Vec<String> = Vec::new();
    let mut i: usize = 0;
    assert(head_views(heads@).take(0) =~= Seq::<(Seq<char>, Option<Seq<char>>)>::empty());
    assert(str_views(targets@) =~= head_targets_of(head_views(heads@).take(0)));
    while i < heads.len()
        invariant
            i <= heads.len(),
            str_views(targets@) == head_targets_of(head_views(heads@).take(i as int)),
        decreases heads.len() - i,
    {
        let ghost before = str_views(targets@);
        proof {
            let next = head_views(heads@).take(i as int + 1);
            assert(next.drop_last() =~= head_views(heads@).take(i as int));
            assert(next.last() == head_views(heads@)[i as int]);
        }
        if compare_strs(heads[i].name.as_str(), "HEAD") == Order::Equal {
            match &heads[i].symref_target {
                Some(target) => {
                    targets.push(target.clone());
                    assert(str_views(targets@) =~= before.push(target@));
                },
                None => {},
            }
        }
        i += 1;
    }
    assert(head_views(heads@).take(heads.len() as int) =~= head_views(heads@));
    targets
}

/// Whether recipe repositories are synced: always, unless they are held and
/// all of them are healthy.
pub open spec fn sync_due(holdpkg: bool, all_healthy: bool) -> bool {
    !(holdpkg && all_healthy)
}

/// Says whether recipe repositories are synced.
pub fn sync_needed(holdpkg: bool, all_healthy: bool) -> (sync: bool)
    ensures
        sync == sync_due(holdpkg, all_healthy),
{
    !(holdpkg && all_healthy)
}

/// What was found when the repository of a recipe was looked at.
#[derive(Clone, Copy, Debug, PartialEq, Eq)]
pub struct HealthProbe {
    /// Whether the repository could be opened, or made.
    pub opened: bool,
    /// The revision at the tip of `master`, where the branch resolves.
    pub tip: Option<Commit>,
    /// Whether the tree at that tip holds a readable `PKGBUILD`.
    pub has_pkgbuild: bool,
}

/// Whether a probe shows a healthy repository: it opens, the tip of
/// `master` resolves, and the `PKGBUILD` at that tip is readable.
pub open spec fn probe_healthy(probe: HealthProbe) -> bool {
    probe.opened && probe.tip is Some && probe.has_pkgbuild
}

impl HealthProbe {
    /// Whether the probe shows a healthy repository.
    pub fn healthy(&self) -> (r: bool)
        ensures
            r == probe_healthy(*self),
    {
        self.opened && self.tip.is_some() && self.has_pkgbuild
    }
}

/// What the health check makes of a recipe: where the revision is asked for
/// and the probe found one, the recipe takes it.
pub open spec fn probe_applied(p: PkgbuildModel, probe: HealthProbe, set_commit: bool) -> PkgbuildModel {
    if set_commit && probe.opened && probe.tip is Some {
        PkgbuildModel { commit: probe.tip->0.bytes@, ..p }
    } else {
        p
    }
}

/// Checks the health of one recipe's repository and, where asked, records
/// the revision at the tip of `master`.
pub fn healthy_pkgbuild(pkgbuild: &mut Pkgbuild, probe: &HealthProbe, set_commit: bool) -> (healthy:
    bool)
    ensures
        healthy == probe_healthy(*probe),
        final(pkgbuild)@ == probe_applied(old(pkgbuild)@, *probe, set_commit),
{
    if !probe.opened {
        return false;
    }
    match probe.tip {
        Some(id) => {
            if set_commit {
                pkgbuild.commit = id;
            }
        },
        None => {
            return false;
        },
    }
    probe.has_pkgbuild
}

/// The first recipe that is unhealthy or has no probe, or the number of
/// recipes where all are healthy.
pub open spec fn first_unhealthy(n: int, probes: Seq<HealthProbe>) -> int
    decreases n,
{
    if n <= 0 {
        0
    } else {
        let before = first_unhealthy(n - 1, probes);
        if before < n - 1 {
            before
        } else if n - 1 < probes.len() && probe_healthy(probes[n - 1]) {
            n
        } else {
            n - 1
        }
    }
}

/// What the health check of all recipes makes of recipe `i`: the recipes up
/// to and including the first unhealthy one are checked, the others are not
/// looked at.
pub open spec fn health_checked(
    p: PkgbuildModel,
    i: int,
    stop: int,
    probes: Seq<HealthProbe>,
    set_commit: bool,
) -> PkgbuildModel {
    if i <= stop && i < probes.len() {
        probe_applied(p, probes[i], set_commit)
    } else {
        p
    }
}

/// Checks the health of every recipe's repository, in order, and stops at
/// the first unhealthy one. `probes[i]` is what was found for recipe `i`; a
/// recipe without a probe counts as unhealthy.
pub fn healthy_pkgbuilds(
    pkgbuilds: &mut Vec<Pkgbuild>,
    probes: &Vec<HealthProbe>,
    set_commit: bool,
) -> (healthy: bool)
    ensures
        final(pkgbuilds)@.len() == old(pkgbuilds)@.len(),
        healthy == (first_unhealthy(old(pkgbuilds)@.len() as int, probes@) == old(
            pkgbuilds,
        )@.len()),
        healthy == (probes@.len() >= old(pkgbuilds)@.len() && forall|i: int|
            0 <= i < old(pkgbuilds)@.len() ==> probe_healthy(#[trigger] probes@[i])),
        forall|i: int|
            0 <= i < old(pkgbuilds)@.len() ==> (#[trigger] final(pkgbuilds)@[i])@ == health_checked(
                old(pkgbuilds)@[i]@,
                i,
                first_unhealthy(old(pkgbuilds)@.len() as int, probes@),
                probes@,
                set_commit,
            ),
{
    let n = pkgbuilds.len();
    let mut i: usize = 0;
    while i < n
        invariant
            i <= n,
            n == pkgbuilds@.len(),
            pkgbuilds@.len() == old(pkgbuilds)@.len(),
            first_unhealthy(i as int, probes@) == i,
            i <= probes@.len(),
            forall|j: int| 0 <= j < i ==> probe_healthy(#[trigger] probes@[j]),
            forall|j: int|
                0 <= j < i ==> (#[trigger] pkgbuilds@[j])@ == probe_applied(
                    old(pkgbuilds)@[j]@,
                    probes@[j],
                    set_commit,
                ),
            forall|j: int| i <= j < pkgbuilds@.len() ==> pkgbuilds@[j] == old(pkgbuilds)@[j],
        decreases n - i,
    {
        if i >= probes.len() {
            proof {
                lemma_first_unhealthy_stays(n as int, i as int, probes@);
            }
            return false;
        }
        let ghost was = pkgbuilds@[i as int]@;
        let ok = healthy_pkgbuild(&mut pkgbuilds[i], &probes[i], set_commit);
        assert(pkgbuilds@[i as int]@ == probe_applied(was, probes@[i as int], set_commit));
        if !ok {
            proof {
                lemma_first_unhealthy_stays(n as int, i as int, probes@);
            }
            return false;
        }
        i += 1;
    }
    true
}

proof fn lemma_first_unhealthy_stays(n: int, k: int, probes: Seq<HealthProbe>)
    requires
        0 <= k < n,
        first_unhealthy(k, probes) == k,
        !(k < probes.len() && probe_healthy(probes[k])),
    ensures
        first_unhealthy(n, probes) == k,
    decreases n,
{
    if n > k + 1 {
        lemma_first_unhealthy_stays(n - 1, k, probes);
    }
}

} // verus!
