//! The order of the stages of a run, and what each kind of failure means
//! for it.

use crate::repo::sync_due;
use vstd::prelude::*;

verus! {

/// The kinds of failure of a run.
#[derive(Clone, Copy, Debug, PartialEq, Eq, Structural)]
pub enum ErrorKind {
    /// The manifest is unreadable or malformed.
    Config,
    /// The invoking user cannot be determined or returned to.
    Identity,
    /// A fetch failed, and failed again through the proxy where there is one.
    Fetch,
    /// A recipe lacks `master` or its `PKGBUILD` after the sync.
    Health,
    /// A source cannot be cached.
    Source,
    /// The package manager ended with an unexpected code.
    Dep,
    /// One recipe failed every build attempt.
    Build,
    /// The final rename or the links of one recipe failed.
    Publish,
    /// Cleaning up failed.
    Janitor,
}

/// What a failure does to the run.
#[derive(Clone, Copy, Debug, PartialEq, Eq, Structural)]
pub enum Severity {
    /// The run ends with an error.
    Fatal,
    /// The recipe is left out; the other recipes go on.
    SkipsRecipe,
    /// The failure is logged, nothing else.
    Logged,
}

/// What each kind of failure does to the run.
pub open spec fn severity_of(kind: ErrorKind) -> Severity {
    match kind {
        ErrorKind::Build => Severity::SkipsRecipe,
        ErrorKind::Publish => Severity::SkipsRecipe,
        ErrorKind::Janitor => Severity::Logged,
        _ => Severity::Fatal,
    }
}

/// Says what a failure of the given kind does to the run.
pub fn severity(kind: ErrorKind) -> (s: Severity)
    ensures
        s == severity_of(kind),
{
    match kind {
        ErrorKind::Build => Severity::SkipsRecipe,
        ErrorKind::Publish => Severity::SkipsRecipe,
        ErrorKind::Janitor => Severity::Logged,
        _ => Severity::Fatal,
    }
}

/// The stages of a run. Each stage ends before the next begins.
#[derive(Clone, Copy, Debug, PartialEq, Eq, Structural)]
pub enum Stage {
    /// Look at the recipe repositories that are held, before any sync.
    ProbeHealth,
    /// Sync the recipe repositories.
    Sync,
    /// Check the health of the repositories after the sync.
    CheckHealth,
    /// Dump the recipes into the scratch directory of the run.
    Dump,
    /// Ensure the host dependencies.
    Deps,
    /// Cache the sources.
    Sources,
    /// Resolve the versions.
    Versions,
    /// Assign package identifiers and directories.
    PkgIds,
    /// Decide what is built.
    BuildDecide,
    /// Build.
    Build,
    /// Make the views.
    Publish,
    /// Remove what is not in use under the output root.
    Clean,
    /// The run is over.
    Finished,
}

/// The switches that steer the order of the stages.
#[derive(Clone, Copy, Debug, PartialEq, Eq, Structural)]
pub struct Switches {
    pub holdpkg: bool,
    pub nobuild: bool,
    pub noclean: bool,
}

/// The stage a run begins with: held repositories are looked at first, to
/// see whether the sync can be left out.
pub open spec fn first_stage_of(switches: Switches) -> Stage {
    if switches.holdpkg {
        Stage::ProbeHealth
    } else {
        Stage::Sync
    }
}

/// The stage that follows `stage`. `healthy` is what a health stage found.
/// Held repositories that are all healthy are not synced; unhealthy ones
/// are synced although they are held; repositories that are unhealthy after
/// the sync end the run. Without building the run goes from the build
/// decision straight to the views; without cleaning it ends once the views
/// are made.
pub open spec fn stage_after(stage: Stage, switches: Switches, healthy: bool) -> Result<
    Stage,
    ErrorKind,
> {
    match stage {
        Stage::ProbeHealth => if healthy {
            Ok(Stage::Dump)
        } else {
            Ok(Stage::Sync)
        },
        Stage::Sync => Ok(Stage::CheckHealth),
        Stage::CheckHealth => if healthy {
            Ok(Stage::Dump)
        } else {
            Err(ErrorKind::Health)
        },
        Stage::Dump => Ok(Stage::Deps),
        Stage::Deps => Ok(Stage::Sources),
        Stage::Sources => Ok(Stage::Versions),
        Stage::Versions => Ok(Stage::PkgIds),
        Stage::PkgIds => Ok(Stage::BuildDecide),
        Stage::BuildDecide => if switches.nobuild {
            Ok(Stage::Publish)
        } else {
            Ok(Stage::Build)
        },
        Stage::Build => Ok(Stage::Publish),
        Stage::Publish => if switches.noclean {
            Ok(Stage::Finished)
        } else {
            Ok(Stage::Clean)
        },
        Stage::Clean => Ok(Stage::Finished),
        Stage::Finished => Ok(Stage::Finished),
    }
}

/// The place of a stage in the order of the run.
pub open spec fn rank(stage: Stage) -> int {
    match stage {
        Stage::ProbeHealth => 0,
        Stage::Sync => 1,
        Stage::CheckHealth => 2,
        Stage::Dump => 3,
        Stage::Deps => 4,
        Stage::Sources => 5,
        Stage::Versions => 6,
        Stage::PkgIds => 7,
        Stage::BuildDecide => 8,
        Stage::Build => 9,
        Stage::Publish => 10,
        Stage::Clean => 11,
        Stage::Finished => 12,
    }
}

/// The stage a run begins with.
pub fn first_stage(switches: Switches) -> (stage: Stage)
    ensures
        stage == first_stage_of(switches),
{
    if switches.holdpkg {
        Stage::ProbeHealth
    } else {
        Stage::Sync
    }
}

/// The stage that follows `stage`, or the failure that ends the run.
pub fn next_stage(stage: Stage, switches: Switches, healthy: bool) -> (next: Result<
    Stage,
    ErrorKind,
>)
    ensures
        next == stage_after(stage, switches, healthy),
{
    match stage {
        Stage::ProbeHealth => {
            if healthy {
                Ok(Stage::Dump)
            } else {
                Ok(Stage::Sync)
            }
        },
        Stage::Sync => Ok(Stage::CheckHealth),
        Stage::CheckHealth => {
            if healthy {
                Ok(Stage::Dump)
            } else {
                Err(ErrorKind::Health)
            }
        },
        Stage::Dump => Ok(Stage::Deps),
        Stage::Deps => Ok(Stage::Sources),
        Stage::Sources => Ok(Stage::Versions),
        Stage::Versions => Ok(Stage::PkgIds),
        Stage::PkgIds => Ok(Stage::BuildDecide),
        Stage::BuildDecide => {
            if switches.nobuild {
                Ok(Stage::Publish)
            } else {
                Ok(Stage::Build)
            }
        },
        Stage::Build => Ok(Stage::Publish),
        Stage::Publish => {
            if switches.noclean {
                Ok(Stage::Finished)
            } else {
                Ok(Stage::Clean)
            }
        },
        Stage::Clean => Ok(Stage::Finished),
        Stage::Finished => Ok(Stage::Finished),
    }
}

/// The stages follow one another in the order of the run: no stage leads
/// back to itself or to an earlier one, so every run ends.
pub proof fn lemma_stages_advance(stage: Stage, switches: Switches, healthy: bool)
    requires
        stage != Stage::Finished,
    ensures
        stage_after(stage, switches, healthy) matches Ok(next) ==> rank(next) > rank(stage),
{
}

/// Held repositories that are healthy are not fetched: the run goes from
/// the first look straight to the dump, and no later stage leads to a sync.
pub proof fn lemma_hold_healthy_skips_sync(switches: Switches, stage: Stage, healthy: bool)
    requires
        switches.holdpkg,
    ensures
        first_stage_of(switches) == Stage::ProbeHealth,
        stage_after(Stage::ProbeHealth, switches, true) == Ok::<Stage, ErrorKind>(Stage::Dump),
        rank(stage) >= rank(Stage::Dump) ==> stage_after(stage, switches, healthy) != Ok::<
            Stage,
            ErrorKind,
        >(Stage::Sync),
{
}

/// The order of the stages and the rule of the sync agree: a run comes to
/// the sync stage, at its start or after the first look at held
/// repositories, exactly if a sync is due.
pub proof fn lemma_sync_stage_agrees(switches: Switches, healthy: bool)
    ensures
        (first_stage_of(switches) == Stage::Sync || stage_after(
            first_stage_of(switches),
            switches,
            healthy,
        ) == Ok::<Stage, ErrorKind>(Stage::Sync)) <==> sync_due(switches.holdpkg, healthy),
{
}

/// What is due at a stage besides the stage's own work.
#[derive(Clone, Copy, Debug, PartialEq, Eq, Structural)]
pub struct Duties {
    /// Sweep the cache of recipe repositories.
    pub sweep_recipe_cache: bool,
    /// Sweep the caches of network files and git sources.
    pub sweep_source_caches: bool,
    /// Sweep the output root.
    pub sweep_output_root: bool,
    /// Remove both views and create them empty.
    pub reset_views: bool,
}

/// What is due at a stage. Every sweep is due exactly where cleaning is not
/// switched off: that of the recipe cache at the first stage of the run,
/// whether or not a sync follows; that of the source caches when the sources
/// are cached and the versions are resolved; that of the output root at the
/// stage of its own. The views are made anew before anything is linked into
/// them: before the builds, or before the views stage where nothing is built.
pub open spec fn duties_of(stage: Stage, switches: Switches) -> Duties {
    Duties {
        sweep_recipe_cache: !switches.noclean && stage == first_stage_of(switches),
        sweep_source_caches: !switches.noclean && stage == Stage::Versions,
        sweep_output_root: !switches.noclean && stage == Stage::Clean,
        reset_views: stage == Stage::Build || (stage == Stage::Publish && switches.nobuild),
    }
}

/// Says what is due at a stage besides the stage's own work.
pub fn duties(stage: Stage, switches: Switches) -> (due: Duties)
    ensures
        due == duties_of(stage, switches),
{
    Duties {
        sweep_recipe_cache: !switches.noclean && stage == first_stage(switches),
        sweep_source_caches: !switches.noclean && stage == Stage::Versions,
        sweep_output_root: !switches.noclean && stage == Stage::Clean,
        reset_views: stage == Stage::Build || (stage == Stage::Publish && switches.nobuild),
    }
}

/// Builds run only where building is not switched off: no stage leads to
/// the build stage under `nobuild`.
pub proof fn lemma_build_only_without_nobuild(stage: Stage, switches: Switches, healthy: bool)
    ensures
        stage_after(stage, switches, healthy) == Ok::<Stage, ErrorKind>(Stage::Build) ==> stage
            == Stage::BuildDecide && !switches.nobuild,
{
}

/// The views are made whether or not anything is built: the build decision
/// always leads to the views stage, through the builds or past them, and the
/// views are made anew exactly once on the way.
pub proof fn lemma_views_are_always_made(switches: Switches, healthy: bool)
    ensures
        switches.nobuild ==> stage_after(Stage::BuildDecide, switches, healthy) == Ok::<
            Stage,
            ErrorKind,
        >(Stage::Publish),
        !switches.nobuild ==> stage_after(Stage::BuildDecide, switches, healthy) == Ok::<
            Stage,
            ErrorKind,
        >(Stage::Build),
        stage_after(Stage::Build, switches, healthy) == Ok::<Stage, ErrorKind>(Stage::Publish),
        duties_of(Stage::Build, switches).reset_views,
        duties_of(Stage::Publish, switches).reset_views == switches.nobuild,
{
}

/// The janitor of the output root runs exactly where cleaning is not
/// switched off, whatever `nobuild` says, and only after the views are made:
/// the views stage leads to it unless `noclean`, and nothing else does.
pub proof fn lemma_clean_iff_allowed(stage: Stage, switches: Switches, healthy: bool)
    ensures
        stage_after(stage, switches, healthy) == Ok::<Stage, ErrorKind>(Stage::Clean) <==> stage
            == Stage::Publish && !switches.noclean,
        duties_of(Stage::Clean, switches).sweep_output_root == !switches.noclean,
{
}

/// Under `noclean` nothing is swept at any stage; without it each sweep is
/// due at one stage that every run passes which gets that far.
pub proof fn lemma_sweeps_follow_noclean(stage: Stage, switches: Switches)
    ensures
        switches.noclean ==> !duties_of(stage, switches).sweep_recipe_cache && !duties_of(
            stage,
            switches,
        ).sweep_source_caches && !duties_of(stage, switches).sweep_output_root,
        !switches.noclean ==> duties_of(first_stage_of(switches), switches).sweep_recipe_cache
            && duties_of(Stage::Versions, switches).sweep_source_caches && duties_of(
            Stage::Clean,
            switches,
        ).sweep_output_root,
{
}

} // verus!
