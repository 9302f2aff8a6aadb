//! The builder: which recipes are built, how the build tool is called, what
//! follows each attempt, and why a package directory is never seen half-made.

use crate::child::{Invocation, InvocationModel};
use crate::recipe::{pkgbuild_views, Pkgbuild, PkgbuildModel};
use crate::seqs::{index_views, lemma_positions_where, positions_where};
use crate::text::{concat2, concat3, decimal, decimal_of, str_views};
use vstd::prelude::*;

verus! {

/// How often the build of one recipe is tried.
pub const MAX_ATTEMPTS: u8 = 3;

/// How many builds run at the same time, at most.
pub const BUILD_WORKERS: usize = 5;

/// How many workers remove scratch directories at the same time, at most.
pub const CLEAN_WORKERS: usize = 30;

/// How many workers extract sources at the same time, at most.
pub const EXTRACT_WORKERS: usize = 20;

/// The directory that a build writes into before its result is published.
pub open spec fn temp_dir_of(pkgdir: Seq<char>) -> Seq<char> {
    pkgdir + ".temp"@
}

/// The directory that the build of a recipe writes into.
pub fn temp_pkgdir(pkgbuild: &Pkgbuild) -> (dir: String)
    ensures
        dir@ == temp_dir_of(pkgbuild@.pkgdir),
{
    concat2(pkgbuild.pkgdir.as_str(), ".temp")
}

/// The flags that make the build tool build what is there: keep the version,
/// resolve no dependencies, extract nothing again, ignore the architecture.
pub open spec fn build_flags() -> Seq<Seq<char>> {
    seq!["--holdver"@, "--nodeps"@, "--noextract"@, "--ignorearch"@]
}

/// What the shell runs inside the fresh network namespace: it brings the
/// loopback device up, then enters a user namespace that maps root back to
/// the invoking user and group, and runs the build tool there.
pub open spec fn isolated_script(uid: nat, gid: nat) -> Seq<char> {
    "ip link set dev lo up\nunshare --map-users="@ + decimal_of(uid) + ":0:1 --map-groups="@
        + decimal_of(gid)
        + ":0:1 -- makepkg --holdver --nodeps --noextract --ignorearch"@
}

/// The program and arguments of a build: the build tool itself, or, without
/// network, the namespace tool that wraps it.
pub open spec fn build_program(nonet: bool) -> Seq<char> {
    if nonet {
        "/usr/bin/unshare"@
    } else {
        "/bin/bash"@
    }
}

/// The arguments of a build.
pub open spec fn build_args(nonet: bool, uid: nat, gid: nat) -> Seq<Seq<char>> {
    if nonet {
        seq!["--map-root-user"@, "--net"@, "--"@, "sh"@, "-c"@, isolated_script(uid, gid)]
    } else {
        seq!["/usr/bin/makepkg"@] + build_flags()
    }
}

/// The name under which a build shows in process listings.
pub open spec fn builder_brand(pkgid: Seq<char>) -> Seq<char> {
    "[BUILDER/"@ + pkgid + "] /bin/bash"@
}

/// The build of a recipe as a child process: it runs in the scratch
/// directory, under the builder's brand, with the invoker's `PATH` and `HOME`
/// and with `PKGDEST` set to the temporary package directory.
pub open spec fn build_call(
    p: PkgbuildModel,
    nonet: bool,
    uid: nat,
    gid: nat,
    path: Seq<char>,
    home: Seq<char>,
    pkgdest: Seq<char>,
) -> InvocationModel {
    InvocationModel {
        program: build_program(nonet),
        arg0: Some(builder_brand(p.pkgid)),
        args: build_args(nonet, uid, gid),
        cwd: Some(p.build),
        env: seq![("PATH"@, path), ("HOME"@, home), ("PKGDEST"@, pkgdest)],
        capture_stdout: false,
    }
}

fn isolated_script_text(uid: u32, gid: u32) -> (s: String)
    ensures
        s@ == isolated_script(uid as nat, gid as nat),
{
    let mut s = String::from_str("ip link set dev lo up\nunshare --map-users=");
    s.append(decimal(uid as u64).as_str());
    s.append(":0:1 --map-groups=");
    s.append(decimal(gid as u64).as_str());
    s.append(":0:1 -- makepkg --holdver --nodeps --noextract --ignorearch");
    s
}

/// Describes the build of a recipe. `pkgdest` is the absolute path of the
/// temporary package directory; `uid` and `gid` are the invoking user's.
pub fn build_invocation(
    pkgbuild: &Pkgbuild,
    nonet: bool,
    uid: u32,
    gid: u32,
    path: &str,
    home: &str,
    pkgdest: &str,
) -> (call: Invocation)
    ensures
        call@ == build_call(pkgbuild@, nonet, uid as nat, gid as nat, path@, home@, pkgdest@),
{
    let mut args: Vec<String> = Vec::new();
    let program = if nonet {
        args.push(String::from_str("--map-root-user"));
        args.push(String::from_str("--net"));
        args.push(String::from_str("--"));
        args.push(String::from_str("sh"));
        args.push(String::from_str("-c"));
        args.push(isolated_script_text(uid, gid));
        String::from_str("/usr/bin/unshare")
    } else {
        args.push(String::from_str("/usr/bin/makepkg"));
        args.push(String::from_str("--holdver"));
        args.push(String::from_str("--nodeps"));
        args.push(String::from_str("--noextract"));
        args.push(String::from_str("--ignorearch"));
        String::from_str("/bin/bash")
    };
    assert(str_views(args@) =~= build_args(nonet, uid as nat, gid as nat));
    let mut env: Vec<(String, String)> = Vec::new();
    env.push((String::from_str("PATH"), String::from_str(path)));
    env.push((String::from_str("HOME"), String::from_str(home)));
    env.push((String::from_str("PKGDEST"), String::from_str(pkgdest)));
    let call = Invocation {
        program,
        arg0: Some(concat3("[BUILDER/", pkgbuild.pkgid.as_str(), "] /bin/bash")),
        args,
        cwd: Some(pkgbuild.build.clone()),
        env,
        capture_stdout: false,
    };
    assert(call@.env =~= seq![("PATH"@, path@), ("HOME"@, home@), ("PKGDEST"@, pkgdest@)]);
    call
}

/// Whether the output directory of recipe `i` was found with an entry in it.
pub open spec fn built_at(built: Seq<bool>, i: int) -> bool {
    0 <= i < built.len() && built[i]
}

/// What the build decision makes of a recipe: it is marked for extraction
/// exactly if its output was not found built.
pub open spec fn decided(p: PkgbuildModel, built: bool) -> PkgbuildModel {
    PkgbuildModel { extract: !built, ..p }
}

/// What is to be done before the builds start.
#[derive(Clone, Debug, PartialEq, Eq)]
pub struct BuildPrep {
    /// The recipes whose scratch directory is removed: extracted to resolve
    /// the version, but built already.
    pub clean: Vec<usize>,
    /// The recipes whose sources are extracted now: to be built, and not
    /// extracted yet.
    pub extract: Vec<usize>,
}

/// Decides for each recipe whether it is built: one whose output directory
/// holds an entry is not, and loses its scratch directory if it had one; any
/// other is, and has its sources extracted unless they were already.
/// `built[i]` says whether the output directory of recipe `i` holds an entry;
/// a recipe without such a report counts as not built.
pub fn extract_if_need_build(pkgbuilds: &mut Vec<Pkgbuild>, built: &Vec<bool>) -> (prep: BuildPrep)
    ensures
        final(pkgbuilds)@.len() == old(pkgbuilds)@.len(),
        forall|i: int|
            0 <= i < old(pkgbuilds)@.len() ==> (#[trigger] final(pkgbuilds)@[i])@ == decided(
                old(pkgbuilds)@[i]@,
                built_at(built@, i),
            ),
        index_views(prep.clean@) == positions_where(
            old(pkgbuilds)@.len() as int,
            |i: int| built_at(built@, i) && old(pkgbuilds)@[i].extract,
        ),
        index_views(prep.extract@) == positions_where(
            old(pkgbuilds)@.len() as int,
            |i: int| !built_at(built@, i) && !old(pkgbuilds)@[i].extract,
        ),
{
    let ghost to_clean = |i: int| built_at(built@, i) && old(pkgbuilds)@[i].extract;
    let ghost to_extract = |i: int| !built_at(built@, i) && !old(pkgbuilds)@[i].extract;
    let mut clean: Vec<usize> = Vec::new();
    let mut extract: Vec<usize> = Vec::new();
    let mut i: usize = 0;
    assert(index_views(clean@) =~= positions_where(0, to_clean));
    assert(index_views(extract@) =~= positions_where(0, to_extract));
    while i < pkgbuilds.len()
        invariant
            i <= pkgbuilds.len(),
            pkgbuilds@.len() == old(pkgbuilds)@.len(),
            to_clean == |i: int| built_at(built@, i) && old(pkgbuilds)@[i].extract,
            to_extract == |i: int| !built_at(built@, i) && !old(pkgbuilds)@[i].extract,
            forall|j: int|
                0 <= j < i ==> (#[trigger] pkgbuilds@[j])@ == decided(
                    old(pkgbuilds)@[j]@,
                    built_at(built@, j),
                ),
            forall|j: int| i <= j < pkgbuilds@.len() ==> pkgbuilds@[j] == old(pkgbuilds)@[j],
            index_views(clean@) == positions_where(i as int, to_clean),
            index_views(extract@) == positions_where(i as int, to_extract),
        decreases pkgbuilds.len() - i,
    {
        let is_built = i < built.len() && built[i];
        let ghost before_clean = index_views(clean@);
        let ghost before_extract = index_views(extract@);
        let ghost before = pkgbuilds@[i as int]@;
        if is_built {
            if pkgbuilds[i].extract {
                clean.push(i);
                pkgbuilds[i].extract = false;
            }
        } else {
            if !pkgbuilds[i].extract {
                pkgbuilds[i].extract = true;
                extract.push(i);
            }
        }
        proof {
            assert(pkgbuilds@[i as int]@ == decided(before, is_built));
            if to_clean(i as int) {
                assert(index_views(clean@) =~= before_clean.push(i as int));
            } else {
                assert(index_views(clean@) =~= before_clean);
            }
            if to_extract(i as int) {
                assert(index_views(extract@) =~= before_extract.push(i as int));
            } else {
                assert(index_views(extract@) =~= before_extract);
            }
        }
        i += 1;
    }
    BuildPrep { clean, extract }
}

/// The recipes that are built, in order: those marked for extraction.
pub open spec fn queued(s: Seq<PkgbuildModel>) -> Seq<int> {
    positions_where(s.len() as int, |i: int| s[i].extract)
}

/// The recipes to build, in the order of the manifest.
pub fn build_queue(pkgbuilds: &Vec<Pkgbuild>) -> (queue: Vec<usize>)
    ensures
        index_views(queue@) == queued(pkgbuild_views(pkgbuilds@)),
{
    let ghost marked = |i: int| pkgbuild_views(pkgbuilds@)[i].extract;
    let mut queue: Vec<usize> = Vec::new();
    let mut i: usize = 0;
    assert(index_views(queue@) =~= positions_where(0, marked));
    while i < pkgbuilds.len()
        invariant
            i <= pkgbuilds.len(),
            marked == |i: int| pkgbuild_views(pkgbuilds@)[i].extract,
            index_views(queue@) == positions_where(i as int, marked),
        decreases pkgbuilds.len() - i,
    {
        let ghost before = index_views(queue@);
        if pkgbuilds[i].extract {
            queue.push(i);
            assert(index_views(queue@) =~= before.push(i as int));
        }
        i += 1;
    }
    queue
}

/// A recipe whose output directory was found built is not queued: no build
/// process is started for it.
pub proof fn lemma_built_is_not_queued(s: Seq<PkgbuildModel>, built: Seq<bool>, i: int)
    requires
        0 <= i < s.len(),
        built_at(built, i),
    ensures
        !queued(Seq::new(s.len(), |j: int| decided(s[j], built_at(built, j)))).contains(i),
{
    let after = Seq::new(s.len(), |j: int| decided(s[j], built_at(built, j)));
    lemma_positions_where(after.len() as int, |j: int| after[j].extract);
}

/// Where every output directory is found built, as in a second run right
/// after a first one, nothing is queued: the run builds nothing.
pub proof fn lemma_all_built_builds_nothing(s: Seq<PkgbuildModel>, built: Seq<bool>)
    requires
        forall|i: int| 0 <= i < s.len() ==> built_at(built, i),
    ensures
        queued(Seq::new(s.len(), |j: int| decided(s[j], built_at(built, j)))).len() == 0,
{
    let after = Seq::new(s.len(), |j: int| decided(s[j], built_at(built, j)));
    let q = queued(after);
    lemma_positions_where(after.len() as int, |j: int| after[j].extract);
    if q.len() > 0 {
        assert(q.contains(q[0]));
    }
}

/// One thing the builder does to the file system around a build attempt.
#[derive(Clone, Copy, Debug, PartialEq, Eq, Structural)]
pub enum Step {
    /// Create the temporary package directory, if it is not there.
    MakeTemp,
    /// Remove the package directory and all in it.
    RemoveOutput,
    /// Remove the temporary package directory and all in it.
    RemoveTemp,
    /// Remove the scratch directory and all in it.
    RemoveScratch,
    /// Extract the recipe tree and its sources into a new scratch directory.
    ReExtract,
    /// Rename the temporary package directory to the package directory.
    Publish,
    /// Link every entry of the package directory into the view of this run.
    LinkUpdated,
    /// Sign every entry of the package directory.
    Sign,
}

/// Where the build of one recipe stands.
#[derive(Clone, Copy, Debug, PartialEq, Eq, Structural)]
pub enum BuildState {
    /// The attempt of this number, counted from one, is to run or runs.
    Attempt(u8),
    /// An attempt succeeded and its result was published.
    Built,
    /// Every attempt failed; the recipe is left out of this run.
    Skipped,
}

/// Whether the build tool ended with success.
pub open spec fn succeeded(code: Option<i32>) -> bool {
    code == Some(0i32)
}

/// The state after an attempt ended with `code`: success publishes, a
/// failure before the last attempt leads to the next one, a failure of the
/// last attempt gives the recipe up.
pub open spec fn state_after(state: BuildState, code: Option<i32>) -> BuildState {
    match state {
        BuildState::Attempt(n) => if succeeded(code) {
            BuildState::Built
        } else if n < MAX_ATTEMPTS {
            BuildState::Attempt((n + 1) as u8)
        } else {
            BuildState::Skipped
        },
        _ => state,
    }
}

/// What the builder does after an attempt ended with `code`. After success
/// it removes an old package directory, publishes by one rename, links and,
/// where a key is configured, signs the artifacts, and removes the scratch
/// directory. After a failure it removes the package directory and the
/// temporary one; before another attempt it also extracts the sources anew.
pub open spec fn steps_after(state: BuildState, code: Option<i32>, sign: bool) -> Seq<Step> {
    match state {
        BuildState::Attempt(n) => if succeeded(code) {
            if sign {
                seq![
                    Step::RemoveOutput,
                    Step::Publish,
                    Step::LinkUpdated,
                    Step::Sign,
                    Step::RemoveScratch,
                ]
            } else {
                seq![Step::RemoveOutput, Step::Publish, Step::LinkUpdated, Step::RemoveScratch]
            }
        } else if n < MAX_ATTEMPTS {
            seq![
                Step::RemoveOutput,
                Step::RemoveTemp,
                Step::RemoveScratch,
                Step::ReExtract,
                Step::MakeTemp,
            ]
        } else {
            seq![Step::RemoveOutput, Step::RemoveTemp]
        },
        _ => Seq::<Step>::empty(),
    }
}

/// Begins the build of a recipe: the first attempt is next, once the
/// temporary package directory is there.
pub fn start_build() -> (r: (BuildState, Vec<Step>))
    ensures
        r.0 == BuildState::Attempt(1),
        r.1@ == seq![Step::MakeTemp],
{
    let mut steps: Vec<Step> = Vec::new();
    steps.push(Step::MakeTemp);
    assert(steps@ =~= seq![Step::MakeTemp]);
    (BuildState::Attempt(1), steps)
}

/// Decides what follows an attempt that ended with `code`: the next state
/// and the steps to take, in order. `sign` says whether a key is configured.
pub fn after_attempt(state: BuildState, code: Option<i32>, sign: bool) -> (r: (
    BuildState,
    Vec<Step>,
))
    ensures
        r.0 == state_after(state, code),
        r.1@ == steps_after(state, code, sign),
{
    let mut steps: Vec<Step> = Vec::new();
    match state {
        BuildState::Attempt(n) => {
            let success = match code {
                Some(c) => c == 0,
                None => false,
            };
            if success {
                steps.push(Step::RemoveOutput);
                steps.push(Step::Publish);
                steps.push(Step::LinkUpdated);
                if sign {
                    steps.push(Step::Sign);
                }
                steps.push(Step::RemoveScratch);
                assert(steps@ =~= steps_after(state, code, sign));
                (BuildState::Built, steps)
            } else if n < MAX_ATTEMPTS {
                steps.push(Step::RemoveOutput);
                steps.push(Step::RemoveTemp);
                steps.push(Step::RemoveScratch);
                steps.push(Step::ReExtract);
                steps.push(Step::MakeTemp);
                assert(steps@ =~= steps_after(state, code, sign));
                (BuildState::Attempt(n + 1), steps)
            } else {
                steps.push(Step::RemoveOutput);
                steps.push(Step::RemoveTemp);
                assert(steps@ =~= steps_after(state, code, sign));
                (BuildState::Skipped, steps)
            }
        },
        _ => {
            assert(steps@ =~= steps_after(state, code, sign));
            (state, steps)
        },
    }
}

/// What a directory holds, as far as publication is concerned.
#[derive(Clone, Copy, Debug, PartialEq, Eq, Structural)]
pub enum DirState {
    /// The directory does not exist.
    Missing,
    /// The directory exists and holds nothing.
    Empty,
    /// The directory holds some, but maybe not all, artifacts of a build.
    Partial,
    /// The directory holds all artifacts of a completed build.
    Complete,
}

/// The package directory of a recipe and its temporary twin.
#[derive(Clone, Copy, Debug, PartialEq, Eq, Structural)]
pub struct Disk {
    pub output: DirState,
    pub temp: DirState,
}

/// The directories after the build tool ran: it writes into the temporary
/// directory only, and leaves it complete exactly if it succeeds.
pub open spec fn disk_after_run(disk: Disk, code: Option<i32>) -> Disk {
    Disk { output: disk.output, temp: if succeeded(code) { DirState::Complete } else { DirState::Partial } }
}

/// The directories after one step.
pub open spec fn disk_after_step(disk: Disk, step: Step) -> Disk {
    match step {
        Step::MakeTemp => if disk.temp == DirState::Missing {
            Disk { output: disk.output, temp: DirState::Empty }
        } else {
            disk
        },
        Step::RemoveOutput => Disk { output: DirState::Missing, temp: disk.temp },
        Step::RemoveTemp => Disk { output: disk.output, temp: DirState::Missing },
        Step::Publish => if disk.temp == DirState::Missing || disk.output != DirState::Missing {
            disk
        } else {
            Disk { output: disk.temp, temp: DirState::Missing }
        },
        _ => disk,
    }
}

/// The directories after the first `k` of the steps.
pub open spec fn disk_after(disk: Disk, steps: Seq<Step>, k: int) -> Disk
    decreases k,
{
    if k <= 0 || k > steps.len() {
        disk
    } else {
        disk_after_step(disk_after(disk, steps, k - 1), steps[k - 1])
    }
}

/// The package directory is missing or complete: never half-made.
pub open spec fn published_or_absent(disk: Disk) -> bool {
    disk.output == DirState::Missing || disk.output == DirState::Complete
}

impl Disk {
    /// Applies what the build tool does to the directories.
    pub fn ran(self, code: Option<i32>) -> (d: Disk)
        ensures
            d == disk_after_run(self, code),
    {
        let success = match code {
            Some(c) => c == 0,
            None => false,
        };
        Disk { output: self.output, temp: if success { DirState::Complete } else { DirState::Partial } }
    }

    /// Applies one step to the directories.
    pub fn step(self, step: Step) -> (d: Disk)
        ensures
            d == disk_after_step(self, step),
    {
        match step {
            Step::MakeTemp => {
                if self.temp == DirState::Missing {
                    Disk { output: self.output, temp: DirState::Empty }
                } else {
                    self
                }
            },
            Step::RemoveOutput => Disk { output: DirState::Missing, temp: self.temp },
            Step::RemoveTemp => Disk { output: self.output, temp: DirState::Missing },
            Step::Publish => {
                if self.temp == DirState::Missing || self.output != DirState::Missing {
                    self
                } else {
                    Disk { output: self.temp, temp: DirState::Missing }
                }
            },
            _ => self,
        }
    }

    /// Applies the steps in order.
    pub fn steps(self, steps: &Vec<Step>) -> (d: Disk)
        ensures
            d == disk_after(self, steps@, steps@.len() as int),
    {
        let mut d = self;
        let mut k: usize = 0;
        while k < steps.len()
            invariant
                k <= steps.len(),
                d == disk_after(self, steps@, k as int),
            decreases steps.len() - k,
        {
            d = d.step(steps[k]);
            k += 1;
        }
        d
    }
}

/// Atomic publication. From directories in which the package directory is
/// missing or complete, the build tool's run and every step that follows it,
/// whatever the exit code and whichever attempt it was, leave the package
/// directory missing or complete: it is never observed half-made.
pub proof fn lemma_publication_is_atomic(
    disk: Disk,
    state: BuildState,
    code: Option<i32>,
    sign: bool,
    k: int,
)
    requires
        published_or_absent(disk),
    ensures
        published_or_absent(disk_after_run(disk, code)),
        published_or_absent(disk_after(disk_after_run(disk, code), steps_after(state, code, sign), k)),
{
    let ran = disk_after_run(disk, code);
    let steps = steps_after(state, code, sign);
    reveal_with_fuel(disk_after, 6);
    if 0 < k <= steps.len() {
        assert(steps.len() <= 5);
    }
}

/// The state of a build after the first `n` of the exit codes.
pub open spec fn run_state(codes: Seq<Option<i32>>, n: int) -> BuildState
    decreases n,
{
    if n <= 0 || n > codes.len() {
        BuildState::Attempt(1)
    } else {
        state_after(run_state(codes, n - 1), codes[n - 1])
    }
}

/// The directories after an attempt in `state` ended with `code` and the
/// steps that follow it were taken. A build that has ended runs nothing.
pub open spec fn disk_after_attempt(disk: Disk, state: BuildState, code: Option<i32>, sign: bool) -> Disk {
    if state is Attempt {
        disk_after(
            disk_after_run(disk, code),
            steps_after(state, code, sign),
            steps_after(state, code, sign).len() as int,
        )
    } else {
        disk
    }
}

/// The directories of a build after the first `n` of the exit codes.
pub open spec fn run_disk(start: Disk, codes: Seq<Option<i32>>, sign: bool, n: int) -> Disk
    decreases n,
{
    if n <= 0 || n > codes.len() {
        disk_after_step(start, Step::MakeTemp)
    } else {
        disk_after_attempt(
            run_disk(start, codes, sign, n - 1),
            run_state(codes, n - 1),
            codes[n - 1],
            sign,
        )
    }
}

/// Atomic publication, over a whole build. Whatever the exit codes of the
/// attempts, the package directory is missing or complete before each
/// attempt, while the build tool runs, and after each step that follows.
pub proof fn lemma_whole_build_is_atomic(
    start: Disk,
    codes: Seq<Option<i32>>,
    sign: bool,
    n: int,
    k: int,
)
    requires
        published_or_absent(start),
        0 <= n < codes.len(),
    ensures
        published_or_absent(run_disk(start, codes, sign, n)),
        published_or_absent(disk_after_run(run_disk(start, codes, sign, n), codes[n])),
        published_or_absent(
            disk_after(
                disk_after_run(run_disk(start, codes, sign, n), codes[n]),
                steps_after(run_state(codes, n), codes[n], sign),
                k,
            ),
        ),
    decreases n,
{
    if n > 0 {
        let before = run_disk(start, codes, sign, n - 1);
        let state = run_state(codes, n - 1);
        lemma_whole_build_is_atomic(
            start,
            codes,
            sign,
            n - 1,
            steps_after(state, codes[n - 1], sign).len() as int,
        );
    }
    lemma_publication_is_atomic(
        run_disk(start, codes, sign, n),
        run_state(codes, n),
        codes[n],
        sign,
        k,
    );
}

/// After the last failed attempt neither the package directory nor the
/// temporary one is left behind, and the recipe is skipped.
pub proof fn lemma_giving_up_leaves_nothing(disk: Disk, n: u8, code: Option<i32>, sign: bool)
    requires
        n >= MAX_ATTEMPTS,
        !succeeded(code),
    ensures
        state_after(BuildState::Attempt(n), code) == BuildState::Skipped,
        disk_after(
            disk_after_run(disk, code),
            steps_after(BuildState::Attempt(n), code, sign),
            steps_after(BuildState::Attempt(n), code, sign).len() as int,
        ) == (Disk { output: DirState::Missing, temp: DirState::Missing }),
{
    reveal_with_fuel(disk_after, 3);
}

/// A successful attempt, also the last one, ends with a complete package
/// directory and no temporary one.
pub proof fn lemma_success_publishes(disk: Disk, n: u8, sign: bool)
    ensures
        state_after(BuildState::Attempt(n), Some(0i32)) == BuildState::Built,
        disk_after(
            disk_after_run(disk, Some(0i32)),
            steps_after(BuildState::Attempt(n), Some(0i32), sign),
            steps_after(BuildState::Attempt(n), Some(0i32), sign).len() as int,
        ) == (Disk { output: DirState::Complete, temp: DirState::Missing }),
{
    reveal_with_fuel(disk_after, 6);
}

/// At most three attempts are made: from the first attempt, three exit
/// codes always lead to an end.
pub proof fn lemma_at_most_three_attempts(a: Option<i32>, b: Option<i32>, c: Option<i32>)
    ensures
        !(state_after(
            state_after(state_after(BuildState::Attempt(1), a), b),
            c,
        ) is Attempt),
{
}

} // verus!
