//! Version resolution: which recipes compute their version, and what they
//! computed.

use crate::child::{four_args, shell_call, Invocation, InvocationModel};
use crate::recipe::{Pkgbuild, PkgbuildModel, Pkgver};
use crate::seqs::{index_views, positions_where};
use crate::text::{
    byte_views, concat2, concat3, string_from_utf8_lossy, trim, trimmed, utf8_lossy,
};
use vstd::prelude::*;

verus! {

/// What the shell answers when asked for the type of a function, as bytes:
/// the word `function` and a line feed.
pub open spec fn function_answer() -> Seq<u8> {
    seq![102u8, 117u8, 110u8, 99u8, 116u8, 105u8, 111u8, 110u8, 10u8]
}

/// The script that prints the type of the symbol `pkgver` of a recipe.
pub open spec fn type_probe_script() -> Seq<char> {
    ". \"$1\"; type -t pkgver"@
}

/// The script that runs the `pkgver` function of a recipe in its source tree.
pub open spec fn version_script() -> Seq<char> {
    "srcdir=\"$1\"; cd \"$1\"; source ../PKGBUILD; pkgver"@
}

/// The call that asks for the type of `pkgver` in a dumped recipe.
pub open spec fn type_probe_call(recipe_file: Seq<char>) -> InvocationModel {
    shell_call(seq!["-c"@, type_probe_script(), "Type Identifier"@, recipe_file], true)
}

/// The call that computes the version in the extracted source tree.
pub open spec fn version_call(srcdir: Seq<char>) -> InvocationModel {
    shell_call(seq!["-ec"@, version_script(), "Pkgver runner"@, srcdir], true)
}

/// Describes the child that asks for the type of `pkgver`.
pub fn type_probe(recipe_file: &str) -> (call: Invocation)
    ensures
        call@ == type_probe_call(recipe_file@),
{
    let call = Invocation {
        program: String::from_str("/bin/bash"),
        arg0: None,
        args: four_args("-c", ". \"$1\"; type -t pkgver", "Type Identifier", recipe_file),
        cwd: None,
        env: Vec::new(),
        capture_stdout: true,
    };
    assert(call@.env =~= Seq::<(Seq<char>, Seq<char>)>::empty());
    call
}

/// Describes the child that computes the version. `srcdir` is the absolute
/// path of the directory `src` under the scratch directory.
pub fn version_runner(srcdir: &str) -> (call: Invocation)
    ensures
        call@ == version_call(srcdir@),
{
    let call = Invocation {
        program: String::from_str("/bin/bash"),
        arg0: None,
        args: four_args(
            "-ec",
            "srcdir=\"$1\"; cd \"$1\"; source ../PKGBUILD; pkgver",
            "Pkgver runner",
            srcdir,
        ),
        cwd: None,
        env: Vec::new(),
        capture_stdout: true,
    };
    assert(call@.env =~= Seq::<(Seq<char>, Seq<char>)>::empty());
    call
}

/// The name under which an extraction shows in process listings.
pub open spec fn extractor_brand(name: Seq<char>) -> Seq<char> {
    "[EXTRACTOR/"@ + name + "] /bin/bash"@
}

/// The call that extracts the sources of a recipe into its scratch directory.
pub open spec fn extractor_call(script: Seq<char>, name: Seq<char>, build_dir: Seq<char>) -> InvocationModel {
    InvocationModel {
        program: "/bin/bash"@,
        arg0: Some(extractor_brand(name)),
        args: seq!["-ec"@, script, "Source extractor"@, build_dir],
        cwd: None,
        env: Seq::<(Seq<char>, Seq<char>)>::empty(),
        capture_stdout: false,
    }
}

/// Describes the child that extracts the sources of a recipe. `build_dir` is
/// the absolute path of the scratch directory.
pub fn extractor_source(script: &str, pkgbuild: &Pkgbuild, build_dir: &str) -> (call: Invocation)
    ensures
        call@ == extractor_call(script@, pkgbuild@.name, build_dir@),
{
    let call = Invocation {
        program: String::from_str("/bin/bash"),
        arg0: Some(concat3("[EXTRACTOR/", pkgbuild.name.as_str(), "] /bin/bash")),
        args: four_args("-ec", script, "Source extractor", build_dir),
        cwd: None,
        env: Vec::new(),
        capture_stdout: false,
    };
    assert(call@.env =~= Seq::<(Seq<char>, Seq<char>)>::empty());
    call
}

/// Whether the probe's output says that `pkgver` is a function: it must be
/// the answer to the letter, nothing before or after it.
pub fn has_pkgver_function(stdout: &[u8]) -> (dynamic: bool)
    ensures
        dynamic == (stdout@ == function_answer()),
{
    let answer: [u8; 9] = [102, 117, 110, 99, 116, 105, 111, 110, 10];
    assert(answer@ =~= function_answer());
    if stdout.len() != 9 {
        return false;
    }
    let mut i: usize = 0;
    while i < 9
        invariant
            i <= 9,
            stdout@.len() == 9,
            answer@ == function_answer(),
            forall|j: int| 0 <= j < i ==> stdout@[j] == answer@[j],
        decreases 9 - i,
    {
        if stdout[i] != answer[i] {
            return false;
        }
        i += 1;
    }
    assert(stdout@ =~= function_answer());
    true
}

/// Whether the probe of recipe `i` found a `pkgver` function. A recipe
/// without a probe counts as static.
pub open spec fn dynamic_at(probes: Seq<Seq<u8>>, i: int) -> bool {
    0 <= i < probes.len() && probes[i] == function_answer()
}

/// What the probes make of a recipe: one with a `pkgver` function is marked
/// for extraction, since its version is computed in its source tree.
pub open spec fn probed(p: PkgbuildModel, dynamic: bool) -> PkgbuildModel {
    PkgbuildModel { extract: p.extract || dynamic, ..p }
}

/// Marks the recipes that compute their version for extraction and returns
/// their positions, in order. `probes[i]` is what the type probe of recipe
/// `i` printed.
pub fn mark_dynamic(pkgbuilds: &mut Vec<Pkgbuild>, probes: &Vec<Vec<u8>>) -> (dynamic: Vec<usize>)
    ensures
        final(pkgbuilds)@.len() == old(pkgbuilds)@.len(),
        forall|i: int|
            0 <= i < old(pkgbuilds)@.len() ==> (#[trigger] final(pkgbuilds)@[i])@ == probed(
                old(pkgbuilds)@[i]@,
                dynamic_at(byte_views(probes@), i),
            ),
        index_views(dynamic@) == positions_where(
            old(pkgbuilds)@.len() as int,
            |i: int| dynamic_at(byte_views(probes@), i),
        ),
{
    let ghost wanted = |i: int| dynamic_at(byte_views(probes@), i);
    let mut dynamic: Vec<usize> = Vec::new();
    let mut i: usize = 0;
    assert(index_views(dynamic@) =~= positions_where(0, wanted));
    while i < pkgbuilds.len()
        invariant
            i <= pkgbuilds.len(),
            pkgbuilds@.len() == old(pkgbuilds)@.len(),
            wanted == |i: int| dynamic_at(byte_views(probes@), i),
            forall|j: int|
                0 <= j < i ==> (#[trigger] pkgbuilds@[j])@ == probed(
                    old(pkgbuilds)@[j]@,
                    dynamic_at(byte_views(probes@), j),
                ),
            forall|j: int| i <= j < pkgbuilds@.len() ==> pkgbuilds@[j] == old(pkgbuilds)@[j],
            index_views(dynamic@) == positions_where(i as int, wanted),
        decreases pkgbuilds.len() - i,
    {
        let ghost before = index_views(dynamic@);
        let ghost was = pkgbuilds@[i as int]@;
        let is_dynamic = i < probes.len() && has_pkgver_function(probes[i].as_slice());
        assert(is_dynamic == wanted(i as int));
        if is_dynamic {
            pkgbuilds[i].extract = true;
            dynamic.push(i);
            assert(index_views(dynamic@) =~= before.push(i as int));
        }
        assert(pkgbuilds@[i as int]@ == probed(was, is_dynamic));
        i += 1;
    }
    dynamic
}

/// The version that a recipe computed: what its `pkgver` function printed,
/// decoded, without white space at either end.
pub open spec fn version_of_output(stdout: Seq<u8>) -> Seq<char> {
    trimmed(utf8_lossy(stdout))
}

/// Reads the version from what the `pkgver` function printed.
pub fn dynamic_version(stdout: &[u8]) -> (version: String)
    ensures
        version@ == version_of_output(stdout@),
{
    let text = string_from_utf8_lossy(stdout);
    trim(text.as_str())
}

/// What version resolution found for recipe `i`: the computed version where
/// the recipe ran its function, nothing where it has none.
pub open spec fn resolved_at(outputs: Seq<Option<Vec<u8>>>, i: int) -> Option<Seq<char>> {
    if 0 <= i < outputs.len() && outputs[i] is Some {
        Some(version_of_output(outputs[i]->0@))
    } else {
        None
    }
}

/// What version resolution makes of a recipe: a recipe that computed a
/// version is dynamic with that version, any other keeps its version mode.
pub open spec fn versioned(p: PkgbuildModel, found: Option<Seq<char>>) -> PkgbuildModel {
    match found {
        Some(version) => PkgbuildModel { pkgver: Some(version), ..p },
        None => p,
    }
}

/// Records the computed versions. `outputs[i]` is what the `pkgver` function
/// of recipe `i` printed, or `None` where the recipe has no such function.
pub fn fill_all_pkgvers(pkgbuilds: &mut Vec<Pkgbuild>, outputs: &Vec<Option<Vec<u8>>>)
    ensures
        final(pkgbuilds)@.len() == old(pkgbuilds)@.len(),
        forall|i: int|
            0 <= i < old(pkgbuilds)@.len() ==> (#[trigger] final(pkgbuilds)@[i])@ == versioned(
                old(pkgbuilds)@[i]@,
                resolved_at(outputs@, i),
            ),
{
    let mut i: usize = 0;
    while i < pkgbuilds.len()
        invariant
            i <= pkgbuilds.len(),
            pkgbuilds@.len() == old(pkgbuilds)@.len(),
            forall|j: int|
                0 <= j < i ==> (#[trigger] pkgbuilds@[j])@ == versioned(
                    old(pkgbuilds)@[j]@,
                    resolved_at(outputs@, j),
                ),
            forall|j: int| i <= j < pkgbuilds@.len() ==> pkgbuilds@[j] == old(pkgbuilds)@[j],
        decreases pkgbuilds.len() - i,
    {
        let ghost was = pkgbuilds@[i as int]@;
        if i < outputs.len() {
            match &outputs[i] {
                Some(stdout) => {
                    let version = dynamic_version(stdout.as_slice());
                    pkgbuilds[i].pkgver = Pkgver::Func { pkgver: version };
                },
                None => {},
            }
        }
        assert(pkgbuilds@[i as int]@ == versioned(was, resolved_at(outputs@, i as int)));
        i += 1;
    }
}

/// What the version runner of recipe `i` printed, going by the first `k`
/// runs: the output of the last of those runs that was made for recipe `i`,
/// nothing where none was. Run `j` was made for the recipe at position
/// `dynamic[j]` and printed `printed[j]`.
pub open spec fn printed_for(dynamic: Seq<int>, printed: Seq<Seq<u8>>, i: int, k: int) -> Option<
    Seq<u8>,
>
    decreases k,
{
    if k <= 0 {
        None
    } else if k - 1 < dynamic.len() && k - 1 < printed.len() && dynamic[k - 1] == i {
        Some(printed[k - 1])
    } else {
        printed_for(dynamic, printed, i, k - 1)
    }
}

/// The value of an optional output.
pub open spec fn output_view(output: Option<Vec<u8>>) -> Option<Seq<u8>> {
    match output {
        Some(bytes) => Some(bytes@),
        None => None,
    }
}

/// Where every run printed something, a recipe has an output exactly if a
/// run was made for it.
pub proof fn lemma_printed_exactly_for_dynamic(
    dynamic: Seq<int>,
    printed: Seq<Seq<u8>>,
    i: int,
    k: int,
)
    requires
        0 <= k <= dynamic.len(),
        k <= printed.len(),
    ensures
        printed_for(dynamic, printed, i, k) is Some <==> dynamic.take(k).contains(i),
    decreases k,
{
    if k > 0 {
        lemma_printed_exactly_for_dynamic(dynamic, printed, i, k - 1);
        let all = dynamic.take(k);
        let front = dynamic.take(k - 1);
        assert(all.drop_last() =~= front);
        if dynamic[k - 1] == i {
            assert(all[k - 1] == i);
        } else if all.contains(i) {
            let j = choose|j: int| 0 <= j < all.len() && all[j] == i;
            assert(front[j] == i);
        } else if front.contains(i) {
            let j = choose|j: int| 0 <= j < front.len() && front[j] == i;
            assert(all[j] == i);
        }
    }
}

fn copy_bytes(bytes: &Vec<u8>) -> (out: Vec<u8>)
    ensures
        out@ == bytes@,
{
    let mut out: Vec<u8> = Vec::new();
    let mut i: usize = 0;
    while i < bytes.len()
        invariant
            i <= bytes.len(),
            out@ == bytes@.take(i as int),
        decreases bytes.len() - i,
    {
        out.push(bytes[i]);
        assert(out@ =~= bytes@.take(i as int + 1));
        i += 1;
    }
    assert(bytes@.take(bytes.len() as int) =~= bytes@);
    out
}

/// Lays the runners' outputs out by recipe. `dynamic` holds the positions
/// that [`mark_dynamic`] returned, `printed[j]` what the runner of recipe
/// `dynamic[j]` printed. Of `n` recipes, exactly those for which a run was
/// made get an output.
pub fn runner_outputs(n: usize, dynamic: &Vec<usize>, printed: &Vec<Vec<u8>>) -> (outputs: Vec<
    Option<Vec<u8>>,
>)
    ensures
        outputs@.len() == n,
        forall|i: int|
            0 <= i < n ==> output_view(#[trigger] outputs@[i]) == printed_for(
                index_views(dynamic@),
                byte_views(printed@),
                i,
                dynamic@.len() as int,
            ),
        printed@.len() >= dynamic@.len() ==> forall|i: int|
            0 <= i < n ==> ((#[trigger] outputs@[i]) is Some <==> index_views(dynamic@).contains(
                i,
            )),
{
    let mut outputs: Vec<Option<Vec<u8>>> = Vec::new();
    let mut i: usize = 0;
    while i < n
        invariant
            i <= n,
            outputs@.len() == i,
            forall|j: int| 0 <= j < i ==> (#[trigger] outputs@[j]) is None,
        decreases n - i,
    {
        outputs.push(None);
        i += 1;
    }
    let mut k: usize = 0;
    while k < dynamic.len()
        invariant
            k <= dynamic.len(),
            outputs@.len() == n,
            forall|j: int|
                0 <= j < n ==> output_view(#[trigger] outputs@[j]) == printed_for(
                    index_views(dynamic@),
                    byte_views(printed@),
                    j,
                    k as int,
                ),
        decreases dynamic.len() - k,
    {
        if k < printed.len() && dynamic[k] < n {
            let at = dynamic[k];
            outputs.set(at, Some(copy_bytes(&printed[k])));
        }
        k += 1;
    }
    proof {
        if printed@.len() >= dynamic@.len() {
            assert forall|i: int| 0 <= i < n implies ((#[trigger] outputs@[i]) is Some
                <==> index_views(dynamic@).contains(i)) by {
                lemma_printed_exactly_for_dynamic(
                    index_views(dynamic@),
                    byte_views(printed@),
                    i,
                    dynamic@.len() as int,
                );
                assert(index_views(dynamic@).take(dynamic@.len() as int) =~= index_views(
                    dynamic@,
                ));
            }
        }
    }
    outputs
}

/// What the version of recipe `i` is found to be from the runs that were
/// made: the version that its runner printed, nothing without a run.
pub open spec fn version_for(dynamic: Seq<int>, printed: Seq<Seq<u8>>, i: int) -> Option<
    Seq<char>,
> {
    match printed_for(dynamic, printed, i, dynamic.len() as int) {
        Some(stdout) => Some(version_of_output(stdout)),
        None => None,
    }
}

/// Records the versions that the runners computed: the recipes for which a
/// runner was started, and no others, become dynamic with what it printed.
pub fn record_versions(pkgbuilds: &mut Vec<Pkgbuild>, dynamic: &Vec<usize>, printed: &Vec<Vec<u8>>)
    ensures
        final(pkgbuilds)@.len() == old(pkgbuilds)@.len(),
        forall|i: int|
            0 <= i < old(pkgbuilds)@.len() ==> (#[trigger] final(pkgbuilds)@[i])@ == versioned(
                old(pkgbuilds)@[i]@,
                version_for(index_views(dynamic@), byte_views(printed@), i),
            ),
{
    let outputs = runner_outputs(pkgbuilds.len(), dynamic, printed);
    proof {
        assert forall|i: int| 0 <= i < pkgbuilds@.len() implies resolved_at(outputs@, i)
            == version_for(index_views(dynamic@), byte_views(printed@), i) by {
            assert(output_view(outputs@[i]) == printed_for(
                index_views(dynamic@),
                byte_views(printed@),
                i,
                dynamic@.len() as int,
            ));
        }
    }
    fill_all_pkgvers(pkgbuilds, &outputs);
}

/// The source tree of a recipe: the directory `src` in its scratch directory.
pub open spec fn source_tree_of(build: Seq<char>) -> Seq<char> {
    build + "/src"@
}

/// The directory in which the version runner of a recipe runs.
pub fn source_tree(pkgbuild: &Pkgbuild) -> (dir: String)
    ensures
        dir@ == source_tree_of(pkgbuild@.build),
{
    concat2(pkgbuild.build.as_str(), "/src")
}

/// Where the version resolution of one recipe stands.
#[derive(Clone, Copy, Debug, PartialEq, Eq, Structural)]
pub enum VersionState {
    /// The type probe runs.
    Probing,
    /// The recipe tree and its sources are being extracted.
    Extracting,
    /// The version runner runs in the extracted source tree.
    Running,
    /// The recipe has a fixed version.
    Static,
    /// The recipe computed its version.
    Dynamic,
}

/// What is started next for a recipe.
#[derive(Clone, Copy, Debug, PartialEq, Eq, Structural)]
pub enum VersionAction {
    /// Extract the recipe tree and its sources into the scratch directory.
    Extract,
    /// Run the version runner in the source tree.
    RunPkgver,
    /// Nothing.
    Nothing,
}

/// The state after the pending work of a recipe ended. `is_function` says,
/// of a probe that ended, whether it found a `pkgver` function.
pub open spec fn version_state_after(state: VersionState, is_function: bool) -> VersionState {
    match state {
        VersionState::Probing => if is_function {
            VersionState::Extracting
        } else {
            VersionState::Static
        },
        VersionState::Extracting => VersionState::Running,
        VersionState::Running => VersionState::Dynamic,
        _ => state,
    }
}

/// What is started once the pending work of a recipe ended: after a probe
/// that found a function the extraction, after the extraction the runner.
pub open spec fn version_action_after(state: VersionState, is_function: bool) -> VersionAction {
    match state {
        VersionState::Probing => if is_function {
            VersionAction::Extract
        } else {
            VersionAction::Nothing
        },
        VersionState::Extracting => VersionAction::RunPkgver,
        _ => VersionAction::Nothing,
    }
}

/// Decides what is started for a recipe once its pending work ended.
pub fn version_step(state: VersionState, is_function: bool) -> (r: (VersionState, VersionAction))
    ensures
        r.0 == version_state_after(state, is_function),
        r.1 == version_action_after(state, is_function),
{
    match state {
        VersionState::Probing => {
            if is_function {
                (VersionState::Extracting, VersionAction::Extract)
            } else {
                (VersionState::Static, VersionAction::Nothing)
            }
        },
        VersionState::Extracting => (VersionState::Running, VersionAction::RunPkgver),
        VersionState::Running => (VersionState::Dynamic, VersionAction::Nothing),
        VersionState::Static => (VersionState::Static, VersionAction::Nothing),
        VersionState::Dynamic => (VersionState::Dynamic, VersionAction::Nothing),
    }
}

/// The version runner of a recipe is started only when its extraction has
/// ended, and the extraction only after a probe that found a function; a
/// recipe whose probe found none starts neither.
pub proof fn lemma_runner_follows_extraction(state: VersionState, is_function: bool)
    ensures
        version_action_after(state, is_function) == VersionAction::RunPkgver <==> state
            == VersionState::Extracting,
        version_action_after(state, is_function) == VersionAction::Extract <==> state
            == VersionState::Probing && is_function,
        version_state_after(VersionState::Probing, false) == VersionState::Static,
        version_state_after(
            version_state_after(version_state_after(VersionState::Probing, true), is_function),
            is_function,
        ) == VersionState::Dynamic,
{
}

/// A recipe whose probe printed the function answer is marked for
/// extraction when the probes have been read, whatever it was before.
pub proof fn lemma_dynamic_is_extracted(p: PkgbuildModel, probes: Seq<Seq<u8>>, i: int)
    requires
        dynamic_at(probes, i),
    ensures
        probed(p, dynamic_at(probes, i)).extract,
{
}

} // verus!
