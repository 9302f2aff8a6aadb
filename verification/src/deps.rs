//! Host dependencies: what the recipes need, which of it is missing, and how
//! it is installed.

use crate::child::{extend_args, four_args, shell_call, Invocation, InvocationModel};
use crate::text::{
    byte_views, decoded_lines, excluding, lossy_lines, sorted_unique, str_views,
    strictly_sorted, strings_excluding,
};
use vstd::prelude::*;

verus! {

/// Why the host dependencies could not be ensured.
#[derive(Clone, Copy, Debug, PartialEq, Eq, Structural)]
pub enum DepError {
    /// The package manager ended without an exit code.
    NoExitCode,
    /// The package manager's query ended with a code that is neither "all
    /// present" nor "some missing".
    UnexpectedCode(i32),
    /// The installer did not end with success.
    InstallFailed,
}

/// The exit code with which the package manager reports that nothing is missing.
pub const ALL_PRESENT: i32 = 0;

/// The exit code with which the package manager reports missing packages.
pub const SOME_MISSING: i32 = 127;

/// The call that reads the dependencies of one dumped recipe: the shell runs
/// the reader script on the recipe file, and its output is read.
pub open spec fn depends_reader_call(script: Seq<char>, recipe_file: Seq<char>) -> InvocationModel {
    shell_call(seq!["-ec"@, script, "Depends reader"@, recipe_file], true)
}

/// Describes the child that reads the dependencies of one dumped recipe.
pub fn depends_reader(script: &str, recipe_file: &str) -> (call: Invocation)
    ensures
        call@ == depends_reader_call(script@, recipe_file@),
{
    let call = Invocation {
        program: String::from_str("/bin/bash"),
        arg0: None,
        args: four_args("-ec", script, "Depends reader", recipe_file),
        cwd: None,
        env: Vec::new(),
        capture_stdout: true,
    };
    assert(call@.env =~= Seq::<(Seq<char>, Seq<char>)>::empty());
    call
}

/// The dependency atoms that the readers printed, in the order of the
/// recipes: the non-empty lines of each output.
pub open spec fn reported_atoms(outputs: Seq<Seq<u8>>) -> Seq<Seq<char>>
    decreases outputs.len(),
{
    if outputs.len() == 0 {
        Seq::<Seq<char>>::empty()
    } else {
        reported_atoms(outputs.drop_last()) + decoded_lines(outputs.last())
    }
}

/// All atoms that the readers printed, in the order of the recipes.
pub fn read_atoms(outputs: &Vec<Vec<u8>>) -> (atoms: Vec<String>)
    ensures
        str_views(atoms@) == reported_atoms(byte_views(outputs@)),
{
    let mut atoms: Vec<String> = Vec::new();
    let mut k: usize = 0;
    assert(byte_views(outputs@).take(0) =~= Seq::<Seq<u8>>::empty());
    assert(str_views(atoms@) =~= reported_atoms(byte_views(outputs@).take(0)));
    while k < outputs.len()
        invariant
            k <= outputs.len(),
            str_views(atoms@) == reported_atoms(byte_views(outputs@).take(k as int)),
        decreases outputs.len() - k,
    {
        let lines = lossy_lines(outputs[k].as_slice());
        proof {
            let next = byte_views(outputs@).take(k as int + 1);
            assert(next.drop_last() =~= byte_views(outputs@).take(k as int));
            assert(next.last() == outputs@[k as int]@);
        }
        extend_args(&mut atoms, &lines);
        k += 1;
    }
    assert(byte_views(outputs@).take(outputs.len() as int) =~= byte_views(outputs@));
    atoms
}

/// The dependencies to ensure: every atom that a reader printed, once, in
/// ascending order.
pub fn collect_deps(outputs: &Vec<Vec<u8>>) -> (deps: Vec<String>)
    ensures
        strictly_sorted(str_views(deps@)),
        forall|x: Seq<char>|
            str_views(deps@).contains(x) <==> reported_atoms(byte_views(outputs@)).contains(x),
{
    sorted_unique(read_atoms(outputs))
}

/// `deps` without the packages that count as installed.
pub open spec fn not_installed(deps: Seq<Seq<char>>, basepkgs: Seq<Seq<char>>) -> Seq<Seq<char>> {
    excluding(deps, basepkgs)
}

/// Drops the dependencies that the configuration treats as installed.
pub fn drop_installed(deps: &Vec<String>, basepkgs: &Vec<String>) -> (out: Vec<String>)
    ensures
        str_views(out@) == not_installed(str_views(deps@), str_views(basepkgs@)),
{
    strings_excluding(deps, basepkgs)
}

/// The query that asks the package manager which of `deps` are missing.
pub open spec fn missing_query_call(deps: Seq<Seq<char>>) -> InvocationModel {
    InvocationModel {
        program: "/usr/bin/pacman"@,
        arg0: None,
        args: seq!["-T"@] + deps,
        cwd: None,
        env: Seq::<(Seq<char>, Seq<char>)>::empty(),
        capture_stdout: true,
    }
}

/// Describes the query for missing dependencies; with no dependency there is
/// nothing to ask.
pub fn missing_query(deps: &Vec<String>) -> (call: Option<Invocation>)
    ensures
        deps@.len() == 0 ==> call is None,
        deps@.len() > 0 ==> (call matches Some(c) && c@ == missing_query_call(str_views(deps@))),
{
    if deps.len() == 0 {
        return None;
    }
    let mut args: Vec<String> = Vec::new();
    args.push(String::from_str("-T"));
    assert(str_views(args@) =~= seq!["-T"@]);
    extend_args(&mut args, deps);
    let call = Invocation {
        program: String::from_str("/usr/bin/pacman"),
        arg0: None,
        args,
        cwd: None,
        env: Vec::new(),
        capture_stdout: true,
    };
    assert(call@.env =~= Seq::<(Seq<char>, Seq<char>)>::empty());
    Some(call)
}

/// What the answer to the query means: with the code for "all present"
/// nothing is to be installed, with the code for "some missing" the packages
/// that were listed are, and anything else is an error.
pub open spec fn query_verdict(code: Option<i32>, listed: Seq<Seq<char>>) -> Result<
    Seq<Seq<char>>,
    DepError,
> {
    match code {
        None => Err(DepError::NoExitCode),
        Some(c) => if c == ALL_PRESENT {
            Ok(Seq::<Seq<char>>::empty())
        } else if c == SOME_MISSING {
            Ok(listed)
        } else {
            Err(DepError::UnexpectedCode(c))
        },
    }
}

/// The value of a verdict on the query.
pub open spec fn verdict_view(v: Result<Vec<String>, DepError>) -> Result<Seq<Seq<char>>, DepError> {
    match v {
        Ok(missing) => Ok(str_views(missing@)),
        Err(e) => Err(e),
    }
}

/// Judges the answer to the query from its exit code and the packages it
/// listed: the packages to install, none where all are present.
pub fn judge_query(code: Option<i32>, listed: Vec<String>) -> (verdict: Result<
    Vec<String>,
    DepError,
>)
    ensures
        verdict_view(verdict) == query_verdict(code, str_views(listed@)),
{
    match code {
        None => Err(DepError::NoExitCode),
        Some(c) => {
            if c == ALL_PRESENT {
                let none: Vec<String> = Vec::new();
                assert(str_views(none@) =~= Seq::<Seq<char>>::empty());
                Ok(none)
            } else if c == SOME_MISSING {
                Ok(listed)
            } else {
                Err(DepError::UnexpectedCode(c))
            }
        },
    }
}

/// Judges the answer to the query from its exit code and its output, which
/// lists one missing package on each line.
pub fn read_query_answer(code: Option<i32>, stdout: &[u8]) -> (verdict: Result<
    Vec<String>,
    DepError,
>)
    ensures
        verdict_view(verdict) == query_verdict(code, decoded_lines(stdout@)),
{
    judge_query(code, lossy_lines(stdout))
}

/// The call that installs the missing packages with raised privileges.
pub open spec fn installer_call(missing: Seq<Seq<char>>) -> InvocationModel {
    InvocationModel {
        program: "/usr/bin/sudo"@,
        arg0: None,
        args: seq!["/usr/bin/pacman"@, "-S"@, "--noconfirm"@] + missing,
        cwd: None,
        env: Seq::<(Seq<char>, Seq<char>)>::empty(),
        capture_stdout: false,
    }
}

/// Describes the installer; with nothing missing nothing is run.
pub fn installer(missing: &Vec<String>) -> (call: Option<Invocation>)
    ensures
        missing@.len() == 0 ==> call is None,
        missing@.len() > 0 ==> (call matches Some(c) && c@ == installer_call(
            str_views(missing@),
        )),
{
    if missing.len() == 0 {
        return None;
    }
    let mut args: Vec<String> = Vec::new();
    args.push(String::from_str("/usr/bin/pacman"));
    args.push(String::from_str("-S"));
    args.push(String::from_str("--noconfirm"));
    assert(str_views(args@) =~= seq!["/usr/bin/pacman"@, "-S"@, "--noconfirm"@]);
    extend_args(&mut args, missing);
    let call = Invocation {
        program: String::from_str("/usr/bin/sudo"),
        arg0: None,
        args,
        cwd: None,
        env: Vec::new(),
        capture_stdout: false,
    };
    assert(call@.env =~= Seq::<(Seq<char>, Seq<char>)>::empty());
    Some(call)
}

/// Judges the installer by its exit code: only success is accepted.
pub fn judge_install(code: Option<i32>) -> (r: Result<(), DepError>)
    ensures
        r is Ok <==> code == Some(0i32),
        r is Err ==> r == Err::<(), DepError>(DepError::InstallFailed),
{
    match code {
        Some(c) => {
            if c == 0 {
                Ok(())
            } else {
                Err(DepError::InstallFailed)
            }
        },
        None => Err(DepError::InstallFailed),
    }
}

} // verus!
