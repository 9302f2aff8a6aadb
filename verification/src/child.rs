//! Descriptions of the child processes that a run starts. The library says
//! what is to be run; running it is left to the caller.

use crate::text::{opt_view, pair_views, str_views};
use vstd::prelude::*;

verus! {

/// A child process to start.
#[derive(Clone, Debug, PartialEq, Eq)]
pub struct Invocation {
    /// The program to execute.
    pub program: String,
    /// What the process shows as its own name, where that is not the program.
    pub arg0: Option<String>,
    /// The arguments after the name.
    pub args: Vec<String>,
    /// The directory to run in, where that is not the caller's.
    pub cwd: Option<String>,
    /// Variables set in the environment of the child.
    pub env: Vec<(String, String)>,
    /// Whether the caller reads what the child writes to standard output.
    pub capture_stdout: bool,
}

/// The mathematical value of an [`Invocation`].
pub struct InvocationModel {
    pub program: Seq<char>,
    pub arg0: Option<Seq<char>>,
    pub args: Seq<Seq<char>>,
    pub cwd: Option<Seq<char>>,
    pub env: Seq<(Seq<char>, Seq<char>)>,
    pub capture_stdout: bool,
}

impl View for Invocation {
    type V = InvocationModel;

    open spec fn view(&self) -> InvocationModel {
        InvocationModel {
            program: self.program@,
            arg0: opt_view(self.arg0),
            args: str_views(self.args@),
            cwd: opt_view(self.cwd),
            env: pair_views(self.env@),
            capture_stdout: self.capture_stdout,
        }
    }
}

/// The shell that runs the helper scripts.
pub open spec fn shell() -> Seq<char> {
    "/bin/bash"@
}

/// A call of the shell with the given arguments, in the caller's directory
/// and environment.
pub open spec fn shell_call(args: Seq<Seq<char>>, capture_stdout: bool) -> InvocationModel {
    InvocationModel {
        program: shell(),
        arg0: None,
        args,
        cwd: None,
        env: Seq::<(Seq<char>, Seq<char>)>::empty(),
        capture_stdout,
    }
}

/// Four strings as a vector.
pub fn four_args(a: &str, b: &str, c: &str, d: &str) -> (args: Vec<String>)
    ensures
        str_views(args@) == seq![a@, b@, c@, d@],
{
    let mut args: Vec<String> = Vec::new();
    args.push(String::from_str(a));
    args.push(String::from_str(b));
    args.push(String::from_str(c));
    args.push(String::from_str(d));
    assert(str_views(args@) =~= seq![a@, b@, c@, d@]);
    args
}

/// Appends copies of the strings of `more` to `args`.
pub fn extend_args(args: &mut Vec<String>, more: &Vec<String>)
    ensures
        str_views(final(args)@) == str_views(old(args)@) + str_views(more@),
{
    let mut i: usize = 0;
    assert(str_views(args@) =~= str_views(old(args)@) + str_views(more@).take(0));
    while i < more.len()
        invariant
            i <= more.len(),
            str_views(args@) == str_views(old(args)@) + str_views(more@).take(i as int),
        decreases more.len() - i,
    {
        let ghost before = str_views(args@);
        args.push(more[i].clone());
        assert(str_views(args@) =~= before.push(more@[i as int]@));
        assert(str_views(args@) =~= str_views(old(args)@) + str_views(more@).take(i as int + 1));
        i += 1;
    }
    assert(str_views(more@).take(more.len() as int) =~= str_views(more@));
}

} // verus!
