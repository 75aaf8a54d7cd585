//! Running a program that is not built in.
//!
//! The program is looked for on the search path. Where it is found, the
//! caller is asked to run it, with every argument of the command line
//! handed on in order, and to wait for it. Where it is not, the failure is
//! reported and the interpreter goes on.

use crate::action::{Action, ActionView};
use crate::search::{
    answer_on, candidate, candidate_path, may_answer, no_path_line, search_in_path,
};
use crate::system::System;
use crate::text::copy_all;
use vstd::prelude::*;

verus! {

/// What is done for a command `name` that is no built-in, where a search
/// for `name` along `path` would answer `found`.
///
/// Without a search path the interpreter cannot go on. A program that is
/// found is run from the directory found, with all of `args`; one that is
/// not found is reported.
pub open spec fn exec_spec(
    name: Seq<char>,
    args: Seq<Seq<char>>,
    path: Option<Seq<char>>,
    found: Option<Seq<char>>,
) -> ActionView {
    if path is None {
        ActionView::Abort(no_path_line())
    } else {
        match found {
            Some(dir) => (ActionView::Spawn { program: candidate(dir, name), args }),
            None => ActionView::Report(name + ": command not found"@),
        }
    }
}

/// What is reported of a program that was found and could not be started.
pub open spec fn spawn_failed_spec(program: Seq<char>, reason: Seq<char>) -> ActionView {
    ActionView::Report(program + ": "@ + reason)
}

/// Prepares the run of the program `cmd` with `args`.
///
/// On the host the outcome of the search depends on the file system; the
/// action is the one that `exec_spec` gives for some answer that a search
/// of `path` can give.
pub fn exec_binary(cmd: &str, args: &[String], path: Option<&str>, system: &System) -> (act:
    Action)
    ensures
        exists|found: Option<Seq<char>>| #[trigger]
            may_answer(path.deep_view(), found) && act@ == exec_spec(
                cmd@,
                args.deep_view(),
                path.deep_view(),
                found,
            ),
        system.is_model() ==> act@ == exec_spec(
            cmd@,
            args.deep_view(),
            path.deep_view(),
            answer_on(*system, path.deep_view(), cmd@),
        ),
{
    match path {
        None => {
            assert(may_answer(path.deep_view(), None));
            Action::Abort(String::from_str("PATH env not defined"))
        },
        Some(dirs) => {
            let found = search_in_path(cmd, dirs, system);
            assert(may_answer(path.deep_view(), found.deep_view()));
            match found {
                Some(dir) => {
                    let program = candidate_path(dir.as_str(), cmd);
                    Action::Spawn { program, args: copy_all(args) }
                },
                None => {
                    let mut line = String::from_str(cmd);
                    line.append(": command not found");
                    Action::Report(line)
                },
            }
        },
    }
}

/// What to do when a program that was found could not be started: the
/// reason is reported, and the interpreter goes on.
pub fn spawn_failed(program: &str, reason: &str) -> (act: Action)
    ensures
        act@ == spawn_failed_spec(program@, reason@),
{
    let mut line = String::from_str(program);
    line.append(": ");
    line.append(reason);
    Action::Report(line)
}

} // verus!
