//! What the interpreter asks its caller to do.
//!
//! The interpreter itself writes nothing, starts nothing and changes no
//! directory. For each line it says what is to be done, and the caller,
//! which owns the terminal and the process, does it.

use vstd::prelude::*;

verus! {

/// One thing to do in answer to a line of input.
#[derive(Debug, PartialEq, Eq)]
pub enum Action {
    /// Nothing: go on to the next prompt.
    Nothing,
    /// Write this line to standard output.
    Print(String),
    /// Write this line to standard error.
    Report(String),
    /// Make this directory the working directory, then tell the shell how
    /// that went.
    ChangeDir(String),
    /// End the process with this status.
    Exit(i32),
    /// Run this program with these arguments and wait for it to end.
    Spawn { program: String, args: Vec<String> },
    /// Give up with this diagnostic: the process cannot go on.
    Abort(String),
}

/// An `Action` with its texts as sequences of characters.
pub enum ActionView {
    Nothing,
    Print(Seq<char>),
    Report(Seq<char>),
    ChangeDir(Seq<char>),
    Exit(i32),
    Spawn { program: Seq<char>, args: Seq<Seq<char>> },
    Abort(Seq<char>),
}

impl View for Action {
    type V = ActionView;

    open spec fn view(&self) -> ActionView {
        match self {
            Action::Nothing => ActionView::Nothing,
            Action::Print(line) => ActionView::Print(line@),
            Action::Report(line) => ActionView::Report(line@),
            Action::ChangeDir(dir) => ActionView::ChangeDir(dir@),
            Action::Exit(code) => ActionView::Exit(*code),
            Action::Spawn { program, args } => ActionView::Spawn {
                program: program@,
                args: args.deep_view(),
            },
            Action::Abort(line) => ActionView::Abort(line@),
        }
    }
}

impl ActionView {
    /// Whether the interpreter goes on to the next prompt once this is done.
    pub open spec fn continues(self) -> bool {
        !(self is Exit) && !(self is Abort)
    }
}

impl Action {
    /// Whether the interpreter goes on to the next prompt once this is done.
    pub fn continues(&self) -> (goes_on: bool)
        ensures
            goes_on == self@.continues(),
    {
        match self {
            Action::Exit(_) => false,
            Action::Abort(_) => false,
            _ => true,
        }
    }
}

} // verus!
