//! Telling built-in commands from programs.
//!
//! The table of built-ins is fixed and matched exactly: no prefixes, no
//! folding of case. Every other name is a program to be found on the search
//! path.

use crate::text::same_text;
use vstd::prelude::*;

verus! {

/// The commands that the interpreter carries out itself.
#[derive(Debug, Clone, Copy, PartialEq, Eq, Structural)]
pub enum BuiltinCmd {
    Echo,
    Type,
    Exit,
    Pwd,
    Cd,
}

/// What a command name stands for.
#[derive(Debug, Clone, Copy, PartialEq, Eq, Structural)]
pub enum ShellCmd {
    Builtin(BuiltinCmd),
    Binary,
}

/// The built-in that `name` names, if it names one.
pub open spec fn builtin_of(name: Seq<char>) -> Option<BuiltinCmd> {
    if name == "echo"@ {
        Some(BuiltinCmd::Echo)
    } else if name == "type"@ {
        Some(BuiltinCmd::Type)
    } else if name == "exit"@ {
        Some(BuiltinCmd::Exit)
    } else if name == "pwd"@ {
        Some(BuiltinCmd::Pwd)
    } else if name == "cd"@ {
        Some(BuiltinCmd::Cd)
    } else {
        None
    }
}

/// What `name` stands for: a built-in, or else a program.
pub open spec fn shell_cmd_of(name: Seq<char>) -> ShellCmd {
    match builtin_of(name) {
        Some(kind) => ShellCmd::Builtin(kind),
        None => ShellCmd::Binary,
    }
}

/// Whether `name` is one of the five built-in names.
pub open spec fn is_builtin_name(name: Seq<char>) -> bool {
    name == "echo"@ || name == "type"@ || name == "exit"@ || name == "pwd"@ || name == "cd"@
}

impl BuiltinCmd {
    /// The name by which the built-in is called.
    pub open spec fn name(self) -> Seq<char> {
        match self {
            BuiltinCmd::Echo => "echo"@,
            BuiltinCmd::Type => "type"@,
            BuiltinCmd::Exit => "exit"@,
            BuiltinCmd::Pwd => "pwd"@,
            BuiltinCmd::Cd => "cd"@,
        }
    }
}

/// A name is classified as a built-in exactly when it is one of the five
/// built-in names, and then as the built-in of that name.
pub proof fn lemma_builtin_names(name: Seq<char>)
    ensures
        shell_cmd_of(name) is Builtin <==> is_builtin_name(name),
        shell_cmd_of(name) matches ShellCmd::Builtin(kind) ==> kind.name() == name,
{
}

/// Each built-in is found again under its own name.
pub proof fn lemma_builtin_of_name(kind: BuiltinCmd)
    ensures
        shell_cmd_of(kind.name()) == ShellCmd::Builtin(kind),
{
    reveal_strlit("echo");
    reveal_strlit("type");
    reveal_strlit("exit");
    reveal_strlit("pwd");
    reveal_strlit("cd");
    let name = kind.name();
    match kind {
        BuiltinCmd::Echo => {},
        BuiltinCmd::Type => {
            assert(name[0] != "echo"@[0]);
        },
        BuiltinCmd::Exit => {
            assert(name[1] != "echo"@[1]);
            assert(name[0] != "type"@[0]);
        },
        BuiltinCmd::Pwd => {
            assert(name.len() != "echo"@.len());
        },
        BuiltinCmd::Cd => {
            assert(name.len() != "echo"@.len());
            assert(name.len() != "pwd"@.len());
        },
    }
}

/// Classifies a command name.
pub fn to_shell_cmd(name: &str) -> (cmd: ShellCmd)
    ensures
        cmd == shell_cmd_of(name@),
{
    if same_text(name, "echo") {
        ShellCmd::Builtin(BuiltinCmd::Echo)
    } else if same_text(name, "type") {
        ShellCmd::Builtin(BuiltinCmd::Type)
    } else if same_text(name, "exit") {
        ShellCmd::Builtin(BuiltinCmd::Exit)
    } else if same_text(name, "pwd") {
        ShellCmd::Builtin(BuiltinCmd::Pwd)
    } else if same_text(name, "cd") {
        ShellCmd::Builtin(BuiltinCmd::Cd)
    } else {
        ShellCmd::Binary
    }
}

} // verus!
