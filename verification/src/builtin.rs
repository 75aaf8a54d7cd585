//! The built-in commands: `echo`, `type`, `pwd`, `cd` and `exit`.
//!
//! Each built-in answers with an `Action`. None of them touches the terminal
//! or the process: `cd` only names the directory to enter, and `exit` only
//! names the status to end with.

use crate::action::{Action, ActionView};
use crate::command::{is_builtin_name, lemma_builtin_names, shell_cmd_of, to_shell_cmd, ShellCmd};
use crate::search::{
    answer_on, candidate, candidate_path, may_answer, no_path_line, search_in_path,
};
use crate::shell::Shell;
use crate::status::{parse_status, status_of};
use crate::system::System;
use crate::text::{join, joined};
use crate::token::{is_word, lemma_tokens_of_joined, tokens_of};
use vstd::prelude::*;

verus! {

/// What `echo` does: it prints its arguments with one space between each
/// two, and an empty line where it has none.
pub open spec fn echo_spec(args: Seq<Seq<char>>) -> ActionView {
    ActionView::Print(joined(args, seq![' ']))
}

/// What `type` does for `name`, where a search for `name` along `path`
/// would answer `found`.
///
/// A built-in name is reported as such and nothing is searched. For any
/// other name the search path decides: without one the interpreter cannot go
/// on; with one, the file found is printed, or the failure reported.
pub open spec fn type_spec(
    name: Seq<char>,
    path: Option<Seq<char>>,
    found: Option<Seq<char>>,
) -> ActionView {
    if shell_cmd_of(name) is Builtin {
        ActionView::Print(name + " is a shell builtin"@)
    } else if path is None {
        ActionView::Abort(no_path_line())
    } else {
        match found {
            Some(dir) => ActionView::Print(name + " is "@ + candidate(dir, name)),
            None => ActionView::Report(name + ": not found"@),
        }
    }
}

/// What `pwd` does: it prints the working directory, or reports why it
/// cannot be told.
pub open spec fn pwd_spec(cwd: Result<Seq<char>, Seq<char>>) -> ActionView {
    match cwd {
        Ok(dir) => ActionView::Print(dir),
        Err(reason) => ActionView::Report(reason),
    }
}

/// Whether `dir` begins with the tilde that stands for the home directory:
/// it is `~`, or begins with `~/`.
pub open spec fn wants_home(dir: Seq<char>) -> bool {
    &&& dir.len() >= 1
    &&& dir[0] == '~'
    &&& dir.len() >= 2 ==> dir[1] == '/'
}

/// `dir` with its leading tilde replaced by `home`.
pub open spec fn expand_home(dir: Seq<char>, home: Seq<char>) -> Seq<char> {
    home + dir.skip(1)
}

/// What `cd` does, where the home directory is `home`.
///
/// Without an argument, or with an empty one, the target is the working
/// directory itself. A leading tilde is replaced by the home directory. The
/// caller is asked to enter the target; where the working directory or the
/// home directory is needed and cannot be told, that is reported instead.
pub open spec fn cd_spec(
    cwd: Result<Seq<char>, Seq<char>>,
    arg: Option<Seq<char>>,
    home: Option<Seq<char>>,
) -> ActionView {
    let wanted = match arg {
        Some(dir) if dir.len() > 0 => Ok(dir),
        _ => cwd,
    };
    match wanted {
        Err(reason) => ActionView::Report(reason),
        Ok(dir) => if wants_home(dir) {
            match home {
                Some(home) => ActionView::ChangeDir(expand_home(dir, home)),
                None => ActionView::Report("HOME directory not found"@),
            }
        } else {
            ActionView::ChangeDir(dir)
        },
    }
}

/// What `exit` does: it ends the process with the status that its argument
/// writes, or with 0 where it has none. An argument that writes no status is
/// reported, and the interpreter goes on.
pub open spec fn exit_spec(arg: Option<Seq<char>>) -> ActionView {
    match arg {
        None => ActionView::Exit(0),
        Some(word) => match status_of(word) {
            Some(code) => ActionView::Exit(code),
            None => ActionView::Report("exit: "@ + word + ": invalid status code"@),
        },
    }
}

/// The line that `echo` prints splits into the words that `echo` was
/// given: echoed again, it is printed unchanged.
pub proof fn lemma_echo_rejoin(args: Seq<Seq<char>>)
    requires
        forall|i: int| 0 <= i < args.len() ==> is_word(#[trigger] args[i]),
    ensures
        tokens_of(joined(args, seq![' '])) == args,
        echo_spec(tokens_of(joined(args, seq![' ']))) == echo_spec(args),
{
    lemma_tokens_of_joined(args, seq![' ']);
}

/// `type` calls a name a shell builtin exactly when it is one of the five
/// built-in names, whatever the search path holds.
pub proof fn lemma_type_names_builtins(
    name: Seq<char>,
    path: Option<Seq<char>>,
    found: Option<Seq<char>>,
)
    ensures
        type_spec(name, path, found) == ActionView::Print(name + " is a shell builtin"@)
            <==> is_builtin_name(name),
{
    lemma_builtin_names(name);
    if !is_builtin_name(name) && path is Some && found is Some {
        let dir = found->0;
        let printed = name + " is "@ + candidate(dir, name);
        let builtin = name + " is a shell builtin"@;
        reveal_strlit(" is ");
        reveal_strlit(" is a shell builtin");
        if printed.len() == builtin.len() {
            // The printed line has a slash where the other has none.
            let slash = (name.len() + 4 + dir.len()) as int;
            assert(printed[slash] == '/');
            assert(builtin[slash] == " is a shell builtin"@[slash - name.len()]);
            assert(" is a shell builtin"@ =~= seq![
                ' ',
                'i',
                's',
                ' ',
                'a',
                ' ',
                's',
                'h',
                'e',
                'l',
                'l',
                ' ',
                'b',
                'u',
                'i',
                'l',
                't',
                'i',
                'n',
            ]);
            assert(printed != builtin);
        }
    }
}

/// `cd ~` asks for the home directory, and `cd ~/sub` for `sub` under it.
pub proof fn lemma_cd_home(cwd: Result<Seq<char>, Seq<char>>, sub: Seq<char>, home: Seq<char>)
    ensures
        cd_spec(cwd, Some("~"@), Some(home)) == ActionView::ChangeDir(home),
        cd_spec(cwd, Some("~/"@ + sub), Some(home)) == ActionView::ChangeDir(home + "/"@ + sub),
{
    reveal_strlit("~");
    reveal_strlit("~/");
    reveal_strlit("/");
    assert(expand_home("~"@, home) =~= home);
    let dir = "~/"@ + sub;
    assert(dir[0] == '~' && dir[1] == '/');
    assert(expand_home(dir, home) =~= home + "/"@ + sub);
}

/// The `echo` built-in.
pub fn echo(args: &[String]) -> (act: Action)
    ensures
        act@ == echo_spec(args.deep_view()),
{
    proof {
        reveal_strlit(" ");
        assert(" "@ =~= seq![' ']);
    }
    Action::Print(join(args, " "))
}

/// The `type` built-in: says what `cmd` would run.
///
/// On the host the outcome of the search depends on the file system; the
/// action is the one that `type_spec` gives for some answer that a search of
/// `path` can give.
pub fn type_of(cmd: &str, path: Option<&str>, system: &System) -> (act: Action)
    ensures
        exists|found: Option<Seq<char>>| #[trigger]
            may_answer(path.deep_view(), found) && act@ == type_spec(
                cmd@,
                path.deep_view(),
                found,
            ),
        system.is_model() ==> act@ == type_spec(
            cmd@,
            path.deep_view(),
            answer_on(*system, path.deep_view(), cmd@),
        ),
{
    match to_shell_cmd(cmd) {
        ShellCmd::Builtin(_) => {
            let mut line = String::from_str(cmd);
            line.append(" is a shell builtin");
            assert(may_answer(path.deep_view(), None));
            Action::Print(line)
        },
        ShellCmd::Binary => match path {
            None => {
                assert(may_answer(path.deep_view(), None));
                Action::Abort(String::from_str("PATH env not defined"))
            },
            Some(dirs) => {
                let found = search_in_path(cmd, dirs, system);
                assert(may_answer(path.deep_view(), found.deep_view()));
                match found {
                    Some(dir) => {
                        let file = candidate_path(dir.as_str(), cmd);
                        let mut line = String::from_str(cmd);
                        line.append(" is ");
                        line.append(file.as_str());
                        Action::Print(line)
                    },
                    None => {
                        let mut line = String::from_str(cmd);
                        line.append(": not found");
                        Action::Report(line)
                    },
                }
            },
        },
    }
}

/// The `pwd` built-in.
pub fn pwd(shell: &Shell) -> (act: Action)
    ensures
        act@ == pwd_spec(shell@.cwd),
{
    match &shell.cwd {
        Ok(dir) => Action::Print(dir.clone()),
        Err(reason) => Action::Report(reason.clone()),
    }
}

/// The `cd` built-in: names the directory to enter. The state changes only
/// when the caller has entered it and `Shell::finish_cd` takes note.
///
/// The home directory is asked for only where the target begins with a
/// tilde. On the host it depends on the environment; the action is the
/// one that `cd_spec` gives for some home directory, or for none.
pub fn cd(shell: &Shell, arg: Option<&str>, system: &System) -> (act: Action)
    ensures
        exists|home: Option<Seq<char>>|
            act@ == #[trigger] cd_spec(shell@.cwd, arg.deep_view(), home),
        system.is_model() ==> act@ == cd_spec(shell@.cwd, arg.deep_view(), system.model_home()),
{
    let given: &str = match arg {
        Some(dir) => dir,
        None => "",
    };
    proof {
        reveal_strlit("");
    }
    let dir: &str = if given.unicode_len() > 0 {
        given
    } else {
        match &shell.cwd {
            Ok(cwd) => cwd.as_str(),
            Err(reason) => {
                let act = Action::Report(reason.clone());
                assert(act@ == cd_spec(shell@.cwd, arg.deep_view(), None));
                return act;
            },
        }
    };
    if starts_with_tilde(dir) {
        let home = system.home_dir();
        let act = match home {
            Some(home) => {
                let mut target = home;
                target.append(dir.substring_char(1, dir.unicode_len()));
                Action::ChangeDir(target)
            },
            None => Action::Report(String::from_str("HOME directory not found")),
        };
        assert(act@ == cd_spec(shell@.cwd, arg.deep_view(), home.deep_view()));
        act
    } else {
        let act = Action::ChangeDir(String::from_str(dir));
        assert(act@ == cd_spec(shell@.cwd, arg.deep_view(), None));
        act
    }
}

/// The `exit` built-in.
pub fn exit(arg: Option<&str>) -> (act: Action)
    ensures
        act@ == exit_spec(arg.deep_view()),
{
    match arg {
        None => Action::Exit(0),
        Some(word) => match parse_status(word) {
            Some(code) => Action::Exit(code),
            None => {
                let mut line = String::from_str("exit: ");
                line.append(word);
                line.append(": invalid status code");
                Action::Report(line)
            },
        },
    }
}

/// Whether `dir` is `~` or begins with `~/`.
fn starts_with_tilde(dir: &str) -> (tilde: bool)
    ensures
        tilde == wants_home(dir@),
{
    let n = dir.unicode_len();
    if n == 0 {
        false
    } else if dir.get_char(0) != '~' {
        false
    } else if n == 1 {
        true
    } else {
        dir.get_char(1) == '/'
    }
}

} // verus!
