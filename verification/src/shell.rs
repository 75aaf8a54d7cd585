//! The interpreter: its state, and what it does for each line.
//!
//! The only state is the working directory. `step` takes one reading of the
//! input through splitting, classifying and carrying out, and answers with
//! an `Action` for the caller to perform. Changing directory takes two
//! moves, because only the caller can try it: `cd` names the target, and
//! `finish_cd` takes note of how the attempt went.

use crate::action::{Action, ActionView};
use crate::builtin::{
    cd, cd_spec, echo, echo_spec, exit, exit_spec, pwd, pwd_spec, type_of, type_spec,
};
use crate::command::{
    is_builtin_name, lemma_builtin_names, lemma_builtin_of_name, shell_cmd_of, to_shell_cmd,
    BuiltinCmd, ShellCmd,
};
use crate::launch::{exec_binary, exec_spec};
use crate::search::{answer_on, candidate, lemma_absent_is_not_found, may_answer, search_dirs};
use crate::system::System;
use crate::text::joined;
use crate::token::{all_blank, is_word, lemma_tokens_of_spaced, spaced, tokenize, tokens_of};
use vstd::prelude::*;
use vstd::slice::slice_subrange;

verus! {

/// The state of the interpreter.
#[derive(Debug, PartialEq, Eq)]
pub struct Shell {
    /// The working directory, or why it cannot be told.
    pub cwd: Result<String, String>,
}

/// A `Shell` with its texts as sequences of characters.
pub struct ShellView {
    pub cwd: Result<Seq<char>, Seq<char>>,
}

/// A directory, or the reason why there is none, as sequences of characters.
pub open spec fn text_of(dir: Result<String, String>) -> Result<Seq<char>, Seq<char>> {
    match dir {
        Ok(name) => Ok(name@),
        Err(reason) => Err(reason@),
    }
}

/// How an attempt to change directory went, as sequences of characters.
pub open spec fn entered_text(entered: Option<Result<String, String>>) -> Option<
    Result<Seq<char>, Seq<char>>,
> {
    match entered {
        Some(cwd) => Some(text_of(cwd)),
        None => None,
    }
}

impl View for Shell {
    type V = ShellView;

    open spec fn view(&self) -> ShellView {
        ShellView { cwd: text_of(self.cwd) }
    }
}

/// The state after an attempt to change directory: `entered` is `None`
/// where the attempt failed, and else what the working directory now is.
pub open spec fn after_cd(
    shell: ShellView,
    entered: Option<Result<Seq<char>, Seq<char>>>,
) -> ShellView {
    match entered {
        Some(cwd) => ShellView { cwd },
        None => shell,
    }
}

/// What is done after an attempt to enter `target`: a failure is reported.
pub open spec fn finish_cd_spec(
    target: Seq<char>,
    entered: Option<Result<Seq<char>, Seq<char>>>,
) -> ActionView {
    match entered {
        Some(_) => ActionView::Nothing,
        None => ActionView::Report("cd: "@ + target + ": No such file or directory"@),
    }
}

/// What is done for a command line of `tokens`, where a search along `path`
/// would answer `found` and the home directory is `home`.
///
/// A line without words asks for nothing. Otherwise the first word names
/// the command and the others are its arguments.
pub open spec fn respond_spec(
    shell: ShellView,
    tokens: Seq<Seq<char>>,
    path: Option<Seq<char>>,
    found: Option<Seq<char>>,
    home: Option<Seq<char>>,
) -> ActionView {
    if tokens.len() == 0 {
        ActionView::Nothing
    } else {
        let name = tokens[0];
        let args = tokens.skip(1);
        let arg = if args.len() > 0 {
            Some(args[0])
        } else {
            None
        };
        match shell_cmd_of(name) {
            ShellCmd::Builtin(BuiltinCmd::Echo) => echo_spec(args),
            ShellCmd::Builtin(BuiltinCmd::Type) => match arg {
                Some(subject) => type_spec(subject, path, found),
                None => ActionView::Report("type: missing argument"@),
            },
            ShellCmd::Builtin(BuiltinCmd::Exit) => exit_spec(arg),
            ShellCmd::Builtin(BuiltinCmd::Pwd) => pwd_spec(shell.cwd),
            ShellCmd::Builtin(BuiltinCmd::Cd) => cd_spec(shell.cwd, arg, home),
            ShellCmd::Binary => exec_spec(name, args, path, found),
        }
    }
}

/// The name that a command line of `tokens` has looked up on the search
/// path, if it has any looked up: the argument of `type`, or else the
/// command itself.
pub open spec fn subject_of(tokens: Seq<Seq<char>>) -> Seq<char> {
    if tokens.len() > 1 && shell_cmd_of(tokens[0]) == ShellCmd::Builtin(BuiltinCmd::Type) {
        tokens[1]
    } else if tokens.len() > 0 {
        tokens[0]
    } else {
        Seq::empty()
    }
}

/// What is done for a command line of `tokens` on a model machine.
pub open spec fn respond_on(
    system: System,
    shell: ShellView,
    tokens: Seq<Seq<char>>,
    path: Option<Seq<char>>,
) -> ActionView {
    respond_spec(
        shell,
        tokens,
        path,
        answer_on(system, path, subject_of(tokens)),
        system.model_home(),
    )
}

/// What is done for one reading of the input: the end of the input ends the
/// process with status 0, and a line is answered by its words.
pub open spec fn step_spec(
    shell: ShellView,
    input: Option<Seq<char>>,
    path: Option<Seq<char>>,
    found: Option<Seq<char>>,
    home: Option<Seq<char>>,
) -> ActionView {
    match input {
        Some(line) => respond_spec(shell, tokens_of(line), path, found, home),
        None => ActionView::Exit(0),
    }
}

/// What is done for one reading of the input on a model machine.
pub open spec fn step_on(
    system: System,
    shell: ShellView,
    input: Option<Seq<char>>,
    path: Option<Seq<char>>,
) -> ActionView {
    match input {
        Some(line) => respond_on(system, shell, tokens_of(line), path),
        None => ActionView::Exit(0),
    }
}

/// A command that is no built-in and was not found on the search path is
/// reported as not found, in these words, and the interpreter goes on.
pub proof fn lemma_unknown_command(
    shell: ShellView,
    tokens: Seq<Seq<char>>,
    path: Seq<char>,
    home: Option<Seq<char>>,
)
    requires
        tokens.len() > 0,
        !is_builtin_name(tokens[0]),
    ensures
        respond_spec(shell, tokens, Some(path), None, home) == ActionView::Report(
            tokens[0] + ": command not found"@,
        ),
        respond_spec(shell, tokens, Some(path), None, home).continues(),
{
    lemma_builtin_names(tokens[0]);
}

/// On a model machine, a command that is no built-in and stands in no
/// directory of the search path is reported as not found, and the
/// interpreter goes on.
pub proof fn lemma_unknown_command_on(
    system: System,
    shell: ShellView,
    tokens: Seq<Seq<char>>,
    path: Seq<char>,
)
    requires
        tokens.len() > 0,
        !is_builtin_name(tokens[0]),
        forall|i: int|
            0 <= i < search_dirs(path).len() ==> !system.model_files().contains(
                candidate(#[trigger] search_dirs(path)[i], tokens[0]),
            ),
    ensures
        respond_on(system, shell, tokens, Some(path)) == ActionView::Report(
            tokens[0] + ": command not found"@,
        ),
        respond_on(system, shell, tokens, Some(path)).continues(),
{
    lemma_builtin_names(tokens[0]);
    lemma_absent_is_not_found(system, path, tokens[0]);
}

/// `echo` prints its arguments with single spaces between them, however
/// much white space separated the words of the line, and whatever white
/// space stood before the first and after the last.
pub proof fn lemma_echo_ignores_spacing(
    shell: ShellView,
    args: Seq<Seq<char>>,
    gaps: Seq<Seq<char>>,
    tail: Seq<char>,
    path: Option<Seq<char>>,
    found: Option<Seq<char>>,
    home: Option<Seq<char>>,
)
    requires
        gaps.len() == args.len() + 1,
        forall|i: int| 0 <= i < args.len() ==> is_word(#[trigger] args[i]),
        forall|i: int| 0 <= i < gaps.len() ==> all_blank(#[trigger] gaps[i]),
        forall|i: int| 1 <= i < gaps.len() ==> (#[trigger] gaps[i]).len() > 0,
        all_blank(tail),
    ensures
        step_spec(shell, Some(spaced(seq!["echo"@] + args, gaps) + tail), path, found, home)
            == ActionView::Print(joined(args, seq![' '])),
{
    let words = seq!["echo"@] + args;
    assert(is_word("echo"@)) by {
        reveal_strlit("echo");
    }
    assert forall|i: int| 0 <= i < words.len() implies is_word(#[trigger] words[i]) by {
        if i > 0 {
            assert(words[i] == args[i - 1]);
        }
    }
    lemma_tokens_of_spaced(words, gaps, tail);
    lemma_builtin_of_name(BuiltinCmd::Echo);
    assert(words.skip(1) =~= args);
}

/// After a change of directory that succeeded, `pwd` prints the directory
/// entered; after one that failed, it prints what it printed before.
pub proof fn lemma_cd_then_pwd(
    shell: ShellView,
    entered: Option<Result<Seq<char>, Seq<char>>>,
    tokens: Seq<Seq<char>>,
    path: Option<Seq<char>>,
    found: Option<Seq<char>>,
    home: Option<Seq<char>>,
)
    requires
        tokens.len() > 0,
        tokens[0] == "pwd"@,
    ensures
        entered matches Some(Ok(dir)) ==> respond_spec(
            after_cd(shell, entered),
            tokens,
            path,
            found,
            home,
        ) == ActionView::Print(dir),
        entered is None ==> respond_spec(after_cd(shell, entered), tokens, path, found, home)
            == respond_spec(shell, tokens, path, found, home),
{
    lemma_builtin_of_name(BuiltinCmd::Pwd);
}

impl Shell {
    /// A shell whose working directory is `cwd`, or cannot be told for the
    /// reason that `cwd` gives.
    pub fn new(cwd: Result<String, String>) -> (shell: Shell)
        ensures
            shell.cwd == cwd,
    {
        Shell { cwd }
    }

    /// Takes note of how the attempt to enter `target` went. `entered` is
    /// `None` where the directory could not be entered; the state is then
    /// left as it was and the failure is reported. Otherwise `entered` is
    /// the working directory as it now is, or why it cannot be told.
    pub fn finish_cd(&mut self, target: &str, entered: Option<Result<String, String>>) -> (act:
        Action)
        ensures
            final(self)@ == after_cd(old(self)@, entered_text(entered)),
            act@ == finish_cd_spec(target@, entered_text(entered)),
    {
        match entered {
            Some(cwd) => {
                self.cwd = cwd;
                Action::Nothing
            },
            None => {
                let mut line = String::from_str("cd: ");
                line.append(target);
                line.append(": No such file or directory");
                Action::Report(line)
            },
        }
    }

    /// Carries out a command line that is already split into words.
    ///
    /// On the host the action is the one that `respond_spec` gives for some
    /// answer that a search of `path` can give and some home directory.
    pub fn run(&self, tokens: &Vec<String>, path: Option<&str>, system: &System) -> (act: Action)
        ensures
            exists|found: Option<Seq<char>>, home: Option<Seq<char>>|
                may_answer(path.deep_view(), found) && act@ == #[trigger] respond_spec(
                    self@,
                    tokens.deep_view(),
                    path.deep_view(),
                    found,
                    home,
                ),
            system.is_model() ==> act@ == respond_on(
                *system,
                self@,
                tokens.deep_view(),
                path.deep_view(),
            ),
    {
        let ghost words = tokens.deep_view();
        let ghost dirs = path.deep_view();
        let ghost mut found: Option<Seq<char>> = None;
        let ghost mut home: Option<Seq<char>> = None;
        if tokens.len() == 0 {
            let act = Action::Nothing;
            assert(may_answer(dirs, found) && act@ == respond_spec(
                self@,
                words,
                dirs,
                found,
                home,
            ));
            return act;
        }
        let name = tokens[0].as_str();
        let args = slice_subrange(tokens.as_slice(), 1, tokens.len());
        let arg: Option<&str> = if tokens.len() > 1 {
            Some(tokens[1].as_str())
        } else {
            None
        };
        assert(args.deep_view() =~= words.skip(1));
        let act = match to_shell_cmd(name) {
            ShellCmd::Builtin(BuiltinCmd::Echo) => echo(args),
            ShellCmd::Builtin(BuiltinCmd::Type) => match arg {
                Some(subject) => {
                    let act = type_of(subject, path, system);
                    proof {
                        found = choose|found: Option<Seq<char>>| #[trigger]
                            may_answer(dirs, found) && act@ == type_spec(subject@, dirs, found);
                    }
                    act
                },
                None => Action::Report(String::from_str("type: missing argument")),
            },
            ShellCmd::Builtin(BuiltinCmd::Exit) => exit(arg),
            ShellCmd::Builtin(BuiltinCmd::Pwd) => pwd(self),
            ShellCmd::Builtin(BuiltinCmd::Cd) => {
                let act = cd(self, arg, system);
                proof {
                    home = choose|home: Option<Seq<char>>|
                        act@ == #[trigger] cd_spec(self@.cwd, arg.deep_view(), home);
                }
                act
            },
            ShellCmd::Binary => {
                let act = exec_binary(name, args, path, system);
                proof {
                    found = choose|found: Option<Seq<char>>| #[trigger]
                        may_answer(dirs, found) && act@ == exec_spec(
                            name@,
                            args.deep_view(),
                            dirs,
                            found,
                        );
                }
                act
            },
        };
        assert(may_answer(dirs, found) && act@ == respond_spec(self@, words, dirs, found, home));
        act
    }

    /// Answers one reading of the input: a line, or `None` at its end.
    ///
    /// The line is split into words, the first word is classified, and the
    /// command is carried out as far as the interpreter can; the action says
    /// what is left to the caller. The end of the input ends the process
    /// with status 0.
    pub fn step(&self, input: Option<&str>, path: Option<&str>, system: &System) -> (act: Action)
        ensures
            exists|found: Option<Seq<char>>, home: Option<Seq<char>>|
                may_answer(path.deep_view(), found) && act@ == #[trigger] step_spec(
                    self@,
                    input.deep_view(),
                    path.deep_view(),
                    found,
                    home,
                ),
            system.is_model() ==> act@ == step_on(
                *system,
                self@,
                input.deep_view(),
                path.deep_view(),
            ),
    {
        let ghost dirs = path.deep_view();
        let ghost mut found: Option<Seq<char>> = None;
        let ghost mut home: Option<Seq<char>> = None;
        let act = match input {
            Some(line) => {
                let tokens = tokenize(line);
                let act = self.run(&tokens, path, system);
                proof {
                    let answers = choose|found: Option<Seq<char>>, home: Option<Seq<char>>|
                        may_answer(dirs, found) && act@ == #[trigger] respond_spec(
                            self@,
                            tokens.deep_view(),
                            dirs,
                            found,
                            home,
                        );
                    found = answers.0;
                    home = answers.1;
                }
                act
            },
            None => Action::Exit(0),
        };
        assert(may_answer(dirs, found) && act@ == step_spec(
            self@,
            input.deep_view(),
            dirs,
            found,
            home,
        ));
        act
    }
}

} // verus!
