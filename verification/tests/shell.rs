use minishell::action::Action;
use minishell::builtin::{cd, pwd};
use minishell::shell::Shell;
use minishell::system::System;

fn words(items: &[&str]) -> Vec<String> {
    items.iter().map(|s| s.to_string()).collect()
}

fn machine(files: &[&str], home: Option<&str>) -> System {
    System::Model { files: words(files), home: home.map(|s| s.to_string()) }
}

fn shell_in(dir: &str) -> Shell {
    Shell::new(Ok(dir.to_string()))
}

const PATH: Option<&str> = Some("/usr/bin:/bin");

#[test]
fn scenario_echo_hello_world() {
    let act = shell_in("/").step(Some("echo   hello   world"), PATH, &machine(&[], None));
    assert_eq!(act, Action::Print("hello world".to_string()));
}

#[test]
fn scenario_echo_on_the_host() {
    let act = shell_in("/").step(Some("echo   hello   world\n"), PATH, &System::Host);
    assert_eq!(act, Action::Print("hello world".to_string()));
}

#[test]
fn echo_prints_the_same_for_any_spacing() {
    let system = machine(&[], None);
    let shell = shell_in("/");
    let expected = Action::Print("a b c".to_string());
    for line in ["echo a b c", "  echo  a\tb \u{3000} c  ", "echo\ta\nb\rc\n", "echo a b c\r\n"] {
        assert_eq!(shell.step(Some(line), PATH, &system), expected, "line {:?}", line);
    }
}

#[test]
fn echo_alone_prints_an_empty_line() {
    let act = shell_in("/").step(Some("echo\n"), None, &machine(&[], None));
    assert_eq!(act, Action::Print(String::new()));
}

#[test]
fn scenario_type_ls() {
    let act = shell_in("/").step(Some("type ls"), PATH, &machine(&["/bin/ls"], None));
    assert_eq!(act, Action::Print("ls is /bin/ls".to_string()));
}

#[test]
fn type_of_each_builtin() {
    let system = machine(&[], None);
    for name in ["echo", "type", "exit", "pwd", "cd"] {
        let line = format!("type {}", name);
        assert_eq!(
            shell_in("/").step(Some(&line), PATH, &system),
            Action::Print(format!("{} is a shell builtin", name))
        );
    }
}

#[test]
fn type_of_an_unknown_name() {
    let act = shell_in("/").step(Some("type nosuch"), PATH, &machine(&["/bin/ls"], None));
    assert_eq!(act, Action::Report("nosuch: not found".to_string()));
}

#[test]
fn type_without_argument_is_a_usage_error() {
    let act = shell_in("/").step(Some("type"), PATH, &machine(&[], None));
    assert_eq!(act, Action::Report("type: missing argument".to_string()));
    assert!(act.continues());
}

#[test]
fn type_looks_at_its_first_argument_only() {
    let act = shell_in("/").step(Some("type ls cat"), PATH, &machine(&["/bin/cat"], None));
    assert_eq!(act, Action::Report("ls: not found".to_string()));
}

#[test]
fn unknown_command_line_is_reported() {
    let system = machine(&["/bin/ls"], None);
    let act = shell_in("/").step(Some("nosuch --flag value"), PATH, &system);
    assert_eq!(act, Action::Report("nosuch: command not found".to_string()));
    assert!(act.continues());
}

#[test]
fn unknown_command_line_on_the_host_is_reported() {
    let act = shell_in("/").step(
        Some("no-such-program-0 x"),
        Some("/no-such-directory-0:/dev"),
        &System::Host,
    );
    assert_eq!(act, Action::Report("no-such-program-0: command not found".to_string()));
}

#[test]
fn known_command_line_is_run() {
    let system = machine(&["/bin/ls"], None);
    let act = shell_in("/").step(Some("ls  -l   /tmp"), PATH, &system);
    assert_eq!(act, Action::Spawn { program: "/bin/ls".to_string(), args: words(&["-l", "/tmp"]) });
}

#[test]
fn command_line_without_search_path_cannot_go_on() {
    let act = shell_in("/").step(Some("ls"), None, &machine(&["/bin/ls"], None));
    assert_eq!(act, Action::Abort("PATH env not defined".to_string()));
}

#[test]
fn builtins_need_no_search_path() {
    let system = machine(&[], Some("/home/u"));
    let shell = shell_in("/work");
    assert_eq!(shell.step(Some("echo hi"), None, &system), Action::Print("hi".to_string()));
    assert_eq!(shell.step(Some("pwd"), None, &system), Action::Print("/work".to_string()));
    assert_eq!(shell.step(Some("cd /x"), None, &system), Action::ChangeDir("/x".to_string()));
    assert_eq!(shell.step(Some("exit 3"), None, &system), Action::Exit(3));
    assert_eq!(
        shell.step(Some("type cd"), None, &system),
        Action::Print("cd is a shell builtin".to_string())
    );
}

#[test]
fn empty_line_asks_for_nothing() {
    let system = machine(&[], None);
    for line in ["", "\n", "   ", " \t\r\n"] {
        assert_eq!(shell_in("/").step(Some(line), PATH, &system), Action::Nothing);
        assert_eq!(shell_in("/").step(Some(line), None, &System::Host), Action::Nothing);
    }
}

#[test]
fn end_of_input_ends_with_status_0() {
    assert_eq!(shell_in("/").step(None, PATH, &machine(&[], None)), Action::Exit(0));
    assert_eq!(shell_in("/").step(None, None, &System::Host), Action::Exit(0));
}

#[test]
fn scenario_exit_42() {
    assert_eq!(shell_in("/").step(Some("exit 42"), PATH, &System::Host), Action::Exit(42));
}

#[test]
fn scenario_bare_exit() {
    assert_eq!(shell_in("/").step(Some("exit"), PATH, &System::Host), Action::Exit(0));
}

#[test]
fn exit_with_a_malformed_status_goes_on() {
    let act = shell_in("/").step(Some("exit soon"), PATH, &System::Host);
    assert_eq!(act, Action::Report("exit: soon: invalid status code".to_string()));
    assert!(act.continues());
}

#[test]
fn pwd_prints_the_working_directory() {
    assert_eq!(pwd(&shell_in("/home/u/work")), Action::Print("/home/u/work".to_string()));
    let act = shell_in("/home/u/work").step(Some("pwd"), PATH, &System::Host);
    assert_eq!(act, Action::Print("/home/u/work".to_string()));
}

#[test]
fn pwd_ignores_its_arguments() {
    let act = shell_in("/w").step(Some("pwd -P x"), PATH, &System::Host);
    assert_eq!(act, Action::Print("/w".to_string()));
}

#[test]
fn pwd_reports_why_the_directory_cannot_be_told() {
    let shell = Shell::new(Err("No such file or directory (os error 2)".to_string()));
    assert_eq!(pwd(&shell), Action::Report("No such file or directory (os error 2)".to_string()));
    assert!(pwd(&shell).continues());
}

#[test]
fn cd_names_the_directory_given() {
    let system = machine(&[], Some("/home/u"));
    let shell = shell_in("/work");
    assert_eq!(cd(&shell, Some("/tmp"), &system), Action::ChangeDir("/tmp".to_string()));
    assert_eq!(cd(&shell, Some("sub/dir"), &system), Action::ChangeDir("sub/dir".to_string()));
    assert_eq!(cd(&shell, Some(".."), &system), Action::ChangeDir("..".to_string()));
    assert_eq!(cd(&shell, Some("/tmp"), &System::Host), Action::ChangeDir("/tmp".to_string()));
}

#[test]
fn cd_tilde_is_the_home_directory() {
    let system = machine(&[], Some("/home/u"));
    assert_eq!(cd(&shell_in("/work"), Some("~"), &system), Action::ChangeDir("/home/u".to_string()));
    assert_eq!(
        shell_in("/work").step(Some("cd ~"), PATH, &system),
        Action::ChangeDir("/home/u".to_string())
    );
}

#[test]
fn cd_tilde_slash_sub_is_under_the_home_directory() {
    let system = machine(&[], Some("/home/u"));
    assert_eq!(
        cd(&shell_in("/work"), Some("~/sub"), &system),
        Action::ChangeDir("/home/u/sub".to_string())
    );
    assert_eq!(
        shell_in("/work").step(Some("cd ~/a/b c"), PATH, &system),
        Action::ChangeDir("/home/u/a/b".to_string())
    );
    assert_eq!(cd(&shell_in("/work"), Some("~/"), &system), Action::ChangeDir("/home/u/".to_string()));
}

#[test]
fn cd_leaves_other_tildes_alone() {
    let system = machine(&[], Some("/home/u"));
    let shell = shell_in("/work");
    assert_eq!(cd(&shell, Some("~user"), &system), Action::ChangeDir("~user".to_string()));
    assert_eq!(cd(&shell, Some("a/~"), &system), Action::ChangeDir("a/~".to_string()));
    assert_eq!(cd(&shell, Some("./~/x"), &system), Action::ChangeDir("./~/x".to_string()));
    assert_eq!(cd(&shell, Some("~~"), &system), Action::ChangeDir("~~".to_string()));
}

#[test]
fn cd_reports_a_missing_home_directory() {
    let system = machine(&[], None);
    let act = cd(&shell_in("/work"), Some("~/sub"), &system);
    assert_eq!(act, Action::Report("HOME directory not found".to_string()));
    assert!(act.continues());
    assert_eq!(
        cd(&shell_in("/work"), Some("~"), &system),
        Action::Report("HOME directory not found".to_string())
    );
}

#[test]
fn cd_needs_no_home_directory_without_a_tilde() {
    let system = machine(&[], None);
    assert_eq!(cd(&shell_in("/work"), Some("/tmp"), &system), Action::ChangeDir("/tmp".to_string()));
}

#[test]
fn cd_on_the_host_asks_the_home_crate() {
    let act = cd(&shell_in("/work"), Some("~/sub"), &System::Host);
    let expected = match home::home_dir().and_then(|dir| dir.into_os_string().into_string().ok()) {
        Some(home) => Action::ChangeDir(format!("{}/sub", home)),
        None => Action::Report("HOME directory not found".to_string()),
    };
    assert_eq!(act, expected);
}

#[test]
fn cd_without_argument_names_the_working_directory() {
    let system = machine(&[], Some("/home/u"));
    assert_eq!(cd(&shell_in("/work"), None, &system), Action::ChangeDir("/work".to_string()));
    assert_eq!(cd(&shell_in("/work"), Some(""), &system), Action::ChangeDir("/work".to_string()));
    assert_eq!(
        shell_in("/work").step(Some("cd"), PATH, &system),
        Action::ChangeDir("/work".to_string())
    );
}

#[test]
fn cd_without_argument_reports_an_unknown_working_directory() {
    let shell = Shell::new(Err("gone".to_string()));
    let act = cd(&shell, None, &machine(&[], Some("/home/u")));
    assert_eq!(act, Action::Report("gone".to_string()));
    assert_eq!(
        cd(&shell, Some("/tmp"), &machine(&[], None)),
        Action::ChangeDir("/tmp".to_string())
    );
}

#[test]
fn scenario_cd_nonexistent() {
    let mut shell = shell_in("/work");
    let act = shell.step(Some("cd /nonexistent"), PATH, &System::Host);
    assert_eq!(act, Action::ChangeDir("/nonexistent".to_string()));
    let follow = shell.finish_cd("/nonexistent", None);
    assert_eq!(follow, Action::Report("cd: /nonexistent: No such file or directory".to_string()));
    assert!(follow.continues());
    assert_eq!(shell, shell_in("/work"));
    assert_eq!(pwd(&shell), Action::Print("/work".to_string()));
}

#[test]
fn cd_then_pwd_prints_the_directory_entered() {
    let mut shell = shell_in("/work");
    let system = machine(&[], Some("/home/u"));
    assert_eq!(shell.step(Some("cd ~/sub"), PATH, &system), Action::ChangeDir("/home/u/sub".to_string()));
    let follow = shell.finish_cd("/home/u/sub", Some(Ok("/home/u/sub".to_string())));
    assert_eq!(follow, Action::Nothing);
    assert_eq!(shell.step(Some("pwd"), PATH, &system), Action::Print("/home/u/sub".to_string()));
}

#[test]
fn cd_then_pwd_prints_the_directory_as_resolved() {
    let mut shell = shell_in("/work");
    assert_eq!(shell.finish_cd("../tmp/.", Some(Ok("/tmp".to_string()))), Action::Nothing);
    assert_eq!(pwd(&shell), Action::Print("/tmp".to_string()));
}

#[test]
fn failed_cd_leaves_pwd_as_it_was() {
    let mut shell = shell_in("/work");
    let before = pwd(&shell);
    let follow = shell.finish_cd("nonexistent-dir", None);
    assert_eq!(follow, Action::Report("cd: nonexistent-dir: No such file or directory".to_string()));
    assert_eq!(pwd(&shell), before);
}

#[test]
fn cd_into_a_directory_that_cannot_be_read_back() {
    let mut shell = shell_in("/work");
    assert_eq!(shell.finish_cd("/x", Some(Err("denied".to_string()))), Action::Nothing);
    assert_eq!(pwd(&shell), Action::Report("denied".to_string()));
}

#[test]
fn run_takes_words_already_split() {
    let system = machine(&["/bin/ls"], None);
    let shell = shell_in("/");
    assert_eq!(shell.run(&words(&[]), PATH, &system), Action::Nothing);
    assert_eq!(
        shell.run(&words(&["echo", "a  b", ""]), PATH, &system),
        Action::Print("a  b ".to_string())
    );
    assert_eq!(
        shell.run(&words(&["ls", "a b"]), PATH, &system),
        Action::Spawn { program: "/bin/ls".to_string(), args: words(&["a b"]) }
    );
}
