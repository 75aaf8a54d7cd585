use minishell::action::Action;
use minishell::builtin::{echo, exit, type_of};
use minishell::command::{to_shell_cmd, BuiltinCmd, ShellCmd};
use minishell::status::parse_status;
use minishell::system::System;

fn words(items: &[&str]) -> Vec<String> {
    items.iter().map(|s| s.to_string()).collect()
}

fn machine(files: &[&str]) -> System {
    System::Model { files: words(files), home: None }
}

#[test]
fn classify_knows_the_five_builtins() {
    assert_eq!(to_shell_cmd("echo"), ShellCmd::Builtin(BuiltinCmd::Echo));
    assert_eq!(to_shell_cmd("type"), ShellCmd::Builtin(BuiltinCmd::Type));
    assert_eq!(to_shell_cmd("exit"), ShellCmd::Builtin(BuiltinCmd::Exit));
    assert_eq!(to_shell_cmd("pwd"), ShellCmd::Builtin(BuiltinCmd::Pwd));
    assert_eq!(to_shell_cmd("cd"), ShellCmd::Builtin(BuiltinCmd::Cd));
}

#[test]
fn classify_takes_every_other_name_for_a_program() {
    for name in ["ls", "cat", "", "echoo", "ech", "c", "cdd", "pwd ", " pwd", "exit0", "types"] {
        assert_eq!(to_shell_cmd(name), ShellCmd::Binary, "name {:?}", name);
    }
}

#[test]
fn classify_is_case_sensitive() {
    for name in ["Echo", "ECHO", "Type", "EXIT", "Pwd", "CD", "cD"] {
        assert_eq!(to_shell_cmd(name), ShellCmd::Binary, "name {:?}", name);
    }
}

#[test]
fn echo_joins_with_single_spaces() {
    assert_eq!(echo(&words(&["hello", "world"])), Action::Print("hello world".to_string()));
    assert_eq!(echo(&words(&["one"])), Action::Print("one".to_string()));
}

#[test]
fn echo_without_arguments_prints_an_empty_line() {
    assert_eq!(echo(&[]), Action::Print(String::new()));
}

#[test]
fn type_reports_each_builtin() {
    for name in ["echo", "type", "exit", "pwd", "cd"] {
        let expected = Action::Print(format!("{} is a shell builtin", name));
        assert_eq!(type_of(name, Some("/usr/bin:/bin"), &machine(&[])), expected);
        assert_eq!(type_of(name, None, &machine(&[])), expected);
        assert_eq!(type_of(name, Some("/usr/bin:/bin"), &System::Host), expected);
    }
}

#[test]
fn type_reports_a_builtin_even_where_a_file_of_that_name_exists() {
    let system = machine(&["/bin/echo"]);
    assert_eq!(
        type_of("echo", Some("/bin"), &system),
        Action::Print("echo is a shell builtin".to_string())
    );
}

#[test]
fn type_never_calls_another_name_a_builtin() {
    let system = machine(&["/bin/ls", "a shell builtin/x", "a shell/builtin"]);
    for name in ["ls", "Echo", "echoo", "builtin", "x", ""] {
        let act = type_of(name, Some("/bin:a shell builtin:a shell"), &system);
        assert_ne!(act, Action::Print(format!("{} is a shell builtin", name)), "name {:?}", name);
    }
}

#[test]
fn type_finds_ls_in_the_second_directory() {
    let system = machine(&["/bin/ls"]);
    assert_eq!(
        type_of("ls", Some("/usr/bin:/bin"), &system),
        Action::Print("ls is /bin/ls".to_string())
    );
}

#[test]
fn type_prefers_the_first_directory_that_matches() {
    let system = machine(&["/bin/ls", "/usr/bin/ls"]);
    assert_eq!(
        type_of("ls", Some("/usr/bin:/bin"), &system),
        Action::Print("ls is /usr/bin/ls".to_string())
    );
    assert_eq!(
        type_of("ls", Some("/bin:/usr/bin"), &system),
        Action::Print("ls is /bin/ls".to_string())
    );
}

#[test]
fn type_reports_what_is_not_found() {
    let system = machine(&["/bin/ls"]);
    assert_eq!(
        type_of("nosuch", Some("/usr/bin:/bin"), &system),
        Action::Report("nosuch: not found".to_string())
    );
    assert_eq!(
        type_of("ls", Some("/usr/bin"), &system),
        Action::Report("ls: not found".to_string())
    );
}

#[test]
fn type_without_search_path_cannot_go_on() {
    assert_eq!(
        type_of("ls", None, &machine(&["/bin/ls"])),
        Action::Abort("PATH env not defined".to_string())
    );
    assert_eq!(type_of("ls", None, &System::Host), Action::Abort("PATH env not defined".to_string()));
}

#[test]
fn exit_with_status_42() {
    assert_eq!(exit(Some("42")), Action::Exit(42));
}

#[test]
fn exit_without_argument_is_status_0() {
    assert_eq!(exit(None), Action::Exit(0));
}

#[test]
fn exit_takes_signs_and_leading_zeros() {
    assert_eq!(exit(Some("0")), Action::Exit(0));
    assert_eq!(exit(Some("-1")), Action::Exit(-1));
    assert_eq!(exit(Some("+7")), Action::Exit(7));
    assert_eq!(exit(Some("007")), Action::Exit(7));
    assert_eq!(exit(Some("-0")), Action::Exit(0));
}

#[test]
fn exit_reports_a_malformed_status_and_goes_on() {
    for word in ["abc", "", "-", "+", "4 2", "42x", "x42", "4.2", "--1", "+-1", "１２", "0x10"] {
        let act = exit(Some(word));
        assert_eq!(act, Action::Report(format!("exit: {}: invalid status code", word)));
        assert!(act.continues());
    }
}

#[test]
fn parse_status_reads_the_bounds_of_32_bits() {
    assert_eq!(parse_status("2147483647"), Some(2147483647));
    assert_eq!(parse_status("-2147483648"), Some(-2147483648));
    assert_eq!(parse_status("+2147483647"), Some(2147483647));
    assert_eq!(parse_status("2147483648"), None);
    assert_eq!(parse_status("-2147483649"), None);
    assert_eq!(parse_status("99999999999999999999999999"), None);
    assert_eq!(parse_status("-99999999999999999999999999"), None);
    assert_eq!(parse_status("000000000000000000000000000000000042"), Some(42));
}

#[test]
fn parse_status_agrees_with_the_standard_library() {
    let words = [
        "", "0", "1", "-1", "+1", "-", "+", "12a", "a12", " 12", "12 ", "2147483647",
        "2147483648", "-2147483648", "-2147483649", "00", "-00", "+-1", "1_000", "٣",
        "4294967296", "10000000000", "-10000000000", "+0", "9", "99", "2147483650",
    ];
    for word in words {
        assert_eq!(parse_status(word), word.parse::<i32>().ok(), "word {:?}", word);
    }
}

#[test]
fn actions_that_end_the_loop() {
    assert!(Action::Nothing.continues());
    assert!(Action::Print("x".to_string()).continues());
    assert!(Action::Report("x".to_string()).continues());
    assert!(Action::ChangeDir("/".to_string()).continues());
    assert!(Action::Spawn { program: "/bin/ls".to_string(), args: vec![] }.continues());
    assert!(!Action::Exit(0).continues());
    assert!(!Action::Abort("x".to_string()).continues());
}
