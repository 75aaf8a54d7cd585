use minishell::action::Action;
use minishell::launch::{exec_binary, spawn_failed};
use minishell::search::{candidate_path, search_in_path};
use minishell::system::System;

fn words(items: &[&str]) -> Vec<String> {
    items.iter().map(|s| s.to_string()).collect()
}

fn machine(files: &[&str]) -> System {
    System::Model { files: words(files), home: None }
}

#[test]
fn candidate_path_puts_a_slash_between() {
    assert_eq!(candidate_path("/bin", "ls"), "/bin/ls");
    assert_eq!(candidate_path("", "ls"), "/ls");
    assert_eq!(candidate_path("/bin/", "ls"), "/bin//ls");
    assert_eq!(candidate_path("rel", ""), "rel/");
}

#[test]
fn search_gives_the_first_directory_that_holds_the_name() {
    let system = machine(&["/bin/ls", "/usr/local/bin/ls"]);
    assert_eq!(
        search_in_path("ls", "/usr/bin:/usr/local/bin:/bin", &system),
        Some("/usr/local/bin".to_string())
    );
    assert_eq!(search_in_path("ls", "/usr/bin:/bin", &system), Some("/bin".to_string()));
}

#[test]
fn search_gives_nothing_where_no_directory_holds_the_name() {
    let system = machine(&["/bin/ls"]);
    assert_eq!(search_in_path("cat", "/usr/bin:/bin", &system), None);
    assert_eq!(search_in_path("ls", "/usr/bin", &system), None);
    assert_eq!(search_in_path("ls", "", &system), None);
    assert_eq!(search_in_path("ls", "/usr/bin:/bin", &machine(&[])), None);
}

#[test]
fn search_takes_an_empty_directory_name_as_it_stands() {
    let system = machine(&["/ls"]);
    assert_eq!(search_in_path("ls", "", &system), Some(String::new()));
    assert_eq!(search_in_path("ls", "/bin::/usr", &system), Some(String::new()));
}

#[test]
fn search_matches_whole_paths_only() {
    let system = machine(&["/bin/lsx", "/binx/ls", "bin/ls"]);
    assert_eq!(search_in_path("ls", "/bin", &system), None);
    assert_eq!(search_in_path("ls", "bin", &system), Some("bin".to_string()));
}

#[test]
fn search_on_the_host_finds_what_exists() {
    assert_eq!(
        search_in_path("null", "/no-such-directory-0:/dev:/", &System::Host),
        Some("/dev".to_string())
    );
    assert_eq!(search_in_path("dev", "/no-such-directory-0:/", &System::Host), Some("/".to_string()));
}

#[test]
fn search_on_the_host_finds_nothing_where_nothing_is() {
    assert_eq!(
        search_in_path("no-such-program-0", "/no-such-directory-0:/dev:/", &System::Host),
        None
    );
}

#[test]
fn search_on_the_host_takes_any_entry() {
    assert_eq!(search_in_path("null", "/dev", &System::Host), Some("/dev".to_string()));
    assert_eq!(search_in_path("", "/", &System::Host), Some("/".to_string()));
    assert_eq!(search_in_path("x", "/dev/null", &System::Host), None);
}

#[test]
fn unknown_command_is_reported() {
    let system = machine(&["/bin/ls"]);
    let act = exec_binary("nosuch", &words(&["-x"]), Some("/usr/bin:/bin"), &system);
    assert_eq!(act, Action::Report("nosuch: command not found".to_string()));
    assert!(act.continues());
}

#[test]
fn unknown_command_on_the_host_is_reported() {
    let act = exec_binary("no-such-program-0", &[], Some("/no-such-directory-0:/dev"), &System::Host);
    assert_eq!(act, Action::Report("no-such-program-0: command not found".to_string()));
}

#[test]
fn known_command_is_run_with_all_its_arguments() {
    let system = machine(&["/bin/ls"]);
    let act = exec_binary("ls", &words(&["-l", "-a", "/tmp"]), Some("/usr/bin:/bin"), &system);
    assert_eq!(
        act,
        Action::Spawn { program: "/bin/ls".to_string(), args: words(&["-l", "-a", "/tmp"]) }
    );
}

#[test]
fn known_command_without_arguments_is_run_without_any() {
    let system = machine(&["/bin/ls"]);
    let act = exec_binary("ls", &[], Some("/bin"), &system);
    assert_eq!(act, Action::Spawn { program: "/bin/ls".to_string(), args: vec![] });
}

#[test]
fn command_without_search_path_cannot_go_on() {
    let act = exec_binary("ls", &[], None, &machine(&["/bin/ls"]));
    assert_eq!(act, Action::Abort("PATH env not defined".to_string()));
    assert!(!act.continues());
}

#[test]
fn spawn_failure_is_reported() {
    let act = spawn_failed("/bin/ls", "Permission denied (os error 13)");
    assert_eq!(act, Action::Report("/bin/ls: Permission denied (os error 13)".to_string()));
    assert!(act.continues());
}
