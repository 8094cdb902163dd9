use shell::builtins::{cd_destination, cd_failure, join_with_spaces, type_report, BuiltinAction, BuiltinCommand};

fn strings(v: &[&str]) -> Vec<String> {
    v.iter().map(|s| s.to_string()).collect()
}

#[test]
fn from_str_matches_exact_names() {
    assert_eq!(BuiltinCommand::from_str("exit"), Some(BuiltinCommand::Exit));
    assert_eq!(BuiltinCommand::from_str("echo"), Some(BuiltinCommand::Echo));
    assert_eq!(BuiltinCommand::from_str("type"), Some(BuiltinCommand::Type));
    assert_eq!(BuiltinCommand::from_str("pwd"), Some(BuiltinCommand::Pwd));
    assert_eq!(BuiltinCommand::from_str("cd"), Some(BuiltinCommand::Cd));
    assert_eq!(BuiltinCommand::from_str("Echo"), None);
    assert_eq!(BuiltinCommand::from_str("ech"), None);
    assert_eq!(BuiltinCommand::from_str(""), None);
}

#[test]
fn name_round_trips() {
    for b in [BuiltinCommand::Exit, BuiltinCommand::Echo, BuiltinCommand::Type, BuiltinCommand::Pwd, BuiltinCommand::Cd] {
        assert_eq!(BuiltinCommand::from_str(b.name()), Some(b));
    }
    assert_eq!(BuiltinCommand::Pwd.name(), "pwd");
}

#[test]
fn echo_joins_with_single_spaces() {
    let a = BuiltinCommand::Echo.execute(&strings(&["a b", "c"]));
    assert_eq!(a, BuiltinAction::Print("a b c".to_string()));
    assert_eq!(BuiltinCommand::Echo.execute(&vec![]), BuiltinAction::Print(String::new()));
}

#[test]
fn join_keeps_empty_words() {
    assert_eq!(join_with_spaces(&strings(&["x", "", "y"])), "x  y");
    assert_eq!(join_with_spaces(&strings(&["only"])), "only");
}

#[test]
fn exit_only_on_literal_zero() {
    assert_eq!(BuiltinCommand::Exit.execute(&strings(&["0"])), BuiltinAction::Exit);
    assert_eq!(BuiltinCommand::Exit.execute(&strings(&["1"])), BuiltinAction::Nothing);
    assert_eq!(BuiltinCommand::Exit.execute(&strings(&["00"])), BuiltinAction::Nothing);
    assert_eq!(BuiltinCommand::Exit.execute(&vec![]), BuiltinAction::Nothing);
}

#[test]
fn type_of_builtin() {
    let a = BuiltinCommand::Type.execute(&strings(&["cd"]));
    assert_eq!(a, BuiltinAction::Print("cd is a shell builtin".to_string()));
}

#[test]
fn type_of_other_name_searches_path() {
    let a = BuiltinCommand::Type.execute(&strings(&["doesnotexist123"]));
    assert_eq!(a, BuiltinAction::LocatePath("doesnotexist123".to_string()));
    assert_eq!(type_report("doesnotexist123", None), "doesnotexist123: not found");
    assert_eq!(type_report("ls", Some("/bin/ls".to_string())), "ls is /bin/ls");
    assert_eq!(BuiltinCommand::Type.execute(&vec![]), BuiltinAction::Nothing);
}

#[test]
fn pwd_and_cd_actions() {
    assert_eq!(BuiltinCommand::Pwd.execute(&vec![]), BuiltinAction::PrintWorkingDir);
    assert_eq!(
        BuiltinCommand::Cd.execute(&strings(&["/nonexistent/path", "x"])),
        BuiltinAction::ChangeDir("/nonexistent/path".to_string())
    );
    assert_eq!(BuiltinCommand::Cd.execute(&vec![]), BuiltinAction::Nothing);
}

#[test]
fn cd_failure_message() {
    assert_eq!(cd_failure("/nonexistent/path"), "cd: /nonexistent/path: No such file or directory");
}

#[test]
fn cd_tilde_expands_to_home() {
    assert_eq!(cd_destination("~", Some("/home/me".to_string())), "/home/me");
    assert_eq!(cd_destination("~", None), "~");
    assert_eq!(cd_destination("/tmp", Some("/home/me".to_string())), "/tmp");
    assert_eq!(cd_destination("~/x", Some("/home/me".to_string())), "~/x");
}
