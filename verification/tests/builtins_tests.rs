use vshell::builtins::{
    change_directory_output, echo_input, handle_type_command, is_builtin, pwd_output,
    resolve_cd_target, type_resolution_output,
};

fn args(v: &[&str]) -> Vec<String> {
    v.iter().map(|s| s.to_string()).collect()
}

#[test]
fn cd_failure_reports_no_such_file() {
    let out = change_directory_output("nonexistent_dir_xyz", false);
    assert_eq!(out.stdout, "");
    assert_eq!(out.stderr, "cd: nonexistent_dir_xyz: No such file or directory\n");
}

#[test]
fn cd_success_is_silent() {
    let out = change_directory_output("/tmp", true);
    assert_eq!(out.stdout, "");
    assert_eq!(out.stderr, "");
}

#[test]
fn cd_tilde_resolves_to_home() {
    assert_eq!(resolve_cd_target("~", "/home/someone"), "/home/someone");
}

#[test]
fn cd_other_argument_is_literal() {
    assert_eq!(resolve_cd_target("/var", "/home/someone"), "/var");
    assert_eq!(resolve_cd_target("~x", "/home/someone"), "~x");
}

#[test]
fn type_reports_builtin() {
    let out = handle_type_command("cd", &Vec::new());
    assert_eq!(out.stdout, "cd is a shell builtin\n");
    assert_eq!(out.stderr, "");
}

#[test]
fn type_reports_not_found() {
    let out = handle_type_command("zzz_not_a_cmd", &Vec::new());
    assert_eq!(out.stdout, "zzz_not_a_cmd: not found\n");
    assert_eq!(out.stderr, "");
}

#[test]
fn type_reports_resolved_path() {
    let out = type_resolution_output("git", &Some("/usr/bin/git".to_string()));
    assert_eq!(out.stdout, "git is /usr/bin/git\n");
    assert_eq!(out.stderr, "");
}

#[test]
fn type_resolution_none_is_not_found() {
    let out = type_resolution_output("nope", &None);
    assert_eq!(out.stdout, "nope: not found\n");
}

#[test]
fn echo_joins_arguments_with_spaces() {
    let out = echo_input(&args(&["hi", "there"]));
    assert_eq!(out.stdout, "hi there\n");
    assert_eq!(out.stderr, "");
}

#[test]
fn echo_of_nothing_is_bare_newline() {
    let out = echo_input(&Vec::new());
    assert_eq!(out.stdout, "\n");
}

#[test]
fn echo_single_argument() {
    let out = echo_input(&args(&["solo"]));
    assert_eq!(out.stdout, "solo\n");
}

#[test]
fn echo_preserves_argument_text() {
    let out = echo_input(&args(&["a  b", "c"]));
    assert_eq!(out.stdout, "a  b c\n");
}

#[test]
fn the_five_builtins_are_recognized() {
    assert!(is_builtin("cd"));
    assert!(is_builtin("echo"));
    assert!(is_builtin("exit"));
    assert!(is_builtin("pwd"));
    assert!(is_builtin("type"));
}

#[test]
fn other_names_are_not_builtins() {
    assert!(!is_builtin("ls"));
    assert!(!is_builtin(""));
    assert!(!is_builtin("Echo"));
}

#[test]
fn pwd_appends_newline() {
    let out = pwd_output("/some/where");
    assert_eq!(out.stdout, "/some/where\n");
    assert_eq!(out.stderr, "");
}
