use vshell::redirection::{process_redirections, RedirectionMode, RedirectionType};

fn args(v: &[&str]) -> Vec<String> {
    v.iter().map(|s| s.to_string()).collect()
}

#[test]
fn stdout_truncate_operator_extracted() {
    let (rest, stdout, stderr) = process_redirections(args(&["hi", ">", "out.txt"]));
    assert_eq!(rest, vec!["hi".to_string()]);
    let r = stdout.expect("stdout redirection expected");
    assert_eq!(r.ty, RedirectionType::Stdout);
    assert!(matches!(r.mode, RedirectionMode::Truncate));
    assert_eq!(r.filename, "out.txt");
    assert!(stderr.is_none());
}

#[test]
fn plain_tokens_pass_through_unchanged() {
    let (rest, stdout, stderr) = process_redirections(args(&["echo", "hi", "there"]));
    assert_eq!(rest, args(&["echo", "hi", "there"]));
    assert!(stdout.is_none());
    assert!(stderr.is_none());
}

#[test]
fn one_gt_is_stdout_truncate() {
    let (rest, stdout, _) = process_redirections(args(&["a", "1>", "f"]));
    assert_eq!(rest, vec!["a".to_string()]);
    let r = stdout.unwrap();
    assert_eq!(r.ty, RedirectionType::Stdout);
    assert!(matches!(r.mode, RedirectionMode::Truncate));
    assert_eq!(r.filename, "f");
}

#[test]
fn double_gt_is_stdout_append() {
    let (_, stdout, _) = process_redirections(args(&["a", ">>", "f"]));
    let r = stdout.unwrap();
    assert_eq!(r.ty, RedirectionType::Stdout);
    assert!(matches!(r.mode, RedirectionMode::Append));
}

#[test]
fn one_double_gt_is_stdout_append() {
    let (_, stdout, _) = process_redirections(args(&["a", "1>>", "f"]));
    let r = stdout.unwrap();
    assert!(matches!(r.mode, RedirectionMode::Append));
}

#[test]
fn two_gt_is_stderr_truncate() {
    let (rest, stdout, stderr) = process_redirections(args(&["a", "2>", "e"]));
    assert_eq!(rest, vec!["a".to_string()]);
    assert!(stdout.is_none());
    let r = stderr.unwrap();
    assert_eq!(r.ty, RedirectionType::Stderr);
    assert!(matches!(r.mode, RedirectionMode::Truncate));
    assert_eq!(r.filename, "e");
}

#[test]
fn two_double_gt_is_stderr_append() {
    let (_, _, stderr) = process_redirections(args(&["a", "2>>", "e"]));
    let r = stderr.unwrap();
    assert_eq!(r.ty, RedirectionType::Stderr);
    assert!(matches!(r.mode, RedirectionMode::Append));
}

#[test]
fn later_redirection_overwrites_earlier_same_target() {
    let (rest, stdout, _) = process_redirections(args(&["a", ">", "f1", ">>", "f2"]));
    assert_eq!(rest, vec!["a".to_string()]);
    let r = stdout.unwrap();
    assert_eq!(r.filename, "f2");
    assert!(matches!(r.mode, RedirectionMode::Append));
}

#[test]
fn trailing_operator_absorbed_into_prior_filename() {
    let (rest, stdout, _) = process_redirections(args(&["a", ">", "f", ">>"]));
    assert_eq!(rest, vec!["a".to_string()]);
    let r = stdout.unwrap();
    assert_eq!(r.filename, "f>>");
    assert!(matches!(r.mode, RedirectionMode::Truncate));
}

#[test]
fn trailing_operator_without_prior_is_dropped() {
    let (rest, stdout, stderr) = process_redirections(args(&["a", "2>"]));
    assert_eq!(rest, vec!["a".to_string()]);
    assert!(stdout.is_none());
    assert!(stderr.is_none());
}

#[test]
fn both_streams_redirected_independently() {
    let (rest, stdout, stderr) = process_redirections(args(&["a", ">", "o", "2>>", "e"]));
    assert_eq!(rest, vec!["a".to_string()]);
    assert_eq!(stdout.unwrap().filename, "o");
    let e = stderr.unwrap();
    assert_eq!(e.filename, "e");
    assert!(matches!(e.mode, RedirectionMode::Append));
}

#[test]
fn argument_order_kept_around_operators() {
    let (rest, stdout, _) = process_redirections(args(&["x", ">", "f", "y", "z"]));
    assert_eq!(rest, args(&["x", "y", "z"]));
    assert_eq!(stdout.unwrap().filename, "f");
}
