use vshell::output::{
    apply_output_redirections, file_contents_after, CommandOutput, WriteAction,
};
use vshell::redirection::{Redirection, RedirectionMode, RedirectionType};

fn output(stdout: &str, stderr: &str) -> CommandOutput {
    CommandOutput { stdout: stdout.to_string(), stderr: stderr.to_string() }
}

#[test]
fn without_redirections_both_streams_go_to_terminal() {
    let plan = apply_output_redirections(output("hello\n", "oops\n"), &None, &None);
    match plan.stdout {
        WriteAction::Terminal { text } => assert_eq!(text, "hello\n"),
        WriteAction::File { .. } => panic!("stdout should go to the terminal"),
    }
    match plan.stderr {
        WriteAction::Terminal { text } => assert_eq!(text, "oops\n"),
        WriteAction::File { .. } => panic!("stderr should go to the terminal"),
    }
}

#[test]
fn stdout_redirection_routes_only_stdout() {
    let redir = Some(Redirection {
        ty: RedirectionType::Stdout,
        mode: RedirectionMode::Truncate,
        filename: "out.txt".to_string(),
    });
    let plan = apply_output_redirections(output("data\n", "err\n"), &redir, &None);
    match plan.stdout {
        WriteAction::File { filename, mode, text } => {
            assert_eq!(filename, "out.txt");
            assert!(matches!(mode, RedirectionMode::Truncate));
            assert_eq!(text, "data\n");
        },
        WriteAction::Terminal { .. } => panic!("stdout should go to the file"),
    }
    assert!(matches!(plan.stderr, WriteAction::Terminal { .. }));
}

#[test]
fn stderr_redirection_routes_only_stderr() {
    let redir = Some(Redirection {
        ty: RedirectionType::Stderr,
        mode: RedirectionMode::Append,
        filename: "err.log".to_string(),
    });
    let plan = apply_output_redirections(output("data\n", "err\n"), &None, &redir);
    assert!(matches!(plan.stdout, WriteAction::Terminal { .. }));
    match plan.stderr {
        WriteAction::File { filename, mode, text } => {
            assert_eq!(filename, "err.log");
            assert!(matches!(mode, RedirectionMode::Append));
            assert_eq!(text, "err\n");
        },
        WriteAction::Terminal { .. } => panic!("stderr should go to the file"),
    }
}

#[test]
fn appending_twice_concatenates() {
    let after_first = file_contents_after("", RedirectionMode::Append, "one\n");
    let after_second = file_contents_after(&after_first, RedirectionMode::Append, "two\n");
    assert_eq!(after_second, "one\ntwo\n");
}

#[test]
fn truncating_discards_prior_contents() {
    let after_first = file_contents_after("", RedirectionMode::Append, "one\n");
    let after_second = file_contents_after(&after_first, RedirectionMode::Truncate, "two\n");
    assert_eq!(after_second, "two\n");
}

#[test]
fn append_keeps_prior_contents() {
    assert_eq!(file_contents_after("abc", RedirectionMode::Append, "def"), "abcdef");
}
