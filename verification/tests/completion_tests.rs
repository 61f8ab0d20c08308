use vshell::autocompletion::{
    find_executables, find_longest_common_prefix, get_builtin_completions, BuiltInCompleter,
    CompletionOutcome, EntryInfo,
};

fn entry(name: &str, executable: bool) -> EntryInfo {
    EntryInfo { name: name.to_string(), executable }
}

fn strings(v: &[&str]) -> Vec<String> {
    v.iter().map(|s| s.to_string()).collect()
}

#[test]
fn ambiguous_prefix_lists_all_matches() {
    let mut completer = BuiltInCompleter::new(Vec::new());
    let entries = vec![entry("git", true), entry("grep", true)];
    match completer.complete("g", &entries) {
        CompletionOutcome::ShowAll { matches } => {
            assert_eq!(matches, strings(&["git", "grep"]));
        },
        _ => panic!("expected the all-matches listing"),
    }
}

#[test]
fn unique_match_completes_with_trailing_space() {
    let mut completer = BuiltInCompleter::new(Vec::new());
    let entries = vec![entry("git", true), entry("grep", true)];
    match completer.complete("gr", &entries) {
        CompletionOutcome::Single { completion } => {
            assert_eq!(completion.display, "grep");
            assert_eq!(completion.replacement, "grep ");
        },
        _ => panic!("expected a single full completion"),
    }
}

#[test]
fn builtins_take_precedence() {
    let mut completer = BuiltInCompleter::new(Vec::new());
    let entries = vec![entry("env", true)];
    match completer.complete("e", &entries) {
        CompletionOutcome::Builtins { completions } => {
            assert_eq!(completions.len(), 2);
            assert_eq!(completions[0].display, "echo");
            assert_eq!(completions[0].replacement, "echo ");
            assert_eq!(completions[1].display, "exit");
            assert_eq!(completions[1].replacement, "exit ");
        },
        _ => panic!("expected builtin completions"),
    }
}

#[test]
fn no_candidate_alerts_without_proposal() {
    let mut completer = BuiltInCompleter::new(Vec::new());
    match completer.complete("zzz", &Vec::new()) {
        CompletionOutcome::NoMatch => {},
        _ => panic!("expected no match"),
    }
}

#[test]
fn longer_common_prefix_extends_without_space() {
    let mut completer = BuiltInCompleter::new(Vec::new());
    let entries = vec![entry("gitk", true), entry("git", true)];
    match completer.complete("gi", &entries) {
        CompletionOutcome::Extend { completion } => {
            assert_eq!(completion.display, "git");
            assert_eq!(completion.replacement, "git");
        },
        _ => panic!("expected a partial extension"),
    }
    assert_eq!(completer.last_prefix, "git");
    assert_eq!(completer.last_matches, strings(&["git", "gitk"]));
}

#[test]
fn non_executable_entries_are_ignored() {
    let mut completer = BuiltInCompleter::new(Vec::new());
    let entries = vec![entry("git", false)];
    match completer.complete("g", &entries) {
        CompletionOutcome::NoMatch => {},
        _ => panic!("a non-executable entry must not complete"),
    }
}

#[test]
fn star_in_prefix_matches_nothing_literally() {
    let mut completer = BuiltInCompleter::new(Vec::new());
    let entries = vec![entry("git", true)];
    match completer.complete("*g", &entries) {
        CompletionOutcome::NoMatch => {},
        _ => panic!("a star is an ordinary character and matches only itself"),
    }
}

#[test]
fn star_in_prefix_matches_a_name_holding_it() {
    let mut completer = BuiltInCompleter::new(Vec::new());
    let entries = vec![entry("*go", true), entry("git", true)];
    match completer.complete("*g", &entries) {
        CompletionOutcome::Single { completion } => {
            assert_eq!(completion.display, "*go");
            assert_eq!(completion.replacement, "*go ");
        },
        _ => panic!("expected the literally matching name"),
    }
}

#[test]
fn prefix_with_space_is_not_completed() {
    let mut completer = BuiltInCompleter::new(Vec::new());
    let entries = vec![entry("git", true)];
    match completer.complete("git s", &entries) {
        CompletionOutcome::NotCommandPosition => {},
        _ => panic!("argument positions must not be completed"),
    }
}

#[test]
fn prefix_with_tab_is_not_completed() {
    let mut completer = BuiltInCompleter::new(Vec::new());
    let entries = vec![entry("\tgo", true)];
    match completer.complete("\tg", &entries) {
        CompletionOutcome::NotCommandPosition => {},
        _ => panic!("a prefix holding a tab is past the command position"),
    }
}

#[test]
fn prefix_with_newline_is_not_completed() {
    let mut completer = BuiltInCompleter::new(Vec::new());
    let entries = vec![entry("git", true)];
    match completer.complete("g\n", &entries) {
        CompletionOutcome::NotCommandPosition => {},
        _ => panic!("a prefix holding a newline is past the command position"),
    }
}

#[test]
fn matches_come_out_sorted() {
    let entries = vec![entry("zeta", true), entry("alpha", true), entry("mid", true)];
    assert_eq!(find_executables("", &entries), strings(&["alpha", "mid", "zeta"]));
}

#[test]
fn duplicate_names_are_kept() {
    let entries = vec![entry("tool", true), entry("tool", true)];
    assert_eq!(find_executables("t", &entries), strings(&["tool", "tool"]));
}

#[test]
fn builtin_completions_for_empty_prefix_list_all_five() {
    let completions = get_builtin_completions("");
    let names: Vec<String> = completions.iter().map(|c| c.display.clone()).collect();
    assert_eq!(names, strings(&["cd", "echo", "exit", "pwd", "type"]));
}

#[test]
fn common_prefix_of_several_matches() {
    let matches = strings(&["interspecies", "interstellar", "interstate"]);
    assert_eq!(find_longest_common_prefix(&matches), "inters");
}

#[test]
fn common_prefix_of_disjoint_names_is_empty() {
    let matches = strings(&["abc", "xyz"]);
    assert_eq!(find_longest_common_prefix(&matches), "");
}

#[test]
fn common_prefix_of_nothing_is_empty() {
    assert_eq!(find_longest_common_prefix(&Vec::new()), "");
}

#[test]
fn common_prefix_of_one_is_itself() {
    assert_eq!(find_longest_common_prefix(&strings(&["only"])), "only");
}
