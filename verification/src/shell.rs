//! Per-line dispatch: which builtin (or external launch) a command name
//! selects, and the splitting of the search-path variable read once at shell
//! start.
use crate::builtins::is_builtin_name;
use crate::strutil::{push_char, str_eq};
use vstd::prelude::*;
use vstd::string::*;

verus! {

/// The dispatch target of a command name, resolved once per line.
#[derive(Clone, Copy, PartialEq, Eq, Structural, Debug)]
pub enum CommandKind {
    Cd,
    Echo,
    Exit,
    Pwd,
    Type,
    External,
}

pub open spec fn classify_spec(s: Seq<char>) -> CommandKind {
    if s == "cd"@ {
        CommandKind::Cd
    } else if s == "echo"@ {
        CommandKind::Echo
    } else if s == "exit"@ {
        CommandKind::Exit
    } else if s == "pwd"@ {
        CommandKind::Pwd
    } else if s == "type"@ {
        CommandKind::Type
    } else {
        CommandKind::External
    }
}

/// Resolves a command name to its dispatch target.
pub fn classify_command(name: &str) -> (k: CommandKind)
    ensures
        k == classify_spec(name@),
{
    if str_eq(name, "cd") {
        CommandKind::Cd
    } else if str_eq(name, "echo") {
        CommandKind::Echo
    } else if str_eq(name, "exit") {
        CommandKind::Exit
    } else if str_eq(name, "pwd") {
        CommandKind::Pwd
    } else if str_eq(name, "type") {
        CommandKind::Type
    } else {
        CommandKind::External
    }
}

/// A name dispatches to a builtin exactly when it is a builtin name.
pub proof fn lemma_classify_consistent_with_builtins(s: Seq<char>)
    ensures
        (classify_spec(s) != CommandKind::External) == is_builtin_name(s),
{
}

/// The per-line decision after tokenizing: an empty token list is skipped;
/// otherwise the first token is the command name and the rest are its
/// arguments.
pub fn split_command_line(tokens: Vec<String>) -> (r: Option<(String, Vec<String>)>)
    ensures
        tokens@.len() == 0 ==> r is None,
        tokens@.len() > 0 ==> (match r {
            Option::Some(p) => p.0@ == tokens.deep_view()[0] && p.1.deep_view()
                == tokens.deep_view().skip(1),
            Option::None => false,
        }),
{
    if tokens.is_empty() {
        return Option::None;
    }
    let mut rest = tokens;
    let command = rest.remove(0);
    proof {
        assert(rest.deep_view() =~= tokens.deep_view().skip(1));
    }
    Option::Some((command, rest))
}

/// Intermediate state of splitting on `:`: finished pieces and the piece
/// being collected.
#[verifier::ext_equal]
pub struct SplitState {
    pub done: Seq<Seq<char>>,
    pub cur: Seq<char>,
}

pub open spec fn split_colon_run(s: Seq<char>) -> SplitState
    decreases s.len(),
{
    if s.len() == 0 {
        SplitState { done: Seq::empty(), cur: Seq::empty() }
    } else {
        let st = split_colon_run(s.drop_last());
        if s.last() == ':' {
            SplitState { done: st.done.push(st.cur), cur: Seq::empty() }
        } else {
            SplitState { done: st.done, cur: st.cur.push(s.last()) }
        }
    }
}

/// The pieces of `s` split on `:`. An empty input yields one empty piece,
/// and every separator ends a piece, so `n` separators yield `n + 1` pieces.
pub open spec fn split_colon(s: Seq<char>) -> Seq<Seq<char>> {
    split_colon_run(s).done.push(split_colon_run(s).cur)
}

/// Splits the colon-separated search-path variable into its directory list.
pub fn split_search_path(s: &str) -> (r: Vec<String>)
    ensures
        r.deep_view() == split_colon(s@),
{
    let mut done: Vec<String> = Vec::new();
    let mut cur = String::new();
    let n = s.unicode_len();
    let mut i: usize = 0;
    while i < n
        invariant
            n == s@.len(),
            i <= n,
            done.deep_view() =~= split_colon_run(s@.take(i as int)).done,
            cur@ == split_colon_run(s@.take(i as int)).cur,
        decreases n - i,
    {
        let c = s.get_char(i);
        proof {
            let pre = s@.take(i as int);
            let post = s@.take(i as int + 1);
            assert(post.drop_last() =~= pre);
            assert(post.last() == c);
        }
        if c == ':' {
            let mut piece = String::new();
            core::mem::swap(&mut piece, &mut cur);
            done.push(piece);
        } else {
            push_char(&mut cur, c);
        }
        i += 1;
    }
    proof {
        assert(s@.take(n as int) =~= s@);
    }
    done.push(cur);
    done
}

} // verus!
