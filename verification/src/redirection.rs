//! Redirection-operator parser: extracts `>`-style operators and their target
//! filenames from a token list, leaving the remaining command arguments.
use crate::strutil::str_eq;
use vstd::prelude::*;

verus! {

/// Which stream a redirection reroutes.
#[derive(Clone, Copy, PartialEq, Eq, Structural, Debug)]
pub enum RedirectionType {
    Stdout,
    Stderr,
}

/// Whether the target file is truncated or appended to.
#[derive(Clone, Copy, PartialEq, Eq, Structural, Debug)]
pub enum RedirectionMode {
    Truncate,
    Append,
}

/// One stdout/stderr redirection directive for a single command line.
#[derive(Debug)]
pub struct Redirection {
    pub ty: RedirectionType,
    pub mode: RedirectionMode,
    pub filename: String,
}

/// Mathematical image of a [`Redirection`].
#[verifier::ext_equal]
pub struct RedirectionView {
    pub ty: RedirectionType,
    pub mode: RedirectionMode,
    pub filename: Seq<char>,
}

impl View for Redirection {
    type V = RedirectionView;

    open spec fn view(&self) -> RedirectionView {
        RedirectionView { ty: self.ty, mode: self.mode, filename: self.filename@ }
    }
}

pub open spec fn redir_opt_view(o: Option<Redirection>) -> Option<RedirectionView> {
    match o {
        Option::Some(r) => Option::Some(r@),
        Option::None => Option::None,
    }
}

/// The operator tokens, each with the stream and mode it selects. Any other
/// token is an ordinary argument.
pub open spec fn classify_op(tok: Seq<char>) -> Option<(RedirectionType, RedirectionMode)> {
    if tok == ">"@ || tok == "1>"@ {
        Option::Some((RedirectionType::Stdout, RedirectionMode::Truncate))
    } else if tok == ">>"@ || tok == "1>>"@ {
        Option::Some((RedirectionType::Stdout, RedirectionMode::Append))
    } else if tok == "2>"@ {
        Option::Some((RedirectionType::Stderr, RedirectionMode::Truncate))
    } else if tok == "2>>"@ {
        Option::Some((RedirectionType::Stderr, RedirectionMode::Append))
    } else {
        Option::None
    }
}

pub open spec fn is_redirection_operator(tok: Seq<char>) -> bool {
    classify_op(tok) is Some
}

/// Abstract result of scanning a token list: the surviving arguments and at
/// most one directive per stream.
#[verifier::ext_equal]
pub struct ResolveState {
    pub args: Seq<Seq<char>>,
    pub stdout_redir: Option<RedirectionView>,
    pub stderr_redir: Option<RedirectionView>,
}

pub open spec fn resolve_init() -> ResolveState {
    ResolveState { args: Seq::empty(), stdout_redir: Option::None, stderr_redir: Option::None }
}

/// Replaces the directive recorded for stream `ty`.
pub open spec fn set_redir(
    st: ResolveState,
    ty: RedirectionType,
    r: Option<RedirectionView>,
) -> ResolveState {
    match ty {
        RedirectionType::Stdout => ResolveState {
            args: st.args,
            stdout_redir: r,
            stderr_redir: st.stderr_redir,
        },
        RedirectionType::Stderr => ResolveState {
            args: st.args,
            stdout_redir: st.stdout_redir,
            stderr_redir: r,
        },
    }
}

pub open spec fn redir_of(st: ResolveState, ty: RedirectionType) -> Option<RedirectionView> {
    match ty {
        RedirectionType::Stdout => st.stdout_redir,
        RedirectionType::Stderr => st.stderr_redir,
    }
}

/// A trailing operator with no filename after it is absorbed: its text is
/// appended to the filename already recorded for that stream, or dropped when
/// none is.
pub open spec fn absorb_trailing(
    st: ResolveState,
    ty: RedirectionType,
    tok: Seq<char>,
) -> ResolveState {
    match redir_of(st, ty) {
        Option::Some(r) => set_redir(
            st,
            ty,
            Option::Some(
                RedirectionView { ty: r.ty, mode: r.mode, filename: r.filename + tok },
            ),
        ),
        Option::None => st,
    }
}

/// Left-to-right scan from position `i` onwards: an operator followed by a
/// token consumes both; a trailing operator is absorbed; anything else is
/// copied to the arguments.
pub open spec fn resolve_from(tokens: Seq<Seq<char>>, i: int, st: ResolveState) -> ResolveState
    decreases tokens.len() - i,
{
    if i < 0 || i >= tokens.len() {
        st
    } else {
        match classify_op(tokens[i]) {
            Option::None => resolve_from(
                tokens,
                i + 1,
                ResolveState {
                    args: st.args.push(tokens[i]),
                    stdout_redir: st.stdout_redir,
                    stderr_redir: st.stderr_redir,
                },
            ),
            Option::Some(tm) => {
                if i + 1 < tokens.len() {
                    resolve_from(
                        tokens,
                        i + 2,
                        set_redir(
                            st,
                            tm.0,
                            Option::Some(
                                RedirectionView { ty: tm.0, mode: tm.1, filename: tokens[i + 1] },
                            ),
                        ),
                    )
                } else {
                    resolve_from(tokens, i + 1, absorb_trailing(st, tm.0, tokens[i]))
                }
            },
        }
    }
}

/// The resolver's result on a whole token list.
pub open spec fn resolve_tokens(tokens: Seq<Seq<char>>) -> ResolveState {
    resolve_from(tokens, 0, resolve_init())
}

fn classify_op_exec(tok: &String) -> (r: Option<(RedirectionType, RedirectionMode)>)
    ensures
        r == classify_op(tok@),
{
    if str_eq(tok.as_str(), ">") || str_eq(tok.as_str(), "1>") {
        Option::Some((RedirectionType::Stdout, RedirectionMode::Truncate))
    } else if str_eq(tok.as_str(), ">>") || str_eq(tok.as_str(), "1>>") {
        Option::Some((RedirectionType::Stdout, RedirectionMode::Append))
    } else if str_eq(tok.as_str(), "2>") {
        Option::Some((RedirectionType::Stderr, RedirectionMode::Truncate))
    } else if str_eq(tok.as_str(), "2>>") {
        Option::Some((RedirectionType::Stderr, RedirectionMode::Append))
    } else {
        Option::None
    }
}

/// Consumes the operator at `*i` (and its filename token, when one follows)
/// into `target`; a trailing operator is absorbed into the directive already
/// recorded there.
fn parse_redirection_operator(
    target: &mut Option<Redirection>,
    args: &Vec<String>,
    i: &mut usize,
    ty: RedirectionType,
    mode: RedirectionMode,
)
    requires
        *old(i) < args@.len(),
    ensures
        *old(i) + 1 < args@.len() ==> {
            &&& redir_opt_view(*final(target)) == Option::Some(
                RedirectionView { ty, mode, filename: args.deep_view()[*old(i) + 1] },
            )
            &&& *final(i) == *old(i) + 2
        },
        *old(i) + 1 == args@.len() ==> {
            &&& redir_opt_view(*final(target)) == (match redir_opt_view(*old(target)) {
                Option::Some(r) => Option::Some(
                    (RedirectionView {
                        ty: r.ty,
                        mode: r.mode,
                        filename: r.filename + args.deep_view()[*old(i) as int],
                    }),
                ),
                Option::None => Option::None,
            })
            &&& *final(i) == *old(i) + 1
        },
{
    let n = args.len();
    if *i + 1 < n {
        let filename = args[*i + 1].clone();
        *target = Option::Some(Redirection { ty, mode, filename });
        *i = *i + 2;
    } else {
        match target.as_mut() {
            Option::Some(r) => {
                r.filename.append(args[*i].as_str());
            },
            Option::None => {},
        }
        *i = *i + 1;
    }
}

/// Splits a command line's tokens into the remaining arguments, the stdout
/// directive and the stderr directive, per [`resolve_tokens`]. A later
/// operator for the same stream overwrites the earlier directive.
pub fn process_redirections(args: Vec<String>) -> (r: (
    Vec<String>,
    Option<Redirection>,
    Option<Redirection>,
))
    ensures
        r.0.deep_view() == resolve_tokens(args.deep_view()).args,
        redir_opt_view(r.1) == resolve_tokens(args.deep_view()).stdout_redir,
        redir_opt_view(r.2) == resolve_tokens(args.deep_view()).stderr_redir,
{
    let ghost all = args.deep_view();
    let ghost goal = resolve_tokens(args.deep_view());
    let mut processed_args: Vec<String> = Vec::new();
    let mut stdout_redir: Option<Redirection> = Option::None;
    let mut stderr_redir: Option<Redirection> = Option::None;

    proof {
        assert(ResolveState {
            args: processed_args.deep_view(),
            stdout_redir: redir_opt_view(stdout_redir),
            stderr_redir: redir_opt_view(stderr_redir),
        } =~= resolve_init());
    }
    let mut i: usize = 0;
    while i < args.len()
        invariant
            i <= args@.len(),
            all == args.deep_view(),
            goal == resolve_tokens(all),
            resolve_from(
                all,
                i as int,
                (ResolveState {
                    args: processed_args.deep_view(),
                    stdout_redir: redir_opt_view(stdout_redir),
                    stderr_redir: redir_opt_view(stderr_redir),
                }),
            ) == goal,
        decreases args@.len() - i,
    {
        let ghost pre = ResolveState {
            args: processed_args.deep_view(),
            stdout_redir: redir_opt_view(stdout_redir),
            stderr_redir: redir_opt_view(stderr_redir),
        };
        let ghost i0 = i as int;
        match classify_op_exec(&args[i]) {
            Option::Some(tm) => {
                let (ty, mode) = tm;
                match ty {
                    RedirectionType::Stdout => {
                        parse_redirection_operator(&mut stdout_redir, &args, &mut i, ty, mode);
                    },
                    RedirectionType::Stderr => {
                        parse_redirection_operator(&mut stderr_redir, &args, &mut i, ty, mode);
                    },
                }
                proof {
                    let post = ResolveState {
                        args: processed_args.deep_view(),
                        stdout_redir: redir_opt_view(stdout_redir),
                        stderr_redir: redir_opt_view(stderr_redir),
                    };
                    if i0 + 1 < all.len() {
                        assert(post =~= set_redir(
                            pre,
                            ty,
                            Option::Some(
                                RedirectionView { ty, mode, filename: all[i0 + 1] },
                            ),
                        ));
                    } else {
                        assert(post =~= absorb_trailing(pre, ty, all[i0]));
                    }
                }
            },
            Option::None => {
                processed_args.push(args[i].clone());
                i = i + 1;
                proof {
                    let post = ResolveState {
                        args: processed_args.deep_view(),
                        stdout_redir: redir_opt_view(stdout_redir),
                        stderr_redir: redir_opt_view(stderr_redir),
                    };
                    assert(post.args =~= pre.args.push(all[i0]));
                    assert(post =~= ResolveState {
                        args: pre.args.push(all[i0]),
                        stdout_redir: pre.stdout_redir,
                        stderr_redir: pre.stderr_redir,
                    });
                }
            },
        }
    }
    proof {
        assert(processed_args.deep_view() == goal.args);
    }
    (processed_args, stdout_redir, stderr_redir)
}

/// A token list that holds no redirection operator is returned unchanged,
/// with both directives absent.
pub proof fn lemma_resolve_no_operators(tokens: Seq<Seq<char>>)
    requires
        forall|k: int| 0 <= k < tokens.len() ==> !is_redirection_operator(#[trigger] tokens[k]),
    ensures
        resolve_tokens(tokens).args == tokens,
        resolve_tokens(tokens).stdout_redir is None,
        resolve_tokens(tokens).stderr_redir is None,
{
    lemma_resolve_plain_from(tokens, 0, resolve_init());
    assert(resolve_init().args + tokens.skip(0) =~= tokens);
}

proof fn lemma_resolve_plain_from(tokens: Seq<Seq<char>>, i: int, st: ResolveState)
    requires
        0 <= i <= tokens.len(),
        forall|k: int| i <= k < tokens.len() ==> !is_redirection_operator(#[trigger] tokens[k]),
    ensures
        resolve_from(tokens, i, st) == (ResolveState {
            args: st.args + tokens.skip(i),
            stdout_redir: st.stdout_redir,
            stderr_redir: st.stderr_redir,
        }),
    decreases tokens.len() - i,
{
    if i == tokens.len() {
        assert(st.args + tokens.skip(i) =~= st.args);
        assert(resolve_from(tokens, i, st) =~= ResolveState {
            args: st.args + tokens.skip(i),
            stdout_redir: st.stdout_redir,
            stderr_redir: st.stderr_redir,
        });
    } else {
        let next = ResolveState {
            args: st.args.push(tokens[i]),
            stdout_redir: st.stdout_redir,
            stderr_redir: st.stderr_redir,
        };
        lemma_resolve_plain_from(tokens, i + 1, next);
        assert(st.args.push(tokens[i]) + tokens.skip(i + 1) =~= st.args + tokens.skip(i));
        assert(resolve_from(tokens, i, st) =~= ResolveState {
            args: st.args + tokens.skip(i),
            stdout_redir: st.stdout_redir,
            stderr_redir: st.stderr_redir,
        });
    }
}

} // verus!
