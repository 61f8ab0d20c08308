//! Output routing: a builtin's structured output is turned into one write
//! action per stream, honoring the line's redirection directives. Performing
//! the writes (terminal or file) is the caller's part; the meaning of a file
//! write is modeled by [`written_contents`].
use crate::redirection::{redir_opt_view, Redirection, RedirectionMode, RedirectionView};
use vstd::prelude::*;
use vstd::string::*;

verus! {

/// What one builtin invocation produced, streams kept separate.
#[derive(Debug)]
pub struct CommandOutput {
    pub stdout: String,
    pub stderr: String,
}

/// Mathematical image of a [`CommandOutput`].
#[verifier::ext_equal]
pub struct CommandOutputView {
    pub stdout: Seq<char>,
    pub stderr: Seq<char>,
}

impl View for CommandOutput {
    type V = CommandOutputView;

    open spec fn view(&self) -> CommandOutputView {
        CommandOutputView { stdout: self.stdout@, stderr: self.stderr@ }
    }
}

/// Where one stream's text goes: to the stream's own terminal, or into a
/// named file opened with create-if-absent, write access, and the given mode.
#[derive(Debug)]
pub enum WriteAction {
    Terminal { text: String },
    File { filename: String, mode: RedirectionMode, text: String },
}

/// Mathematical image of a [`WriteAction`].
#[verifier::ext_equal]
pub enum WriteActionView {
    Terminal { text: Seq<char> },
    File { filename: Seq<char>, mode: RedirectionMode, text: Seq<char> },
}

impl View for WriteAction {
    type V = WriteActionView;

    open spec fn view(&self) -> WriteActionView {
        match self {
            WriteAction::Terminal { text } => WriteActionView::Terminal { text: text@ },
            WriteAction::File { filename, mode, text } => WriteActionView::File {
                filename: filename@,
                mode: *mode,
                text: text@,
            },
        }
    }
}

/// The two write actions for one command line, stdout and stderr handled
/// independently.
pub struct RoutingPlan {
    pub stdout: WriteAction,
    pub stderr: WriteAction,
}

/// Where a stream's text belongs, given the directive recorded for it.
pub open spec fn routed_action(
    text: Seq<char>,
    redir: Option<RedirectionView>,
) -> WriteActionView {
    match redir {
        Option::Some(r) => WriteActionView::File { filename: r.filename, mode: r.mode, text },
        Option::None => WriteActionView::Terminal { text },
    }
}

fn route_stream(text: String, redir: &Option<Redirection>) -> (r: WriteAction)
    ensures
        r@ == routed_action(text@, redir_opt_view(*redir)),
{
    match redir {
        Option::Some(rd) => WriteAction::File {
            filename: rd.filename.clone(),
            mode: rd.mode,
            text,
        },
        Option::None => WriteAction::Terminal { text },
    }
}

/// Routes a builtin's output: each stream goes to its redirection target when
/// one exists, else to the corresponding real stream.
pub fn apply_output_redirections(
    output: CommandOutput,
    stdout_redir: &Option<Redirection>,
    stderr_redir: &Option<Redirection>,
) -> (plan: RoutingPlan)
    ensures
        plan.stdout@ == routed_action(output.stdout@, redir_opt_view(*stdout_redir)),
        plan.stderr@ == routed_action(output.stderr@, redir_opt_view(*stderr_redir)),
{
    let CommandOutput { stdout, stderr } = output;
    RoutingPlan {
        stdout: route_stream(stdout, stdout_redir),
        stderr: route_stream(stderr, stderr_redir),
    }
}

/// What a redirection target file holds after one write: truncate mode
/// replaces the prior contents, append mode adds to them.
pub open spec fn written_contents(
    prior: Seq<char>,
    mode: RedirectionMode,
    text: Seq<char>,
) -> Seq<char> {
    match mode {
        RedirectionMode::Truncate => text,
        RedirectionMode::Append => prior + text,
    }
}

/// Executable form of [`written_contents`]: the contents of a redirection
/// target file after a write, given what it held before.
pub fn file_contents_after(prior: &str, mode: RedirectionMode, text: &str) -> (r: String)
    ensures
        r@ == written_contents(prior@, mode, text@),
{
    match mode {
        RedirectionMode::Truncate => String::from_str(text),
        RedirectionMode::Append => {
            let mut s = String::from_str(prior);
            s.append(text);
            s
        },
    }
}

/// Two append-mode writes to the same file concatenate in order.
pub proof fn lemma_append_accumulates(prior: Seq<char>, first: Seq<char>, second: Seq<char>)
    ensures
        written_contents(
            written_contents(prior, RedirectionMode::Append, first),
            RedirectionMode::Append,
            second,
        ) == prior + first + second,
{
}

/// A truncate-mode write discards whatever any earlier write left behind.
pub proof fn lemma_truncate_discards(
    prior: Seq<char>,
    mode: RedirectionMode,
    first: Seq<char>,
    second: Seq<char>,
)
    ensures
        written_contents(
            written_contents(prior, mode, first),
            RedirectionMode::Truncate,
            second,
        ) == second,
{
}

} // verus!
