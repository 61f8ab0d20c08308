//! External command execution, up to the process boundary: resolving the
//! name, deciding between the not-found diagnostic and a launch, and fixing
//! every detail of the launch (program path, reported argv[0], arguments,
//! redirection directives). Spawning the child and wiring its descriptors is
//! the caller's part.
use crate::redirection::{redir_opt_view, Redirection};
use crate::strutil::clone_string_vec;
use crate::utils::{candidate_path, contains_slash, find_command};
use vstd::prelude::*;
use vstd::string::*;

verus! {

/// A fully determined child-process invocation: run `program`, report
/// `argv0` as the invocation name, pass `args`, and wire each redirected
/// stream to its target file (truncate or append, create if absent).
pub struct LaunchPlan {
    pub program: String,
    pub argv0: String,
    pub args: Vec<String>,
    pub stdout_redir: Option<Redirection>,
    pub stderr_redir: Option<Redirection>,
}

/// What running an external command comes to: a diagnostic for an
/// unresolvable name, or a launch.
pub enum ExternalAction {
    NotFound { message: String },
    Launch { plan: LaunchPlan },
}

fn clone_redirection_opt(r: &Option<Redirection>) -> (c: Option<Redirection>)
    ensures
        redir_opt_view(c) == redir_opt_view(*r),
{
    match r {
        Option::Some(rd) => Option::Some(
            Redirection { ty: rd.ty, mode: rd.mode, filename: rd.filename.clone() },
        ),
        Option::None => Option::None,
    }
}

/// Decides how an external command line runs. An unresolvable name yields
/// the exact `"{name}: command not found"` diagnostic (owed, in particular,
/// whenever the name holds no separator and the search path is empty); a
/// resolved name yields a launch whose argv[0] is the original name token,
/// whose arguments are passed unchanged, and whose redirections are the
/// line's directives.
pub fn execute_command(
    command: &str,
    paths: &Vec<String>,
    args: &Vec<String>,
    stdout_redir: &Option<Redirection>,
    stderr_redir: &Option<Redirection>,
) -> (r: ExternalAction)
    ensures
        match r {
            ExternalAction::NotFound { message } => message@ == command@
                + ": command not found"@,
            ExternalAction::Launch { plan } => {
                &&& candidate_path(command@, paths.deep_view(), plan.program@)
                &&& plan.argv0@ == command@
                &&& plan.args.deep_view() == args.deep_view()
                &&& redir_opt_view(plan.stdout_redir) == redir_opt_view(*stdout_redir)
                &&& redir_opt_view(plan.stderr_redir) == redir_opt_view(*stderr_redir)
            },
        },
        !contains_slash(command@) && paths@.len() == 0 ==> r is NotFound,
{
    match find_command(command, paths) {
        Option::Some(command_path) => ExternalAction::Launch {
            plan: LaunchPlan {
                program: command_path,
                argv0: String::from_str(command),
                args: clone_string_vec(args),
                stdout_redir: clone_redirection_opt(stdout_redir),
                stderr_redir: clone_redirection_opt(stderr_redir),
            },
        },
        Option::None => {
            let mut message = String::from_str(command);
            message.append(": command not found");
            ExternalAction::NotFound { message }
        },
    }
}

} // verus!
