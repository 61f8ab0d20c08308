//! The shell builtins — `cd`, `echo`, `pwd`, `type`, `exit` — as pure
//! functions producing structured output. Touching the process state (the
//! working directory, the home directory) is the caller's part; the functions
//! here compute the exact texts that the builtins print.
use crate::output::CommandOutput;
use crate::strutil::str_eq;
use crate::utils::{candidate_path, contains_slash, find_command};
use vstd::prelude::*;
use vstd::string::*;

verus! {

/// The names dispatched in-process: `cd`, `echo`, `exit`, `pwd`, `type`.
pub open spec fn is_builtin_name(s: Seq<char>) -> bool {
    s == "cd"@ || s == "echo"@ || s == "exit"@ || s == "pwd"@ || s == "type"@
}

/// Whether `command` is one of the shell's builtin names.
pub fn is_builtin(command: &str) -> (r: bool)
    ensures
        r == is_builtin_name(command@),
{
    str_eq(command, "cd") || str_eq(command, "echo") || str_eq(command, "exit") || str_eq(
        command,
        "pwd",
    ) || str_eq(command, "type")
}

/// The arguments joined by single spaces, in order.
pub open spec fn joined_with_spaces(args: Seq<Seq<char>>) -> Seq<char>
    decreases args.len(),
{
    if args.len() == 0 {
        Seq::empty()
    } else if args.len() == 1 {
        args[0]
    } else {
        joined_with_spaces(args.drop_last()) + seq![' '] + args.last()
    }
}

/// `echo`: the arguments joined by single spaces plus a trailing newline on
/// stdout; stderr empty.
pub fn echo_input(args: &Vec<String>) -> (out: CommandOutput)
    ensures
        out.stdout@ == joined_with_spaces(args.deep_view()) + "\n"@,
        out.stderr@ == Seq::<char>::empty(),
{
    let mut stdout = String::new();
    let mut k: usize = 0;
    while k < args.len()
        invariant
            k <= args@.len(),
            stdout@ == joined_with_spaces(args.deep_view().take(k as int)),
        decreases args@.len() - k,
    {
        if k > 0 {
            stdout.append(" ");
        }
        stdout.append(args[k].as_str());
        proof {
            reveal_strlit(" ");
            let pre = args.deep_view().take(k as int);
            let post = args.deep_view().take(k as int + 1);
            assert(post.drop_last() =~= pre);
            assert(post.last() == args.deep_view()[k as int]);
            if k == 0 {
                assert(stdout@ =~= joined_with_spaces(post));
            } else {
                assert(" "@ =~= seq![' ']);
                assert(stdout@ =~= joined_with_spaces(post));
            }
        }
        k += 1;
    }
    proof {
        assert(args.deep_view().take(args@.len() as int) =~= args.deep_view());
    }
    stdout.append("\n");
    CommandOutput { stdout, stderr: String::new() }
}

/// The `type` answer once resolution has spoken: `"{name} is {path}\n"` for a
/// resolved path, `"{name}: not found\n"` for none.
pub fn type_resolution_output(command: &str, resolved: &Option<String>) -> (out: CommandOutput)
    ensures
        out.stderr@ == Seq::<char>::empty(),
        resolved matches Some(p) ==> out.stdout@ == command@ + " is "@ + p@ + "\n"@,
        resolved is None ==> out.stdout@ == command@ + ": not found\n"@,
{
    let mut stdout = String::from_str(command);
    match resolved {
        Option::Some(p) => {
            stdout.append(" is ");
            stdout.append(p.as_str());
            stdout.append("\n");
        },
        Option::None => {
            stdout.append(": not found\n");
        },
    }
    CommandOutput { stdout, stderr: String::new() }
}

/// `type`: a builtin name is reported as a shell builtin; any other name is
/// reported with its resolved path when the search finds one, else as not
/// found. stderr is always empty.
pub fn handle_type_command(command: &str, paths: &Vec<String>) -> (out: CommandOutput)
    ensures
        out.stderr@ == Seq::<char>::empty(),
        is_builtin_name(command@) ==> out.stdout@ == command@ + " is a shell builtin\n"@,
        !is_builtin_name(command@) ==> (out.stdout@ == command@ + ": not found\n"@ || exists|
            p: Seq<char>,
        |
            candidate_path(command@, paths.deep_view(), p) && out.stdout@ == command@ + " is "@ + p
                + "\n"@),
        !is_builtin_name(command@) && !contains_slash(command@) && paths@.len() == 0
            ==> out.stdout@ == command@ + ": not found\n"@,
{
    if is_builtin(command) {
        let mut stdout = String::from_str(command);
        stdout.append(" is a shell builtin\n");
        CommandOutput { stdout, stderr: String::new() }
    } else {
        let resolved = find_command(command, paths);
        let out = type_resolution_output(command, &resolved);
        proof {
            match resolved {
                Option::Some(p) => {
                    assert(candidate_path(command@, paths.deep_view(), p@) && out.stdout@
                        == command@ + " is "@ + p@ + "\n"@);
                },
                Option::None => {},
            }
        }
        out
    }
}

/// The `cd` argument with `~` resolved to the home directory; every other
/// argument is taken as a literal path.
pub fn resolve_cd_target(arg: &str, home: &str) -> (r: String)
    ensures
        arg@ == "~"@ ==> r@ == home@,
        arg@ != "~"@ ==> r@ == arg@,
{
    if str_eq(arg, "~") {
        String::from_str(home)
    } else {
        String::from_str(arg)
    }
}

/// `cd`'s output once the directory change has been attempted: silence on
/// success, the exact diagnostic on failure.
pub fn change_directory_output(new_working_directory: &str, succeeded: bool) -> (out:
    CommandOutput)
    ensures
        out.stdout@ == Seq::<char>::empty(),
        succeeded ==> out.stderr@ == Seq::<char>::empty(),
        !succeeded ==> out.stderr@ == "cd: "@ + new_working_directory@
            + ": No such file or directory\n"@,
{
    if succeeded {
        CommandOutput { stdout: String::new(), stderr: String::new() }
    } else {
        let mut stderr = String::from_str("cd: ");
        stderr.append(new_working_directory);
        stderr.append(": No such file or directory\n");
        CommandOutput { stdout: String::new(), stderr }
    }
}

/// `pwd`: the working directory's display form plus a trailing newline.
pub fn pwd_output(current_dir: &str) -> (out: CommandOutput)
    ensures
        out.stdout@ == current_dir@ + "\n"@,
        out.stderr@ == Seq::<char>::empty(),
{
    let mut stdout = String::from_str(current_dir);
    stdout.append("\n");
    CommandOutput { stdout, stderr: String::new() }
}

} // verus!
