//! Command resolution: locating an external executable either as a literal
//! path or through the ordered search-path directories.
//!
//! Whether a path exists is the filesystem's answer and can change between
//! any two calls; the contracts here therefore pin the shape of every
//! possible result rather than which one comes back.
use crate::strutil::contains_char;
use vstd::prelude::*;
use vstd::string::*;

verus! {

pub open spec fn contains_slash(s: Seq<char>) -> bool {
    s.contains('/')
}

/// Concatenation of a directory and an entry name as one path string.
pub open spec fn join_path_spec(dir: Seq<char>, name: Seq<char>) -> Seq<char> {
    if dir.len() == 0 {
        name
    } else if dir.last() == '/' {
        dir + name
    } else {
        dir + seq!['/'] + name
    }
}

/// The strings that command resolution may return for `cmd`: the command
/// itself when it already holds a path separator, else one of the search-path
/// directories joined with it.
pub open spec fn candidate_path(cmd: Seq<char>, paths: Seq<Seq<char>>, p: Seq<char>) -> bool {
    if contains_slash(cmd) {
        p == cmd
    } else {
        exists|j: int| 0 <= j < paths.len() && p == join_path_spec(#[trigger] paths[j], cmd)
    }
}

/// Relies on std::path::Path::exists: whether the path points at an existing
/// filesystem entity. The answer depends on the machine's filesystem and on
/// when it is asked, so nothing is promised of it.
#[verifier::external_body]
fn path_exists(p: &String) -> bool {
    std::path::Path::new(p.as_str()).exists()
}

fn join_path(dir: &String, name: &str) -> (r: String)
    ensures
        r@ == join_path_spec(dir@, name@),
{
    let dlen = dir.as_str().unicode_len();
    if dlen == 0 {
        String::from_str(name)
    } else if dir.as_str().get_char(dlen - 1) == '/' {
        let mut s = dir.clone();
        s.append(name);
        s
    } else {
        let mut s = dir.clone();
        s.append("/");
        s.append(name);
        proof {
            reveal_strlit("/");
            assert(dir@ + "/"@ =~= dir@ + seq!['/']);
        }
        s
    }
}

fn find_absolute_command(command: &str) -> (r: Option<String>)
    ensures
        r matches Some(p) ==> p@ == command@,
{
    let path = String::from_str(command);
    if path_exists(&path) {
        Option::Some(path)
    } else {
        Option::None
    }
}

fn find_command_in_path(command: &str, paths: &Vec<String>) -> (r: Option<String>)
    ensures
        r matches Some(p) ==> exists|j: int|
            0 <= j < paths@.len() && p@ == join_path_spec(
                #[trigger] paths.deep_view()[j],
                command@,
            ),
        paths@.len() == 0 ==> r is None,
{
    let mut j: usize = 0;
    while j < paths.len()
        invariant
            j <= paths@.len(),
        decreases paths@.len() - j,
    {
        let candidate = join_path(&paths[j], command);
        if path_exists(&candidate) {
            proof {
                assert(candidate@ == join_path_spec(paths.deep_view()[j as int], command@));
            }
            return Option::Some(candidate);
        }
        j += 1;
    }
    Option::None
}

/// Resolves a command name: a name holding a path separator is returned as
/// itself when it exists on the filesystem; any other name is looked up as
/// `directory/name` through the search path in order, first hit wins. `None`
/// when nothing is found — in particular, always, when the name holds no
/// separator and the search path is empty.
pub fn find_command(command: &str, paths: &Vec<String>) -> (r: Option<String>)
    ensures
        r matches Some(p) ==> candidate_path(command@, paths.deep_view(), p@),
        !contains_slash(command@) && paths@.len() == 0 ==> r is None,
{
    if contains_char(command, '/') {
        return find_absolute_command(command);
    }
    find_command_in_path(command, paths)
}

} // verus!
