use vstd::prelude::*;

verus! {

/// Relies on std::path::Path::is_file: true exactly when something
/// exists at the path and it is a regular file. The answer depends on
/// the state of the disk, so nothing more is promised of it.
#[verifier::external_body]
fn path_is_file(path: &String) -> bool {
    std::path::Path::new(path.as_str()).is_file()
}

/// Relies on is_executable::is_executable: true exactly when a file
/// exists at the path and its permissions allow executing it. The answer
/// depends on the state of the disk, so nothing more is promised of it.
#[verifier::external_body]
fn path_is_executable(path: &String) -> bool {
    is_executable::is_executable(std::path::Path::new(path.as_str()))
}

/// A directory path and a file name joined with a `/`; a trailing
/// separator on the directory is not doubled, and an empty directory
/// path leaves the name bare.
pub open spec fn joined_path(dir: Seq<char>, name: Seq<char>) -> Seq<char> {
    if dir.len() == 0 {
        name
    } else if dir.last() == '/' {
        dir + name
    } else {
        dir + seq!['/'] + name
    }
}

fn join_path(dir: &String, name: &str) -> (r: String)
    ensures
        r@ == joined_path(dir@, name@),
{
    let n: usize = dir.as_str().unicode_len();
    if n == 0 {
        let mut s = String::new();
        s.append(name);
        proof {
            assert(s@ =~= name@);
        }
        return s;
    }
    let mut s: String = dir.clone();
    if dir.as_str().get_char(n - 1) != '/' {
        crate::text::push_char(&mut s, '/');
        s.append(name);
        proof {
            assert(s@ =~= dir@ + seq!['/'] + name@);
        }
        s
    } else {
        s.append(name);
        s
    }
}

/// Tests one candidate path: the path itself when a regular executable
/// file stands there, nothing otherwise. What comes back depends on the
/// disk, so only the returned path's identity is promised.
fn find_executable_file_in_path(path: &String) -> (r: Option<String>)
    ensures
        r matches Some(p) ==> p@ == path@,
{
    if path_is_file(path) && path_is_executable(path) {
        Some(path.clone())
    } else {
        None
    }
}

/// Resolves a command name against the directories of the search path,
/// in path-list order, to the first directory entry that is an
/// executable file. Any returned path is the name joined onto one of the
/// searched directories; an empty search path resolves nothing.
pub fn find_executable_file_in_paths(executable_file: &str, paths: &Vec<String>) -> (r: Option<
    String,
>)
    ensures
        r matches Some(p) ==> exists|k: int|
            0 <= k < paths@.len() && p@ == joined_path(
                #[trigger] paths@[k]@,
                executable_file@,
            ),
        paths@.len() == 0 ==> r is None,
{
    let n: usize = paths.len();
    let mut k: usize = 0;
    while k < n
        invariant
            0 <= k <= n,
            n == paths@.len(),
        decreases n - k,
    {
        let candidate = join_path(&paths[k], executable_file);
        match find_executable_file_in_path(&candidate) {
            Some(p) => {
                proof {
                    assert(p@ == joined_path(paths@[k as int]@, executable_file@));
                }
                return Some(p);
            },
            None => {},
        }
        k += 1;
    }
    None
}

} // verus!
