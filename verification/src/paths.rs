//! Joining a directory and a file name the way `Path::join` does on Windows.
use vstd::prelude::*;

use crate::text::{chars_of, is_ascii_alpha, push_str};

verus! {

/// A path made of a drive prefix only, such as `C:`.
pub open spec fn is_drive_only(d: Seq<char>) -> bool {
    d.len() == 2 && is_ascii_alpha(d[0]) && d[1] == ':'
}

/// Whether a separator is needed between `d` and a relative name: not after
/// an empty path, a trailing separator or a bare drive prefix.
pub open spec fn needs_separator(d: Seq<char>) -> bool {
    d.len() > 0 && d.last() != '\\' && d.last() != '/' && !is_drive_only(d)
}

/// `d` joined with the relative name `n`.
pub open spec fn join_spec(d: Seq<char>, n: Seq<char>) -> Seq<char> {
    if needs_separator(d) {
        d + "\\"@ + n
    } else {
        d + n
    }
}

/// Joins a directory and a relative file name with the Windows separator.
pub fn join_path(directory: &str, name: &str) -> (p: String)
    ensures
        p@ == join_spec(directory@, name@),
{
    let d = chars_of(directory);
    let n = d.len();
    let sep = n > 0 && d[n - 1] != '\\' && d[n - 1] != '/' && !(n == 2 && (('a' <= d[0]
        && d[0] <= 'z') || ('A' <= d[0] && d[0] <= 'Z')) && d[1] == ':');
    let mut out = String::new();
    push_str(&mut out, directory);
    if sep {
        push_str(&mut out, "\\");
    }
    push_str(&mut out, name);
    proof {
        if n > 0 {
            assert(d@.last() == d@[n - 1]);
        }
    }
    out
}

} // verus!
