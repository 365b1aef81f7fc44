//! Names typed for new and renamed entries, and names shown for paths.
use vstd::prelude::*;
use vstd::string::*;

use crate::git::{contains_chars, contains_text};
use crate::paths::{file_name, file_name_of};
use crate::split::{trim, trim_str};
use crate::text::{chars_of, copy_str, str_eq};

verus! {

/// A typed entry name, trimmed, when it names an entry inside one directory
/// and nothing else: not empty, not "." or "..", no '/' or '\\'.
pub open spec fn sanitized(name: Seq<char>) -> Option<Seq<char>> {
    let t = trim(name);
    if t.len() == 0 || t == "."@ || t == ".."@ || t.contains('/') || t.contains('\\') {
        None
    } else {
        Some(t)
    }
}

fn has_char(s: &str, c: char) -> (b: bool)
    ensures
        b == s@.contains(c),
{
    let cs = chars_of(s);
    let n = cs.len();
    for i in 0..n
        invariant
            n == cs@.len(),
            cs@ == s@,
            forall|k: int| 0 <= k < i ==> cs@[k] != c,
    {
        if cs[i] == c {
            assert(s@[i as int] == c);
            return true;
        }
    }
    false
}

/// Accepts a name only if it can name an entry inside one directory and
/// nothing else; `None` rejects it.
pub fn sanitize_name(name: &str) -> (r: Option<String>)
    ensures
        match (r, sanitized(name@)) {
            (Some(a), Some(b)) => a@ == b,
            (None, None) => true,
            _ => false,
        },
{
    let t = trim_str(name);
    if t.as_str().is_empty() || str_eq(t.as_str(), ".") || str_eq(t.as_str(), "..") {
        return None;
    }
    if has_char(t.as_str(), '/') || has_char(t.as_str(), '\\') {
        return None;
    }
    Some(t)
}

/// The file name of a path for status messages, or the whole path without one.
pub fn name_of(path: &str) -> (r: String)
    ensures
        r@ == match file_name_of(path@) {
            Some(n) => n,
            None => path@,
        },
{
    match file_name(path) {
        Some(n) => n,
        None => copy_str(path),
    }
}

} // verus!
