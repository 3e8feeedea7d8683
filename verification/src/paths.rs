//! Paths as plain strings with `/` as the separator.

use crate::text::{chars_of, append};
use vstd::prelude::*;

verus! {

/// `part` appended to `base` as a path component.
///
/// A `part` that starts at the root replaces `base`. Otherwise a separator is
/// put between the two unless `base` is empty or already ends with one.
pub open spec fn joined(base: Seq<char>, part: Seq<char>) -> Seq<char> {
    if part.len() > 0 && part[0] == '/' {
        part
    } else if base.len() == 0 || base.last() == '/' {
        base + part
    } else {
        base + seq!['/'] + part
    }
}

/// Joins a path and a component.
pub fn join_path(base: &str, part: &str) -> (r: String)
    ensures
        r@ == joined(base@, part@),
{
    let b = chars_of(base);
    let p = chars_of(part);
    if p.len() > 0 && p[0] == '/' {
        part.to_owned()
    } else if b.len() == 0 || b[b.len() - 1] == '/' {
        append(base, part)
    } else {
        proof {
            reveal_strlit("/");
            assert("/"@ == seq!['/']);
        }
        let with_separator = append(base, "/");
        append(with_separator.as_str(), part)
    }
}

} // verus!
