//! Whether the policies of Firefox are written.

use crate::args::Args;
use crate::overwrite::Overwrite;
use crate::text::str_eq;
use vstd::prelude::*;

verus! {

/// What to do about a policies file that may be there already.
pub open spec fn policies_choice(
    present: bool,
    auto_confirm: bool,
    existing: Seq<char>,
    policies: Seq<char>,
) -> Overwrite {
    if !present || auto_confirm {
        Overwrite::Write
    } else if existing == policies {
        Overwrite::Keep
    } else if policies.len() == 0 {
        Overwrite::Write
    } else {
        Overwrite::Ask
    }
}

/// What to do about a policies file that may be there already.
///
/// It is written where there is none, or every question is answered with
/// yes. One that says the same already is kept, and about any other the
/// user is asked, unless there are no policies to write.
pub fn should_write_policies(present: bool, auto_confirm: bool, existing: &str, policies: &str) -> (r:
    Overwrite)
    ensures
        r == policies_choice(present, auto_confirm, existing@, policies@),
{
    if !present || auto_confirm {
        Overwrite::Write
    } else if str_eq(existing, policies) {
        Overwrite::Keep
    } else if policies.unicode_len() == 0 {
        Overwrite::Write
    } else {
        Overwrite::Ask
    }
}

/// Whether policies are asked for at all in this run.
pub fn policies_wanted(args: &Args) -> (r: bool)
    ensures
        r == (args.policies || args.windows_brave_policies),
{
    args.policies || args.windows_brave_policies
}

} // verus!
