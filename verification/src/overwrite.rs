//! What to do about a file that is already there.

use vstd::prelude::*;

verus! {

/// What to do with a file that the program wants to write.
#[derive(Clone, Copy, Debug, PartialEq, Eq, Structural)]
pub enum Overwrite {
    /// Write it.
    Write,
    /// Leave what is there.
    Keep,
    /// Ask the user.
    Ask,
}

} // verus!
