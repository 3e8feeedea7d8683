//! Zen: where it keeps its data.

pub mod installations;
pub mod paths;

use crate::environment::Environment;
use crate::installation::{browser_name, Browser, Installation};
use vstd::prelude::*;

verus! {

/// The Zen browser.
pub struct Zen;

impl Zen {
    /// Which browser this is.
    pub fn browser() -> (r: Browser)
        ensures
            r == Browser::Zen,
    {
        Browser::Zen
    }

    /// The name of the browser as it is shown.
    pub fn name() -> (r: &'static str)
        ensures
            r@ == browser_name(Browser::Zen),
    {
        Browser::Zen.name()
    }

    /// The installations of Zen to look for.
    pub fn installations(env: &Environment) -> (r: Vec<Installation>)
        ensures
            r.deep_view() == installations::zen_installations(*env),
    {
        installations::installations(env)
    }
}

} // verus!
