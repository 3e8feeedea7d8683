//! Brave: where it keeps its data and how its feature lists are written.

pub mod features;
pub mod installations;
pub mod paths;
pub mod resources;

use crate::environment::Environment;
use crate::installation::{browser_name, Browser, Installation};
use vstd::prelude::*;

verus! {

/// The Brave browser.
pub struct Brave;

impl Brave {
    /// Which browser this is.
    pub fn browser() -> (r: Browser)
        ensures
            r == Browser::Brave,
    {
        Browser::Brave
    }

    /// The name of the browser as it is shown.
    pub fn name() -> (r: &'static str)
        ensures
            r@ == browser_name(Browser::Brave),
    {
        Browser::Brave.name()
    }

    /// The installations of Brave to look for.
    pub fn installations(env: &Environment) -> (r: Vec<Installation>)
        ensures
            r.deep_view() == installations::brave_installations(*env),
    {
        installations::installations(env)
    }
}

} // verus!
