//! Firefox: where it keeps its data.

pub mod installations;
pub mod paths;
pub mod policies;
pub mod user_js;

use crate::environment::Environment;
use crate::installation::{browser_name, Browser, Installation};
use vstd::prelude::*;

verus! {

/// The Firefox browser.
pub struct Firefox;

impl Firefox {
    /// Which browser this is.
    pub fn browser() -> (r: Browser)
        ensures
            r == Browser::Firefox,
    {
        Browser::Firefox
    }

    /// The name of the browser as it is shown.
    pub fn name() -> (r: &'static str)
        ensures
            r@ == browser_name(Browser::Firefox),
    {
        Browser::Firefox.name()
    }

    /// The installations of Firefox to look for.
    pub fn installations(env: &Environment) -> (r: Vec<Installation>)
        ensures
            r.deep_view() == installations::firefox_installations(*env),
    {
        installations::installations(env)
    }
}

} // verus!
