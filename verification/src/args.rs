//! What the user asked for on the command line.

use vstd::prelude::*;

verus! {

/// The most detail that the log can be asked for.
pub const MAX_VERBOSITY: u8 = 3;

/// The detail that a build made for debugging logs at the least.
pub const DEBUG_VERBOSITY: u8 = 2;

/// The options of one run.
#[derive(Clone, Copy, Debug)]
pub struct Args {
    /// How much detail to log, from 0 to `MAX_VERBOSITY`.
    pub verbose: u8,
    /// Answer every question with yes.
    pub auto_confirm: bool,
    /// Set browsers up for vertical tabs.
    pub vertical_tabs: bool,
    /// Back a profile up before it is changed.
    pub backup: bool,
    /// Leave search suggestions and prefetching on.
    pub search_suggestions: bool,
    /// Write policy files.
    pub policies: bool,
    /// Only write the policies of Brave on Windows.
    pub windows_brave_policies: bool,
}

impl Default for Args {
    fn default() -> (args: Self)
        ensures
            args.verbose == 0,
            !args.auto_confirm,
            !args.vertical_tabs,
            !args.backup,
            !args.search_suggestions,
            !args.policies,
            !args.windows_brave_policies,
    {
        Args {
            verbose: 0,
            auto_confirm: false,
            vertical_tabs: false,
            backup: false,
            search_suggestions: false,
            policies: false,
            windows_brave_policies: false,
        }
    }
}

/// The detail that is logged for a request of `asked`.
pub open spec fn effective_verbosity(asked: u8, debug_build: bool) -> u8 {
    let raised = if debug_build && asked < DEBUG_VERBOSITY {
        DEBUG_VERBOSITY
    } else {
        asked
    };
    if raised > MAX_VERBOSITY {
        MAX_VERBOSITY
    } else {
        raised
    }
}

impl Args {
    /// The detail to log: what was asked for, at least `DEBUG_VERBOSITY` in
    /// a build made for debugging, and never more than `MAX_VERBOSITY`.
    pub fn verbosity(&self, debug_build: bool) -> (level: u8)
        ensures
            level == effective_verbosity(self.verbose, debug_build),
            level <= MAX_VERBOSITY,
    {
        let raised = if debug_build && self.verbose < DEBUG_VERBOSITY {
            DEBUG_VERBOSITY
        } else {
            self.verbose
        };
        if raised > MAX_VERBOSITY {
            MAX_VERBOSITY
        } else {
            raised
        }
    }

    /// Whether more detail was asked for than there is.
    pub fn verbosity_too_high(&self) -> (r: bool)
        ensures
            r == (self.verbose > MAX_VERBOSITY),
    {
        self.verbose > MAX_VERBOSITY
    }
}

} // verus!
