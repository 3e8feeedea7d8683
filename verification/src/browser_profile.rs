//! A browser profile: the name the browser shows and the directory it lives in.

use vstd::prelude::*;

verus! {

/// What a `BrowserProfile` stands for in contracts.
pub struct ProfileView {
    pub name: Seq<char>,
    pub path: Seq<char>,
}

/// One profile of one browser installation.
#[derive(Clone, Debug)]
pub struct BrowserProfile {
    pub name: String,
    pub path: String,
}

impl DeepView for BrowserProfile {
    type V = ProfileView;

    open spec fn deep_view(&self) -> ProfileView {
        ProfileView { name: self.name@, path: self.path@ }
    }
}

impl BrowserProfile {
    pub fn new(name: String, path: String) -> (profile: Self)
        ensures
            profile.name == name,
            profile.path == path,
    {
        Self { name, path }
    }

    /// A copy with the same name and path.
    pub fn duplicate(&self) -> (copy: Self)
        ensures
            copy.deep_view() == self.deep_view(),
    {
        Self { name: self.name.clone(), path: self.path.clone() }
    }

    /// The text shown for this profile: its name.
    pub fn label(&self) -> (text: String)
        ensures
            text@ == self.name@,
    {
        self.name.clone()
    }
}

} // verus!
