//! The directories of the machine that installations are looked for in.
//!
//! Paths are written with `/` between components on every platform.

use crate::paths::{join_path, joined};
use vstd::prelude::*;

verus! {

/// The operating system that the program runs on.
#[derive(Clone, Copy, Debug, PartialEq, Eq, Structural)]
pub enum Platform {
    Linux,
    MacOs,
    Windows,
    Other,
}

/// The user's directories as the operating system reports them.
pub struct Environment {
    pub platform: Platform,
    /// The home directory.
    pub home: Option<String>,
    /// The directory for data that follows the user from machine to machine.
    pub data: Option<String>,
    /// The directory for data that stays on this machine.
    pub data_local: Option<String>,
    /// The directory for configuration that stays on this machine.
    pub config_local: Option<String>,
}

/// `part` appended to `base`, where there is a base.
pub open spec fn extended(base: Option<Seq<char>>, part: Seq<char>) -> Option<Seq<char>> {
    match base {
        Some(b) => Some(joined(b, part)),
        None => None,
    }
}

/// Each of `bases` with `part` appended.
pub open spec fn each_extended(bases: Seq<Seq<char>>, part: Seq<char>) -> Seq<Seq<char>> {
    Seq::new(bases.len(), |i: int| joined(bases[i], part))
}

/// The one path of `path`, or no path.
pub open spec fn one_or_none(path: Option<Seq<char>>) -> Seq<Seq<char>> {
    match path {
        Some(p) => seq![p],
        None => Seq::empty(),
    }
}

impl Environment {
    /// Whether this is macOS or Windows.
    pub open spec fn is_desktop_os(self) -> bool {
        self.platform == Platform::MacOs || self.platform == Platform::Windows
    }

    /// Where roaming application data lives.
    pub open spec fn roaming_base(self) -> Option<Seq<char>> {
        if self.is_desktop_os() {
            self.data.deep_view()
        } else {
            self.home.deep_view()
        }
    }

    /// Where local application data lives.
    pub open spec fn local_base(self) -> Option<Seq<char>> {
        if self.is_desktop_os() {
            self.data_local.deep_view()
        } else {
            self.config_local.deep_view()
        }
    }

    /// Where applications are installed.
    pub open spec fn app_bases(self) -> Seq<Seq<char>> {
        match self.platform {
            Platform::Windows => seq!["C:\\Program Files"@, "C:\\Program Files (x86)"@],
            Platform::MacOs => seq!["/Applications"@] + one_or_none(
                extended(self.home.deep_view(), "Applications"@),
            ),
            _ => seq!["/opt"@],
        }
    }

    /// Where the data of snap packages lives.
    pub open spec fn snap_base(self) -> Option<Seq<char>> {
        if self.platform == Platform::Linux {
            extended(self.home.deep_view(), "snap"@)
        } else {
            None
        }
    }

    /// Where the data of flatpak packages lives.
    pub open spec fn flatpak_root(self) -> Option<Seq<char>> {
        if self.platform == Platform::Linux {
            extended(extended(self.home.deep_view(), ".var"@), "app"@)
        } else {
            None
        }
    }
}

/// A copy of an optional path.
pub fn copy_of(path: &Option<String>) -> (copy: Option<String>)
    ensures
        copy.deep_view() == path.deep_view(),
{
    match path {
        Some(p) => Some(p.clone()),
        None => None,
    }
}

/// `part` appended to `base`, where there is a base.
pub fn extend(base: Option<String>, part: &str) -> (r: Option<String>)
    ensures
        r.deep_view() == extended(base.deep_view(), part@),
{
    match base {
        Some(b) => Some(join_path(b.as_str(), part)),
        None => None,
    }
}

/// Each of `bases` with `part` appended.
pub fn extend_each(bases: &Vec<String>, part: &str) -> (r: Vec<String>)
    ensures
        r.deep_view() == each_extended(bases.deep_view(), part@),
{
    let mut r: Vec<String> = Vec::new();
    let mut i: usize = 0;
    while i < bases.len()
        invariant
            i <= bases.len(),
            r.len() == i,
            forall|k: int| 0 <= k < i ==> r[k]@ == joined(bases[k]@, part@),
        decreases bases.len() - i,
    {
        r.push(join_path(bases[i].as_str(), part));
        i = i + 1;
    }
    assert(r.deep_view() =~= each_extended(bases.deep_view(), part@));
    r
}

/// The one path of `path` as a list, or the empty list.
pub fn list_of(path: Option<String>) -> (r: Vec<String>)
    ensures
        r.deep_view() == one_or_none(path.deep_view()),
{
    let mut r: Vec<String> = Vec::new();
    match path {
        Some(p) => {
            r.push(p);
            assert(r.deep_view() =~= one_or_none(path.deep_view()));
        },
        None => {
            assert(r.deep_view() =~= one_or_none(path.deep_view()));
        },
    }
    r
}

/// Where roaming application data lives: the data directory on macOS and
/// Windows, the home directory elsewhere.
pub fn roaming_data_base(env: &Environment) -> (r: Option<String>)
    ensures
        r.deep_view() == env.roaming_base(),
{
    match env.platform {
        Platform::MacOs | Platform::Windows => copy_of(&env.data),
        _ => copy_of(&env.home),
    }
}

/// Where local application data lives: the local data directory on macOS
/// and Windows, the local configuration directory elsewhere.
pub fn local_data_base(env: &Environment) -> (r: Option<String>)
    ensures
        r.deep_view() == env.local_base(),
{
    match env.platform {
        Platform::MacOs | Platform::Windows => copy_of(&env.data_local),
        _ => copy_of(&env.config_local),
    }
}

/// Where applications are installed.
pub fn local_app_bases(env: &Environment) -> (r: Vec<String>)
    ensures
        r.deep_view() == env.app_bases(),
{
    let mut r: Vec<String> = Vec::new();
    match env.platform {
        Platform::Windows => {
            r.push("C:\\Program Files".to_owned());
            r.push("C:\\Program Files (x86)".to_owned());
            assert(r.deep_view() =~= env.app_bases());
        },
        Platform::MacOs => {
            r.push("/Applications".to_owned());
            match extend(copy_of(&env.home), "Applications") {
                Some(p) => {
                    r.push(p);
                },
                None => {},
            }
            assert(r.deep_view() =~= env.app_bases());
        },
        _ => {
            r.push("/opt".to_owned());
            assert(r.deep_view() =~= env.app_bases());
        },
    }
    r
}

/// Where the data of snap packages lives. Only Linux has such a place.
pub fn local_snap_base(env: &Environment) -> (r: Option<String>)
    ensures
        r.deep_view() == env.snap_base(),
{
    match env.platform {
        Platform::Linux => extend(copy_of(&env.home), "snap"),
        _ => None,
    }
}

/// Where the data of flatpak packages lives. Only Linux has such a place.
pub fn flatpak_base(env: &Environment) -> (r: Option<String>)
    ensures
        r.deep_view() == env.flatpak_root(),
{
    match env.platform {
        Platform::Linux => extend(extend(copy_of(&env.home), ".var"), "app"),
        _ => None,
    }
}

} // verus!
