//! The data folders of Firefox, by the way it was installed.
//!
//! Each function gives the place where the folder would be. Whether it is
//! there is for the caller to find out.

use crate::environment::{
    extend, extended, flatpak_base, local_snap_base, roaming_data_base, Environment, Platform,
};
use vstd::prelude::*;

verus! {

/// Where a local installation keeps its data on the platform of `env`.
pub open spec fn firefox_local(env: Environment) -> Option<Seq<char>> {
    match env.platform {
        Platform::MacOs => extended(env.roaming_base(), "Firefox"@),
        Platform::Windows => extended(extended(env.roaming_base(), "Mozilla"@), "Firefox"@),
        _ => extended(extended(env.roaming_base(), ".mozilla"@), "firefox"@),
    }
}

/// The data folder of a local installation.
pub fn firefox_folder(env: &Environment) -> (r: Option<String>)
    ensures
        r.deep_view() == firefox_local(*env),
{
    match env.platform {
        Platform::MacOs => extend(roaming_data_base(env), "Firefox"),
        Platform::Windows => extend(extend(roaming_data_base(env), "Mozilla"), "Firefox"),
        _ => extend(extend(roaming_data_base(env), ".mozilla"), "firefox"),
    }
}

/// The data folder of the snap package.
pub fn firefox_snap_folder(env: &Environment) -> (r: Option<String>)
    ensures
        r.deep_view() == extended(
            extended(extended(extended(env.snap_base(), "firefox"@), "common"@), ".mozilla"@),
            "firefox"@,
        ),
{
    let package = extend(extend(local_snap_base(env), "firefox"), "common");
    extend(extend(package, ".mozilla"), "firefox")
}

/// The data folder of the flatpak package.
pub fn firefox_flatpak_folder(env: &Environment) -> (r: Option<String>)
    ensures
        r.deep_view() == extended(
            extended(extended(env.flatpak_root(), "org.mozilla.firefox"@), ".mozilla"@),
            "firefox"@,
        ),
{
    extend(extend(extend(flatpak_base(env), "org.mozilla.firefox"), ".mozilla"), "firefox")
}

} // verus!
