//! The data folders of Zen, by the way it was installed.
//!
//! Each function gives the place where the folder would be. Whether it is
//! there is for the caller to find out.

use crate::environment::{
    extend, extended, flatpak_base, local_snap_base, roaming_data_base, Environment, Platform,
};
use vstd::prelude::*;

verus! {

/// Where a local installation keeps its data on the platform of `env`.
pub open spec fn zen_local(env: Environment) -> Option<Seq<char>> {
    if env.is_desktop_os() {
        extended(env.roaming_base(), "zen"@)
    } else {
        extended(env.roaming_base(), ".zen"@)
    }
}

/// The data folder of a local installation.
pub fn zen_folder(env: &Environment) -> (r: Option<String>)
    ensures
        r.deep_view() == zen_local(*env),
{
    match env.platform {
        Platform::MacOs | Platform::Windows => extend(roaming_data_base(env), "zen"),
        _ => extend(roaming_data_base(env), ".zen"),
    }
}

/// The data folder of the snap package, which is not an official one.
pub fn zen_snap_folder(env: &Environment) -> (r: Option<String>)
    ensures
        r.deep_view() == extended(
            extended(extended(env.snap_base(), "0xgingi-zen-browser"@), "common"@),
            ".zen"@,
        ),
{
    extend(extend(extend(local_snap_base(env), "0xgingi-zen-browser"), "common"), ".zen")
}

/// The data folder of the flatpak package.
pub fn zen_flatpak_folder(env: &Environment) -> (r: Option<String>)
    ensures
        r.deep_view() == extended(extended(env.flatpak_root(), "app.zen_browser"@), ".zen"@),
{
    extend(extend(flatpak_base(env), "app.zen_browser"), ".zen")
}

} // verus!
