//! The data folders of Brave, by the way it was installed.
//!
//! Each function gives the place where the folder would be. Whether it is
//! there is for the caller to find out.

use crate::environment::{extend, extended, flatpak_base, local_data_base, local_snap_base, Environment};
use vstd::prelude::*;

verus! {

/// The data folder of a local installation of the stable release.
pub fn brave_folder(env: &Environment) -> (r: Option<String>)
    ensures
        r.deep_view() == extended(
            extended(env.local_base(), "BraveSoftware"@),
            "Brave-Browser"@,
        ),
{
    extend(extend(local_data_base(env), "BraveSoftware"), "Brave-Browser")
}

/// The data folder of a local installation of the nightly release.
pub fn brave_nightly_folder(env: &Environment) -> (r: Option<String>)
    ensures
        r.deep_view() == extended(
            extended(env.local_base(), "BraveSoftware"@),
            "Brave-Browser-Nightly"@,
        ),
{
    extend(extend(local_data_base(env), "BraveSoftware"), "Brave-Browser-Nightly")
}

/// The data folder of the snap package.
pub fn brave_snap_folder(env: &Environment) -> (r: Option<String>)
    ensures
        r.deep_view() == extended(
            extended(
                extended(extended(extended(env.snap_base(), "brave"@), "509"@), ".config"@),
                "BraveSoftware"@,
            ),
            "Brave-Browser"@,
        ),
{
    let package = extend(extend(local_snap_base(env), "brave"), "509");
    extend(extend(extend(package, ".config"), "BraveSoftware"), "Brave-Browser")
}

/// The data folder of the flatpak package.
pub fn brave_flatpak_folder(env: &Environment) -> (r: Option<String>)
    ensures
        r.deep_view() == extended(
            extended(
                extended(extended(env.flatpak_root(), "com.brave.Browser"@), "config"@),
                "BraveSoftware"@,
            ),
            "Brave-Browser"@,
        ),
{
    let package = extend(extend(flatpak_base(env), "com.brave.Browser"), "config");
    extend(extend(package, "BraveSoftware"), "Brave-Browser")
}

} // verus!
