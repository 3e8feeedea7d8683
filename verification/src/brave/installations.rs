//! The installations of Brave that the program looks for.

use crate::environment::{
    each_extended, extend, extend_each, extended, flatpak_base, local_app_bases, local_data_base,
    local_snap_base, one_or_none, Environment, Platform,
};
use crate::installation::{Browser, Installation, InstallationView, InstalledVia, Variant};
use vstd::prelude::*;

verus! {

/// The data folder of a release whose folder is named `release`.
pub open spec fn release_data(env: Environment, release: Seq<char>) -> Option<Seq<char>> {
    let folder = extended(env.local_base(), release);
    if env.platform == Platform::Windows {
        extended(folder, "User Data"@)
    } else {
        folder
    }
}

/// The application folders of a release, given their names on Windows, on
/// macOS and elsewhere; no name, no folder.
pub open spec fn release_apps(
    env: Environment,
    windows: Seq<char>,
    mac: Seq<char>,
    elsewhere: Option<Seq<char>>,
) -> Seq<Seq<char>> {
    match env.platform {
        Platform::Windows => each_extended(env.app_bases(), windows),
        Platform::MacOs => each_extended(env.app_bases(), mac),
        _ => match elsewhere {
            Some(name) => each_extended(env.app_bases(), name),
            None => Seq::empty(),
        },
    }
}

/// The installations of Brave that are looked for in `env`.
pub open spec fn brave_installations(env: Environment) -> Seq<InstallationView> {
    let local = seq![
        InstallationView {
            browser: Browser::Brave,
            installed_via: InstalledVia::Local,
            data_folders: one_or_none(release_data(env, "BraveSoftware/Brave-Browser"@)),
            app_folders: release_apps(
                env,
                "BraveSoftware/Brave-Browser/Application"@,
                "Brave Browser.app/Contents"@,
                Some("brave.com/brave/brave-browser"@),
            ),
            variant: None,
        },
        InstallationView {
            browser: Browser::Brave,
            installed_via: InstalledVia::Local,
            data_folders: one_or_none(release_data(env, "BraveSoftware/Brave-Browser-Beta"@)),
            app_folders: release_apps(
                env,
                "BraveSoftware/Brave-Browser-Beta/Application"@,
                "Brave Browser Beta.app/Contents"@,
                None,
            ),
            variant: Some(Variant::Beta),
        },
        InstallationView {
            browser: Browser::Brave,
            installed_via: InstalledVia::Local,
            data_folders: one_or_none(release_data(env, "BraveSoftware/Brave-Browser-Nightly"@)),
            app_folders: release_apps(
                env,
                "BraveSoftware/Brave-Browser-Nightly/Application"@,
                "Brave Browser Nightly.app/Contents"@,
                None,
            ),
            variant: Some(Variant::Nightly),
        },
    ];
    if env.platform == Platform::Linux {
        local + seq![
            InstallationView {
                browser: Browser::Brave,
                installed_via: InstalledVia::Snap,
                data_folders: one_or_none(
                    extended(
                        env.snap_base(),
                        "brave/current/.config/BraveSoftware/Brave-Browser"@,
                    ),
                ),
                app_folders: seq!["/snap/brave/current/opt/brave.com/brave"@],
                variant: None,
            },
            InstallationView {
                browser: Browser::Brave,
                installed_via: InstalledVia::Flatpak,
                data_folders: one_or_none(
                    extended(
                        env.flatpak_root(),
                        "com.brave.Browser/config/BraveSoftware/Brave-Browser"@,
                    ),
                ),
                app_folders: seq![
                    "/var/lib/flatpak/app/com.brave.Browser/current/active/files/brave"@,
                ],
                variant: None,
            },
        ]
    } else {
        local
    }
}

/// The data folder of a release whose folder is named `release`.
fn release_folder(env: &Environment, release: &str) -> (r: Option<String>)
    ensures
        r.deep_view() == release_data(*env, release@),
{
    let folder = extend(local_data_base(env), release);
    match env.platform {
        Platform::Windows => extend(folder, "User Data"),
        _ => folder,
    }
}

/// The application folders of a release by their names on each platform.
fn release_app_folders(env: &Environment, windows: &str, mac: &str, elsewhere: Option<&str>) -> (r:
    Vec<String>)
    ensures
        r.deep_view() == release_apps(
            *env,
            windows@,
            mac@,
            match elsewhere {
                Some(name) => Some(name@),
                None => None,
            },
        ),
{
    let bases = local_app_bases(env);
    match env.platform {
        Platform::Windows => extend_each(&bases, windows),
        Platform::MacOs => extend_each(&bases, mac),
        _ => match elsewhere {
            Some(name) => extend_each(&bases, name),
            None => {
                let none: Vec<String> = Vec::new();
                assert(none.deep_view() =~= Seq::<Seq<char>>::empty());
                none
            },
        },
    }
}

/// The data folder of the stable release, installed locally.
pub fn local(env: &Environment) -> (r: Option<String>)
    ensures
        r.deep_view() == release_data(*env, "BraveSoftware/Brave-Browser"@),
{
    release_folder(env, "BraveSoftware/Brave-Browser")
}

/// The application folders of the stable release, installed locally.
pub fn local_apps(env: &Environment) -> (r: Vec<String>)
    ensures
        r.deep_view() == release_apps(
            *env,
            "BraveSoftware/Brave-Browser/Application"@,
            "Brave Browser.app/Contents"@,
            Some("brave.com/brave/brave-browser"@),
        ),
{
    release_app_folders(
        env,
        "BraveSoftware/Brave-Browser/Application",
        "Brave Browser.app/Contents",
        Some("brave.com/brave/brave-browser"),
    )
}

/// The data folder of the nightly release.
pub fn local_nightly(env: &Environment) -> (r: Option<String>)
    ensures
        r.deep_view() == release_data(*env, "BraveSoftware/Brave-Browser-Nightly"@),
{
    release_folder(env, "BraveSoftware/Brave-Browser-Nightly")
}

/// The data folder of the beta release.
pub fn local_beta(env: &Environment) -> (r: Option<String>)
    ensures
        r.deep_view() == release_data(*env, "BraveSoftware/Brave-Browser-Beta"@),
{
    release_folder(env, "BraveSoftware/Brave-Browser-Beta")
}

/// The application folders of the nightly release.
pub fn local_nightly_apps(env: &Environment) -> (r: Vec<String>)
    ensures
        r.deep_view() == release_apps(
            *env,
            "BraveSoftware/Brave-Browser-Nightly/Application"@,
            "Brave Browser Nightly.app/Contents"@,
            None,
        ),
{
    release_app_folders(
        env,
        "BraveSoftware/Brave-Browser-Nightly/Application",
        "Brave Browser Nightly.app/Contents",
        None,
    )
}

/// The application folders of the beta release.
pub fn local_beta_apps(env: &Environment) -> (r: Vec<String>)
    ensures
        r.deep_view() == release_apps(
            *env,
            "BraveSoftware/Brave-Browser-Beta/Application"@,
            "Brave Browser Beta.app/Contents"@,
            None,
        ),
{
    release_app_folders(
        env,
        "BraveSoftware/Brave-Browser-Beta/Application",
        "Brave Browser Beta.app/Contents",
        None,
    )
}

/// The data folder of the snap package.
pub fn snap(env: &Environment) -> (r: Option<String>)
    ensures
        r.deep_view() == extended(
            env.snap_base(),
            "brave/current/.config/BraveSoftware/Brave-Browser"@,
        ),
{
    extend(local_snap_base(env), "brave/current/.config/BraveSoftware/Brave-Browser")
}

/// The application folder of the snap package.
pub fn snap_app() -> (r: String)
    ensures
        r@ == "/snap/brave/current/opt/brave.com/brave"@,
{
    "/snap/brave/current/opt/brave.com/brave".to_owned()
}

/// The data folder of the flatpak package.
pub fn flatpak(env: &Environment) -> (r: Option<String>)
    ensures
        r.deep_view() == extended(
            env.flatpak_root(),
            "com.brave.Browser/config/BraveSoftware/Brave-Browser"@,
        ),
{
    extend(flatpak_base(env), "com.brave.Browser/config/BraveSoftware/Brave-Browser")
}

/// The application folder of the flatpak package.
pub fn flatpak_app() -> (r: String)
    ensures
        r@ == "/var/lib/flatpak/app/com.brave.Browser/current/active/files/brave"@,
{
    "/var/lib/flatpak/app/com.brave.Browser/current/active/files/brave".to_owned()
}

/// The installations of Brave to look for: the stable, beta and nightly
/// releases installed locally and, on Linux, the snap and flatpak packages.
pub fn installations(env: &Environment) -> (r: Vec<Installation>)
    ensures
        r.deep_view() == brave_installations(*env),
{
    let mut r: Vec<Installation> = Vec::new();
    r.push(
        Installation::builder(Browser::Brave).data_folder(local(env)).app_folders(
            local_apps(env),
        ).build(),
    );
    r.push(
        Installation::builder(Browser::Brave).variant(Variant::Beta).data_folder(
            local_beta(env),
        ).app_folders(local_beta_apps(env)).build(),
    );
    r.push(
        Installation::builder(Browser::Brave).variant(Variant::Nightly).data_folder(
            local_nightly(env),
        ).app_folders(local_nightly_apps(env)).build(),
    );
    match env.platform {
        Platform::Linux => {
            r.push(
                Installation::builder(Browser::Brave).installed_via(InstalledVia::Snap).data_folder(
                    snap(env),
                ).app_folder(Some(snap_app())).build(),
            );
            r.push(
                Installation::builder(Browser::Brave).installed_via(
                    InstalledVia::Flatpak,
                ).data_folder(flatpak(env)).app_folder(Some(flatpak_app())).build(),
            );
        },
        _ => {},
    }
    proof {
        let want = brave_installations(*env);
        assert(r.deep_view().len() == want.len());
        assert forall|i: int| 0 <= i < want.len() implies r.deep_view()[i] == want[i] by {
            assert(r.deep_view()[i].data_folders =~= want[i].data_folders);
            assert(r.deep_view()[i].app_folders =~= want[i].app_folders);
        }
        assert(r.deep_view() =~= want);
    }
    r
}

} // verus!
