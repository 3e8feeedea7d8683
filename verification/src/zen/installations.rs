//! The installations of Zen that the program looks for.

use crate::environment::{
    copy_of, each_extended, extend, extend_each, extended, flatpak_base, list_of, local_app_bases,
    local_snap_base, one_or_none, roaming_data_base, Environment, Platform,
};
use crate::installation::{Browser, Installation, InstallationView, InstalledVia};
use vstd::prelude::*;

verus! {

/// The data folders of a local installation.
pub open spec fn local_data(env: Environment) -> Seq<Seq<char>> {
    if env.is_desktop_os() {
        one_or_none(extended(env.roaming_base(), "zen"@)) + one_or_none(
            extended(env.data_local.deep_view(), "zen"@),
        )
    } else {
        one_or_none(extended(env.roaming_base(), ".zen"@))
    }
}

/// The application folders of a local installation.
pub open spec fn local_applications(env: Environment) -> Seq<Seq<char>> {
    match env.platform {
        Platform::Windows => one_or_none(extended(env.data_local.deep_view(), "Zen Browser"@)),
        Platform::MacOs => each_extended(env.app_bases(), "Zen Browser.app/Contents"@),
        _ => Seq::empty(),
    }
}

/// The installations of Zen that are looked for in `env`.
pub open spec fn zen_installations(env: Environment) -> Seq<InstallationView> {
    let local = seq![
        InstallationView {
            browser: Browser::Zen,
            installed_via: InstalledVia::Local,
            data_folders: local_data(env),
            app_folders: local_applications(env),
            variant: None,
        },
    ];
    if env.platform == Platform::Linux {
        local + seq![
            InstallationView {
                browser: Browser::Zen,
                installed_via: InstalledVia::Snap,
                data_folders: one_or_none(
                    extended(env.snap_base(), "0xgingi-zen-browser/common/.zen"@),
                ),
                app_folders: seq!["/snap/0xgingi-zen-browser/current/usr/lib/zen"@],
                variant: None,
            },
            InstallationView {
                browser: Browser::Zen,
                installed_via: InstalledVia::Flatpak,
                data_folders: one_or_none(
                    extended(env.flatpak_root(), "app.zen_browser.zen/.zen"@),
                ),
                app_folders: seq![
                    "/var/lib/flatpak/app/app.zen_browser.zen/current/active/files/zen"@,
                ],
                variant: None,
            },
        ]
    } else {
        local
    }
}

/// The data folders of a local installation.
pub fn local(env: &Environment) -> (r: Vec<String>)
    ensures
        r.deep_view() == local_data(*env),
{
    let roaming = roaming_data_base(env);
    match env.platform {
        Platform::MacOs | Platform::Windows => {
            let mut r = list_of(extend(roaming, "zen"));
            let mut more = list_of(extend(copy_of(&env.data_local), "zen"));
            let ghost first = r.deep_view();
            let ghost second = more.deep_view();
            r.append(&mut more);
            assert(r.deep_view() =~= first + second);
            r
        },
        _ => list_of(extend(roaming, ".zen")),
    }
}

/// The application folders of a local installation.
pub fn local_apps(env: &Environment) -> (r: Vec<String>)
    ensures
        r.deep_view() == local_applications(*env),
{
    match env.platform {
        Platform::Windows => list_of(extend(copy_of(&env.data_local), "Zen Browser")),
        Platform::MacOs => {
            let bases = local_app_bases(env);
            extend_each(&bases, "Zen Browser.app/Contents")
        },
        _ => {
            let none: Vec<String> = Vec::new();
            assert(none.deep_view() =~= Seq::<Seq<char>>::empty());
            none
        },
    }
}

/// The data folder of the snap package.
pub fn snap(env: &Environment) -> (r: Option<String>)
    ensures
        r.deep_view() == extended(env.snap_base(), "0xgingi-zen-browser/common/.zen"@),
{
    extend(local_snap_base(env), "0xgingi-zen-browser/common/.zen")
}

/// The application folder of the snap package.
pub fn snap_app() -> (r: String)
    ensures
        r@ == "/snap/0xgingi-zen-browser/current/usr/lib/zen"@,
{
    "/snap/0xgingi-zen-browser/current/usr/lib/zen".to_owned()
}

/// The data folder of the flatpak package.
pub fn flatpak(env: &Environment) -> (r: Option<String>)
    ensures
        r.deep_view() == extended(env.flatpak_root(), "app.zen_browser.zen/.zen"@),
{
    extend(flatpak_base(env), "app.zen_browser.zen/.zen")
}

/// The application folder of the flatpak package.
pub fn flatpak_app() -> (r: String)
    ensures
        r@ == "/var/lib/flatpak/app/app.zen_browser.zen/current/active/files/zen"@,
{
    "/var/lib/flatpak/app/app.zen_browser.zen/current/active/files/zen".to_owned()
}

/// The installations of Zen to look for: the local one and, on Linux, the
/// snap and flatpak packages.
pub fn installations(env: &Environment) -> (r: Vec<Installation>)
    ensures
        r.deep_view() == zen_installations(*env),
{
    let mut r: Vec<Installation> = Vec::new();
    r.push(
        Installation::builder(Browser::Zen).data_folders(local(env)).app_folders(
            local_apps(env),
        ).build(),
    );
    match env.platform {
        Platform::Linux => {
            r.push(
                Installation::builder(Browser::Zen).installed_via(InstalledVia::Snap).data_folder(
                    snap(env),
                ).app_folder(Some(snap_app())).build(),
            );
            r.push(
                Installation::builder(Browser::Zen).installed_via(
                    InstalledVia::Flatpak,
                ).data_folder(flatpak(env)).app_folder(Some(flatpak_app())).build(),
            );
        },
        _ => {},
    }
    proof {
        let want = zen_installations(*env);
        assert(r.deep_view().len() == want.len());
        assert forall|i: int| 0 <= i < want.len() implies r.deep_view()[i] == want[i] by {
            assert(r.deep_view()[i].data_folders =~= want[i].data_folders);
            assert(r.deep_view()[i].app_folders =~= want[i].app_folders);
        }
        assert(r.deep_view() =~= want);
    }
    r
}

} // verus!
