//! The installations of Firefox that the program looks for.
//!
//! The release channels are not told apart: they share their profiles.

use crate::environment::{
    copy_of, each_extended, extend, extend_each, extended, flatpak_base, list_of, local_app_bases,
    local_snap_base, one_or_none, roaming_data_base, Environment, Platform,
};
use crate::installation::{Browser, Installation, InstallationView, InstalledVia};
use crate::paths::{join_path, joined};
use vstd::prelude::*;

verus! {

/// Each of `names` appended to `base`.
pub open spec fn each_named(base: Seq<char>, names: Seq<Seq<char>>) -> Seq<Seq<char>> {
    Seq::new(names.len(), |i: int| joined(base, names[i]))
}

/// Each of `names` appended to each of `bases`, base by base.
pub open spec fn crossed(bases: Seq<Seq<char>>, names: Seq<Seq<char>>) -> Seq<Seq<char>>
    decreases bases.len(),
{
    if bases.len() == 0 {
        bases
    } else {
        crossed(bases.drop_last(), names) + each_named(bases.last(), names)
    }
}

/// The names under which Firefox is installed on Windows.
pub open spec fn windows_names() -> Seq<Seq<char>> {
    seq!["Firefox"@, "Mozilla Firefox"@, "Firefox Developer Edition"@, "Firefox Nightly"@]
}

/// The names under which Firefox is installed on macOS.
pub open spec fn mac_names() -> Seq<Seq<char>> {
    seq![
        "Firefox.app"@,
        "Mozilla Firefox.app"@,
        "Firefox Developer Edition.app"@,
        "Firefox Nightly.app"@,
    ]
}

/// The data folders of a local installation.
pub open spec fn local_data(env: Environment) -> Seq<Seq<char>> {
    match env.platform {
        Platform::MacOs => one_or_none(extended(env.roaming_base(), "Firefox"@)) + one_or_none(
            extended(env.data_local.deep_view(), "Mozilla/Firefox"@),
        ),
        Platform::Windows => one_or_none(extended(env.roaming_base(), "Mozilla/Firefox"@)) + seq![
            "C:\\Program Files\\Mozilla Firefox"@,
            "C:\\Program Files (x86)\\Mozilla Firefox"@,
        ],
        _ => one_or_none(extended(env.roaming_base(), ".mozilla/firefox"@)),
    }
}

/// The application folders of a local installation.
pub open spec fn local_applications(env: Environment) -> Seq<Seq<char>> {
    match env.platform {
        Platform::Windows => crossed(
            env.app_bases() + one_or_none(env.data_local.deep_view()),
            windows_names(),
        ),
        Platform::MacOs => each_extended(crossed(env.app_bases(), mac_names()), "Contents"@),
        _ => each_extended(env.app_bases(), "firefox"@) + one_or_none(
            extended(env.home.deep_view(), "firefox"@),
        ),
    }
}

/// The installations of Firefox that are looked for in `env`.
pub open spec fn firefox_installations(env: Environment) -> Seq<InstallationView> {
    let local = seq![
        InstallationView {
            browser: Browser::Firefox,
            installed_via: InstalledVia::Local,
            data_folders: local_data(env),
            app_folders: local_applications(env),
            variant: None,
        },
    ];
    if env.platform == Platform::Linux {
        local + seq![
            InstallationView {
                browser: Browser::Firefox,
                installed_via: InstalledVia::Snap,
                data_folders: one_or_none(
                    extended(env.snap_base(), "firefox/common/.mozilla/firefox"@),
                ),
                app_folders: seq!["/snap/firefox/current/usr/lib/firefox"@],
                variant: None,
            },
            InstallationView {
                browser: Browser::Firefox,
                installed_via: InstalledVia::Flatpak,
                data_folders: one_or_none(
                    extended(env.flatpak_root(), "org.mozilla.firefox/.mozilla/firefox"@),
                ),
                app_folders: seq![
                    "/var/lib/flatpak/app/org.mozilla.firefox/current/active/files/lib/firefox"@,
                ],
                variant: None,
            },
        ]
    } else {
        local
    }
}

/// Each of `names` appended to each of `bases`, base by base.
pub fn cross(bases: &Vec<String>, names: &Vec<String>) -> (r: Vec<String>)
    ensures
        r.deep_view() == crossed(bases.deep_view(), names.deep_view()),
{
    let ghost all = bases.deep_view();
    let ghost parts = names.deep_view();
    let mut r: Vec<String> = Vec::new();
    let mut i: usize = 0;
    assert(all.take(0) =~= Seq::<Seq<char>>::empty());
    assert(r.deep_view() =~= crossed(all.take(0), parts));
    while i < bases.len()
        invariant
            i <= bases.len(),
            all == bases.deep_view(),
            parts == names.deep_view(),
            r.deep_view() == crossed(all.take(i as int), parts),
        decreases bases.len() - i,
    {
        proof {
            let next = all.take(i + 1);
            assert(next.drop_last() == all.take(i as int));
            assert(next.last() == all[i as int]);
        }
        let ghost before = r.deep_view();
        let mut k: usize = 0;
        while k < names.len()
            invariant
                k <= names.len(),
                i < bases.len(),
                all == bases.deep_view(),
                parts == names.deep_view(),
                r.deep_view() == before + each_named(all[i as int], parts).take(k as int),
            decreases names.len() - k,
        {
            let ghost so_far = r.deep_view();
            r.push(join_path(bases[i].as_str(), names[k].as_str()));
            assert(r.deep_view() =~= so_far.push(joined(all[i as int], parts[k as int])));
            assert(each_named(all[i as int], parts).take(k + 1) =~= each_named(
                all[i as int],
                parts,
            ).take(k as int).push(joined(all[i as int], parts[k as int])));
            k = k + 1;
        }
        assert(each_named(all[i as int], parts).take(names.len() as int) =~= each_named(
            all[i as int],
            parts,
        ));
        i = i + 1;
    }
    assert(all.take(bases.len() as int) == all);
    r
}

/// The data folders of a local installation.
pub fn local(env: &Environment) -> (r: Vec<String>)
    ensures
        r.deep_view() == local_data(*env),
{
    let roaming = roaming_data_base(env);
    match env.platform {
        Platform::MacOs => {
            let mut r = list_of(extend(roaming, "Firefox"));
            let mut more = list_of(extend(copy_of(&env.data_local), "Mozilla/Firefox"));
            let ghost first = r.deep_view();
            let ghost second = more.deep_view();
            r.append(&mut more);
            assert(r.deep_view() =~= first + second);
            r
        },
        Platform::Windows => {
            let mut r = list_of(extend(roaming, "Mozilla/Firefox"));
            let ghost first = r.deep_view();
            r.push("C:\\Program Files\\Mozilla Firefox".to_owned());
            r.push("C:\\Program Files (x86)\\Mozilla Firefox".to_owned());
            assert(r.deep_view() =~= first + seq![
                "C:\\Program Files\\Mozilla Firefox"@,
                "C:\\Program Files (x86)\\Mozilla Firefox"@,
            ]);
            r
        },
        _ => list_of(extend(roaming, ".mozilla/firefox")),
    }
}

/// The application folders of a local installation.
pub fn local_apps(env: &Environment) -> (r: Vec<String>)
    ensures
        r.deep_view() == local_applications(*env),
{
    let mut bases = local_app_bases(env);
    let ghost app_bases = bases.deep_view();
    match env.platform {
        Platform::Windows => {
            let mut more = list_of(copy_of(&env.data_local));
            let ghost second = more.deep_view();
            bases.append(&mut more);
            assert(bases.deep_view() =~= app_bases + second);
            let mut names: Vec<String> = Vec::new();
            names.push("Firefox".to_owned());
            names.push("Mozilla Firefox".to_owned());
            names.push("Firefox Developer Edition".to_owned());
            names.push("Firefox Nightly".to_owned());
            assert(names.deep_view() =~= windows_names());
            cross(&bases, &names)
        },
        Platform::MacOs => {
            let mut names: Vec<String> = Vec::new();
            names.push("Firefox.app".to_owned());
            names.push("Mozilla Firefox.app".to_owned());
            names.push("Firefox Developer Edition.app".to_owned());
            names.push("Firefox Nightly.app".to_owned());
            assert(names.deep_view() =~= mac_names());
            let bundles = cross(&bases, &names);
            extend_each(&bundles, "Contents")
        },
        _ => {
            let mut r = extend_each(&bases, "firefox");
            let mut more = list_of(extend(copy_of(&env.home), "firefox"));
            let ghost first = r.deep_view();
            let ghost second = more.deep_view();
            r.append(&mut more);
            assert(r.deep_view() =~= first + second);
            r
        },
    }
}

/// The data folder of the snap package.
pub fn snap(env: &Environment) -> (r: Option<String>)
    ensures
        r.deep_view() == extended(env.snap_base(), "firefox/common/.mozilla/firefox"@),
{
    extend(local_snap_base(env), "firefox/common/.mozilla/firefox")
}

/// The application folder of the snap package.
pub fn snap_app() -> (r: String)
    ensures
        r@ == "/snap/firefox/current/usr/lib/firefox"@,
{
    "/snap/firefox/current/usr/lib/firefox".to_owned()
}

/// The data folder of the flatpak package.
pub fn flatpak(env: &Environment) -> (r: Option<String>)
    ensures
        r.deep_view() == extended(env.flatpak_root(), "org.mozilla.firefox/.mozilla/firefox"@),
{
    extend(flatpak_base(env), "org.mozilla.firefox/.mozilla/firefox")
}

/// The application folder of the flatpak package.
pub fn flatpak_app() -> (r: String)
    ensures
        r@ == "/var/lib/flatpak/app/org.mozilla.firefox/current/active/files/lib/firefox"@,
{
    "/var/lib/flatpak/app/org.mozilla.firefox/current/active/files/lib/firefox".to_owned()
}

/// The installations of Firefox to look for: the local one and, on Linux,
/// the snap and flatpak packages.
pub fn installations(env: &Environment) -> (r: Vec<Installation>)
    ensures
        r.deep_view() == firefox_installations(*env),
{
    let mut r: Vec<Installation> = Vec::new();
    r.push(
        Installation::builder(Browser::Firefox).data_folders(local(env)).app_folders(
            local_apps(env),
        ).build(),
    );
    match env.platform {
        Platform::Linux => {
            r.push(
                Installation::builder(Browser::Firefox).installed_via(
                    InstalledVia::Snap,
                ).data_folder(snap(env)).app_folder(Some(snap_app())).build(),
            );
            r.push(
                Installation::builder(Browser::Firefox).installed_via(
                    InstalledVia::Flatpak,
                ).data_folder(flatpak(env)).app_folder(Some(flatpak_app())).build(),
            );
        },
        _ => {},
    }
    proof {
        let want = firefox_installations(*env);
        assert(r.deep_view().len() == want.len());
        assert forall|i: int| 0 <= i < want.len() implies r.deep_view()[i] == want[i] by {
            assert(r.deep_view()[i].data_folders =~= want[i].data_folders);
            assert(r.deep_view()[i].app_folders =~= want[i].app_folders);
        }
        assert(r.deep_view() =~= want);
    }
    r
}

} // verus!
