use clenzy::args::Args;
use clenzy::brave::paths::{
    brave_flatpak_folder, brave_folder, brave_nightly_folder, brave_snap_folder,
};
use clenzy::brave::resources::replace_symbols;
use clenzy::brave::Brave;
use clenzy::browser_profile::BrowserProfile;
use clenzy::environment::{
    flatpak_base, local_app_bases, local_data_base, local_snap_base, roaming_data_base,
    Environment, Platform,
};
use clenzy::firefox::paths::{firefox_flatpak_folder, firefox_folder, firefox_snap_folder};
use clenzy::firefox::Firefox;
use clenzy::installation::{Browser, Installation, InstalledVia, Variant};
use clenzy::zen::paths::{zen_flatpak_folder, zen_folder, zen_snap_folder};
use clenzy::zen::Zen;

fn linux() -> Environment {
    Environment {
        platform: Platform::Linux,
        home: Some("/home/u".to_string()),
        data: Some("/home/u/.local/share".to_string()),
        data_local: Some("/home/u/.local/share".to_string()),
        config_local: Some("/home/u/.config".to_string()),
    }
}

fn mac() -> Environment {
    Environment {
        platform: Platform::MacOs,
        home: Some("/Users/u".to_string()),
        data: Some("/Users/u/Library/Application Support".to_string()),
        data_local: Some("/Users/u/Library/Application Support".to_string()),
        config_local: Some("/Users/u/Library/Application Support".to_string()),
    }
}

fn windows() -> Environment {
    Environment {
        platform: Platform::Windows,
        home: Some("C:\\Users\\u".to_string()),
        data: Some("C:\\Users\\u\\AppData\\Roaming".to_string()),
        data_local: Some("C:\\Users\\u\\AppData\\Local".to_string()),
        config_local: Some("C:\\Users\\u\\AppData\\Local".to_string()),
    }
}

fn homeless() -> Environment {
    Environment { platform: Platform::Linux, home: None, data: None, data_local: None, config_local: None }
}

#[test]
fn base_directories_by_platform() {
    assert_eq!(roaming_data_base(&linux()).as_deref(), Some("/home/u"));
    assert_eq!(roaming_data_base(&mac()).as_deref(), Some("/Users/u/Library/Application Support"));
    assert_eq!(local_data_base(&linux()).as_deref(), Some("/home/u/.config"));
    assert_eq!(local_data_base(&windows()).as_deref(), Some("C:\\Users\\u\\AppData\\Local"));
    assert_eq!(local_snap_base(&linux()).as_deref(), Some("/home/u/snap"));
    assert_eq!(local_snap_base(&mac()), None);
    assert_eq!(flatpak_base(&linux()).as_deref(), Some("/home/u/.var/app"));
    assert_eq!(flatpak_base(&windows()), None);
    assert_eq!(local_app_bases(&linux()), vec!["/opt"]);
    assert_eq!(local_app_bases(&mac()), vec!["/Applications", "/Users/u/Applications"]);
    assert_eq!(
        local_app_bases(&windows()),
        vec!["C:\\Program Files", "C:\\Program Files (x86)"]
    );
    assert_eq!(roaming_data_base(&homeless()), None);
}

#[test]
fn brave_folders() {
    assert_eq!(
        brave_folder(&linux()).as_deref(),
        Some("/home/u/.config/BraveSoftware/Brave-Browser")
    );
    assert_eq!(
        brave_nightly_folder(&linux()).as_deref(),
        Some("/home/u/.config/BraveSoftware/Brave-Browser-Nightly")
    );
    assert_eq!(
        brave_snap_folder(&linux()).as_deref(),
        Some("/home/u/snap/brave/509/.config/BraveSoftware/Brave-Browser")
    );
    assert_eq!(
        brave_flatpak_folder(&linux()).as_deref(),
        Some("/home/u/.var/app/com.brave.Browser/config/BraveSoftware/Brave-Browser")
    );
    assert_eq!(brave_snap_folder(&mac()), None);
    assert_eq!(brave_folder(&homeless()), None);
}

#[test]
fn firefox_folders() {
    assert_eq!(firefox_folder(&linux()).as_deref(), Some("/home/u/.mozilla/firefox"));
    assert_eq!(
        firefox_folder(&mac()).as_deref(),
        Some("/Users/u/Library/Application Support/Firefox")
    );
    assert_eq!(
        firefox_folder(&windows()).as_deref(),
        Some("C:\\Users\\u\\AppData\\Roaming/Mozilla/Firefox")
    );
    assert_eq!(
        firefox_snap_folder(&linux()).as_deref(),
        Some("/home/u/snap/firefox/common/.mozilla/firefox")
    );
    assert_eq!(
        firefox_flatpak_folder(&linux()).as_deref(),
        Some("/home/u/.var/app/org.mozilla.firefox/.mozilla/firefox")
    );
}

#[test]
fn zen_folders() {
    assert_eq!(zen_folder(&linux()).as_deref(), Some("/home/u/.zen"));
    assert_eq!(zen_folder(&mac()).as_deref(), Some("/Users/u/Library/Application Support/zen"));
    assert_eq!(
        zen_snap_folder(&linux()).as_deref(),
        Some("/home/u/snap/0xgingi-zen-browser/common/.zen")
    );
    assert_eq!(
        zen_flatpak_folder(&linux()).as_deref(),
        Some("/home/u/.var/app/app.zen_browser/.zen")
    );
}

#[test]
fn brave_installations_on_linux() {
    let found = Brave::installations(&linux());
    assert_eq!(found.len(), 5);
    assert_eq!(found[0].data_folders, vec!["/home/u/.config/BraveSoftware/Brave-Browser"]);
    assert_eq!(found[0].app_folders, vec!["/opt/brave.com/brave/brave-browser"]);
    assert_eq!(found[0].variant, None);
    assert_eq!(found[1].variant, Some(Variant::Beta));
    assert_eq!(found[1].data_folders, vec!["/home/u/.config/BraveSoftware/Brave-Browser-Beta"]);
    assert!(found[1].app_folders.is_empty());
    assert_eq!(found[2].variant, Some(Variant::Nightly));
    assert_eq!(found[3].installed_via, InstalledVia::Snap);
    assert_eq!(
        found[3].data_folders,
        vec!["/home/u/snap/brave/current/.config/BraveSoftware/Brave-Browser"]
    );
    assert_eq!(found[3].app_folders, vec!["/snap/brave/current/opt/brave.com/brave"]);
    assert_eq!(found[4].installed_via, InstalledVia::Flatpak);
    assert_eq!(
        found[4].app_folders,
        vec!["/var/lib/flatpak/app/com.brave.Browser/current/active/files/brave"]
    );
    assert!(found.iter().all(|i| i.browser == Browser::Brave));
}

#[test]
fn brave_installations_on_windows() {
    let found = Brave::installations(&windows());
    assert_eq!(found.len(), 3);
    assert_eq!(
        found[0].data_folders,
        vec!["C:\\Users\\u\\AppData\\Local/BraveSoftware/Brave-Browser/User Data"]
    );
    assert_eq!(
        found[2].app_folders,
        vec![
            "C:\\Program Files/BraveSoftware/Brave-Browser-Nightly/Application",
            "C:\\Program Files (x86)/BraveSoftware/Brave-Browser-Nightly/Application",
        ]
    );
}

#[test]
fn firefox_installations_by_platform() {
    let found = Firefox::installations(&linux());
    assert_eq!(found.len(), 3);
    assert_eq!(found[0].data_folders, vec!["/home/u/.mozilla/firefox"]);
    assert_eq!(found[0].app_folders, vec!["/opt/firefox", "/home/u/firefox"]);
    assert_eq!(found[1].app_folders, vec!["/snap/firefox/current/usr/lib/firefox"]);
    let found = Firefox::installations(&mac());
    assert_eq!(found.len(), 1);
    assert_eq!(
        found[0].data_folders,
        vec![
            "/Users/u/Library/Application Support/Firefox",
            "/Users/u/Library/Application Support/Mozilla/Firefox",
        ]
    );
    assert_eq!(found[0].app_folders.len(), 8);
    assert_eq!(found[0].app_folders[0], "/Applications/Firefox.app/Contents");
    assert_eq!(found[0].app_folders[7], "/Users/u/Applications/Firefox Nightly.app/Contents");
    let found = Firefox::installations(&windows());
    assert_eq!(found[0].data_folders.len(), 3);
    assert_eq!(found[0].app_folders.len(), 12);
    assert_eq!(found[0].app_folders[11], "C:\\Users\\u\\AppData\\Local/Firefox Nightly");
}

#[test]
fn zen_installations_by_platform() {
    let found = Zen::installations(&linux());
    assert_eq!(found.len(), 3);
    assert_eq!(found[0].data_folders, vec!["/home/u/.zen"]);
    assert!(found[0].app_folders.is_empty());
    assert_eq!(
        found[2].data_folders,
        vec!["/home/u/.var/app/app.zen_browser.zen/.zen"]
    );
    let found = Zen::installations(&windows());
    assert_eq!(found.len(), 1);
    assert_eq!(found[0].app_folders, vec!["C:\\Users\\u\\AppData\\Local/Zen Browser"]);
    let found = Zen::installations(&homeless());
    assert!(!found[0].is_valid());
}

#[test]
fn builder_collects_what_it_is_given() {
    let installation = Installation::builder(Browser::Zen)
        .installed_via(InstalledVia::Flatpak)
        .variant(Variant::Nightly)
        .data_folder(Some("/a".to_string()))
        .data_folder(None)
        .data_folders(vec!["/b".to_string(), "/c".to_string()])
        .app_folder(Some("/x".to_string()))
        .app_folders(vec!["/y".to_string()])
        .build();
    assert_eq!(installation.browser, Browser::Zen);
    assert_eq!(installation.installed_via, InstalledVia::Flatpak);
    assert_eq!(installation.variant, Some(Variant::Nightly));
    assert_eq!(installation.data_folders, vec!["/a", "/b", "/c"]);
    assert_eq!(installation.app_folders, vec!["/x", "/y"]);
    assert!(installation.is_valid());
    let bare = Installation::builder(Browser::Brave).build();
    assert_eq!(bare.installed_via, InstalledVia::Local);
    assert!(!bare.is_valid());
}

#[test]
fn only_present_folders_are_kept() {
    let installation = Installation::builder(Browser::Firefox)
        .data_folders(vec!["/a".to_string(), "/b".to_string(), "/c".to_string()])
        .app_folders(vec!["/x".to_string(), "/y".to_string()])
        .build()
        .keep_present(&vec![false, true, true], &vec![true]);
    assert_eq!(installation.data_folders, vec!["/b", "/c"]);
    assert_eq!(installation.app_folders, vec!["/x"]);
}

#[test]
fn installation_labels() {
    let plain = Installation::builder(Browser::Firefox).build();
    assert_eq!(plain.label(), "Firefox");
    let nightly = Installation::builder(Browser::Brave).variant(Variant::Nightly).build();
    assert_eq!(nightly.label(), "Brave/Nightly");
    let snap = Installation::builder(Browser::Zen).installed_via(InstalledVia::Snap).build();
    assert_eq!(snap.label(), "Zen (Snap)");
    let both = Installation::builder(Browser::Brave)
        .variant(Variant::Beta)
        .installed_via(InstalledVia::Flatpak)
        .build();
    assert_eq!(both.label(), "Brave/Beta (Flatpak)");
}

#[test]
fn browser_names() {
    assert_eq!(Brave::name(), "Brave");
    assert_eq!(Firefox::name(), "Firefox");
    assert_eq!(Zen::name(), "Zen");
    assert_eq!(Brave::browser(), Browser::Brave);
    assert_eq!(InstalledVia::Local.name(), "Local");
    assert_eq!(Variant::Beta.name(), "Beta");
}

#[test]
fn symbols_are_written_as_brave_writes_them() {
    assert_eq!(replace_symbols("a>b"), "a\\u003Cb");
    assert_eq!(replace_symbols(">>"), "\\u003C\\u003C");
    assert_eq!(replace_symbols("plain<x"), "plain<x");
    assert_eq!(replace_symbols(""), "");
}

#[test]
fn profile_label_is_its_name() {
    let profile = BrowserProfile::new("Work".to_string(), "/p/w".to_string());
    assert_eq!(profile.label(), "Work");
    let copy = profile.duplicate();
    assert_eq!(copy.name, "Work");
    assert_eq!(copy.path, "/p/w");
}

#[test]
fn verbosity_is_raised_for_debugging_and_capped() {
    let mut args = Args::default();
    assert_eq!(args.verbosity(false), 0);
    assert_eq!(args.verbosity(true), 2);
    args.verbose = 1;
    assert_eq!(args.verbosity(false), 1);
    args.verbose = 3;
    assert_eq!(args.verbosity(true), 3);
    assert!(!args.verbosity_too_high());
    args.verbose = 9;
    assert_eq!(args.verbosity(false), 3);
    assert!(args.verbosity_too_high());
}

#[test]
fn default_args_switch_everything_off() {
    let args = Args::default();
    assert_eq!(args.verbose, 0);
    assert!(!args.auto_confirm && !args.backup && !args.policies);
    assert!(!args.vertical_tabs && !args.search_suggestions && !args.windows_brave_policies);
}
