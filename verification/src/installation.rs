//! One installed copy of a browser and the folders that belong to it.

use crate::text::append;
use vstd::prelude::*;

verus! {

/// The browsers that the program knows.
#[derive(Clone, Copy, Debug, PartialEq, Eq, Structural)]
pub enum Browser {
    Brave,
    Firefox,
    Zen,
}

/// How a browser came onto the machine.
#[derive(Clone, Copy, Debug, PartialEq, Eq, Structural)]
pub enum InstalledVia {
    Local,
    Snap,
    Flatpak,
}

/// A release channel other than the stable one.
#[derive(Clone, Copy, Debug, PartialEq, Eq, Structural)]
pub enum Variant {
    Nightly,
    Beta,
}

/// The name of a browser as it is shown.
pub open spec fn browser_name(browser: Browser) -> Seq<char> {
    match browser {
        Browser::Brave => "Brave"@,
        Browser::Firefox => "Firefox"@,
        Browser::Zen => "Zen"@,
    }
}

/// The name of a way of installing as it is shown.
pub open spec fn via_name(via: InstalledVia) -> Seq<char> {
    match via {
        InstalledVia::Local => "Local"@,
        InstalledVia::Snap => "Snap"@,
        InstalledVia::Flatpak => "Flatpak"@,
    }
}

/// The name of a release channel as it is shown.
pub open spec fn variant_name(variant: Variant) -> Seq<char> {
    match variant {
        Variant::Nightly => "Nightly"@,
        Variant::Beta => "Beta"@,
    }
}

impl Browser {
    /// The name of the browser as it is shown.
    pub fn name(&self) -> (r: &'static str)
        ensures
            r@ == browser_name(*self),
    {
        match self {
            Browser::Brave => "Brave",
            Browser::Firefox => "Firefox",
            Browser::Zen => "Zen",
        }
    }
}

impl InstalledVia {
    /// The name of this way of installing as it is shown.
    pub fn name(&self) -> (r: &'static str)
        ensures
            r@ == via_name(*self),
    {
        match self {
            InstalledVia::Local => "Local",
            InstalledVia::Snap => "Snap",
            InstalledVia::Flatpak => "Flatpak",
        }
    }
}

impl Variant {
    /// The name of this release channel as it is shown.
    pub fn name(&self) -> (r: &'static str)
        ensures
            r@ == variant_name(*self),
    {
        match self {
            Variant::Nightly => "Nightly",
            Variant::Beta => "Beta",
        }
    }
}

/// What an `Installation` stands for in contracts.
pub struct InstallationView {
    pub browser: Browser,
    pub installed_via: InstalledVia,
    pub data_folders: Seq<Seq<char>>,
    pub app_folders: Seq<Seq<char>>,
    pub variant: Option<Variant>,
}

/// One installed copy of a browser.
#[derive(Debug)]
pub struct Installation {
    pub browser: Browser,
    pub installed_via: InstalledVia,
    pub data_folders: Vec<String>,
    pub app_folders: Vec<String>,
    pub variant: Option<Variant>,
}

impl DeepView for Installation {
    type V = InstallationView;

    open spec fn deep_view(&self) -> InstallationView {
        InstallationView {
            browser: self.browser,
            installed_via: self.installed_via,
            data_folders: self.data_folders.deep_view(),
            app_folders: self.app_folders.deep_view(),
            variant: self.variant,
        }
    }
}

/// The text shown for an installation: the browser, then the channel behind
/// a slash where it is not the stable one, then the way it was installed in
/// brackets where that is not the local one.
pub open spec fn label_of(installation: InstallationView) -> Seq<char> {
    browser_name(installation.browser) + (match installation.variant {
        Some(variant) => "/"@ + variant_name(variant),
        None => Seq::empty(),
    }) + (if installation.installed_via != InstalledVia::Local {
        " ("@ + via_name(installation.installed_via) + ")"@
    } else {
        Seq::empty()
    })
}

/// The paths of `paths` whose flag, at the same index, is set. A path
/// without a flag is left out.
pub open spec fn flagged(paths: Seq<Seq<char>>, present: Seq<bool>) -> Seq<Seq<char>>
    decreases paths.len(),
{
    if paths.len() == 0 {
        paths
    } else {
        let front = flagged(paths.drop_last(), present);
        let last = paths.len() - 1;
        if last < present.len() && present[last] {
            front.push(paths.last())
        } else {
            front
        }
    }
}

/// Keeps the paths whose flag is set, in their order.
pub fn keep_flagged(paths: &Vec<String>, present: &Vec<bool>) -> (kept: Vec<String>)
    ensures
        kept.deep_view() == flagged(paths.deep_view(), present@),
{
    let ghost all = paths.deep_view();
    let mut kept: Vec<String> = Vec::new();
    let mut i: usize = 0;
    assert(all.take(0) =~= Seq::<Seq<char>>::empty());
    assert(kept.deep_view() =~= flagged(all.take(0), present@));
    while i < paths.len()
        invariant
            i <= paths.len(),
            all == paths.deep_view(),
            kept.deep_view() == flagged(all.take(i as int), present@),
        decreases paths.len() - i,
    {
        proof {
            let next = all.take(i + 1);
            assert(next.drop_last() == all.take(i as int));
            assert(next.last() == all[i as int]);
        }
        if i < present.len() && present[i] {
            let ghost before = kept.deep_view();
            kept.push(paths[i].clone());
            assert(kept.deep_view() =~= before.push(all[i as int]));
        }
        i = i + 1;
    }
    assert(all.take(paths.len() as int) == all);
    kept
}

impl Installation {
    /// Starts the description of an installation of `browser`.
    pub fn builder(browser: Browser) -> (b: InstallationBuilder)
        ensures
            b.deep_view() == (BuilderView {
                browser,
                installed_via: None,
                data_folders: Seq::empty(),
                app_folders: Seq::empty(),
                variant: None,
            }),
    {
        InstallationBuilder::new(browser)
    }

    /// Whether there is anything to work on: at least one data folder.
    pub fn is_valid(&self) -> (r: bool)
        ensures
            r == (self.data_folders.len() > 0),
    {
        self.data_folders.len() > 0
    }

    /// The text shown for this installation.
    pub fn label(&self) -> (text: String)
        ensures
            text@ == label_of(self.deep_view()),
    {
        let mut text = self.browser.name().to_owned();
        match self.variant {
            Some(variant) => {
                text = append(text.as_str(), "/");
                text = append(text.as_str(), variant.name());
            },
            None => {},
        }
        match self.installed_via {
            InstalledVia::Local => {},
            via => {
                text = append(text.as_str(), " (");
                text = append(text.as_str(), via.name());
                text = append(text.as_str(), ")");
            },
        }
        assert(text@ =~= label_of(self.deep_view()));
        text
    }

    /// The same installation with only the folders that are there.
    ///
    /// `data_present[i]` says whether `data_folders[i]` exists, and
    /// `app_present[i]` whether `app_folders[i]` does.
    pub fn keep_present(self, data_present: &Vec<bool>, app_present: &Vec<bool>) -> (kept: Self)
        ensures
            kept.deep_view() == (InstallationView {
                data_folders: flagged(self.deep_view().data_folders, data_present@),
                app_folders: flagged(self.deep_view().app_folders, app_present@),
                ..self.deep_view()
            }),
    {
        let data_folders = keep_flagged(&self.data_folders, data_present);
        let app_folders = keep_flagged(&self.app_folders, app_present);
        Installation {
            browser: self.browser,
            installed_via: self.installed_via,
            data_folders,
            app_folders,
            variant: self.variant,
        }
    }
}

/// What an `InstallationBuilder` stands for in contracts.
pub struct BuilderView {
    pub browser: Browser,
    pub installed_via: Option<InstalledVia>,
    pub data_folders: Seq<Seq<char>>,
    pub app_folders: Seq<Seq<char>>,
    pub variant: Option<Variant>,
}

/// The installation that a builder in the state `b` builds.
pub open spec fn built(b: BuilderView) -> InstallationView {
    InstallationView {
        browser: b.browser,
        installed_via: match b.installed_via {
            Some(via) => via,
            None => InstalledVia::Local,
        },
        data_folders: b.data_folders,
        app_folders: b.app_folders,
        variant: b.variant,
    }
}

/// `paths` followed by the path of `extra`, where there is one.
pub open spec fn with_optional(paths: Seq<Seq<char>>, extra: Option<Seq<char>>) -> Seq<Seq<char>> {
    match extra {
        Some(p) => paths.push(p),
        None => paths,
    }
}

/// The description of an installation while it is put together.
pub struct InstallationBuilder {
    pub browser: Browser,
    pub installed_via: Option<InstalledVia>,
    pub data_folders: Vec<String>,
    pub app_folders: Vec<String>,
    pub variant: Option<Variant>,
}

impl DeepView for InstallationBuilder {
    type V = BuilderView;

    open spec fn deep_view(&self) -> BuilderView {
        BuilderView {
            browser: self.browser,
            installed_via: self.installed_via,
            data_folders: self.data_folders.deep_view(),
            app_folders: self.app_folders.deep_view(),
            variant: self.variant,
        }
    }
}

impl InstallationBuilder {
    fn new(browser: Browser) -> (b: Self)
        ensures
            b.deep_view() == (BuilderView {
                browser,
                installed_via: None,
                data_folders: Seq::empty(),
                app_folders: Seq::empty(),
                variant: None,
            }),
    {
        let b = Self {
            browser,
            installed_via: None,
            data_folders: Vec::new(),
            app_folders: Vec::new(),
            variant: None,
        };
        assert(b.data_folders.deep_view() =~= Seq::empty());
        assert(b.app_folders.deep_view() =~= Seq::empty());
        b
    }

    /// Says how the browser was installed.
    pub fn installed_via(self, installed_via: InstalledVia) -> (b: Self)
        ensures
            b.deep_view() == (BuilderView { installed_via: Some(installed_via), ..self.deep_view() }),
    {
        let mut b = self;
        b.installed_via = Some(installed_via);
        b
    }

    /// Adds a data folder, where one is given.
    pub fn data_folder(self, data_folder: Option<String>) -> (b: Self)
        ensures
            b.deep_view() == (BuilderView {
                data_folders: with_optional(
                    self.deep_view().data_folders,
                    data_folder.deep_view(),
                ),
                ..self.deep_view()
            }),
    {
        let mut b = self;
        match data_folder {
            Some(folder) => {
                b.data_folders.push(folder);
                assert(b.data_folders.deep_view() =~= self.data_folders.deep_view().push(folder@));
            },
            None => {},
        }
        b
    }

    /// Adds data folders.
    pub fn data_folders(self, data_folders: Vec<String>) -> (b: Self)
        ensures
            b.deep_view() == (BuilderView {
                data_folders: self.deep_view().data_folders + data_folders.deep_view(),
                ..self.deep_view()
            }),
    {
        let mut b = self;
        let mut extras = data_folders;
        b.data_folders.append(&mut extras);
        assert(b.data_folders.deep_view() =~= self.data_folders.deep_view()
            + data_folders.deep_view());
        b
    }

    /// Adds an application folder, where one is given.
    pub fn app_folder(self, app_folder: Option<String>) -> (b: Self)
        ensures
            b.deep_view() == (BuilderView {
                app_folders: with_optional(self.deep_view().app_folders, app_folder.deep_view()),
                ..self.deep_view()
            }),
    {
        let mut b = self;
        match app_folder {
            Some(folder) => {
                b.app_folders.push(folder);
                assert(b.app_folders.deep_view() =~= self.app_folders.deep_view().push(folder@));
            },
            None => {},
        }
        b
    }

    /// Adds application folders.
    pub fn app_folders(self, app_folders: Vec<String>) -> (b: Self)
        ensures
            b.deep_view() == (BuilderView {
                app_folders: self.deep_view().app_folders + app_folders.deep_view(),
                ..self.deep_view()
            }),
    {
        let mut b = self;
        let mut extras = app_folders;
        b.app_folders.append(&mut extras);
        assert(b.app_folders.deep_view() =~= self.app_folders.deep_view()
            + app_folders.deep_view());
        b
    }

    /// Says which release channel this is.
    pub fn variant(self, variant: Variant) -> (b: Self)
        ensures
            b.deep_view() == (BuilderView { variant: Some(variant), ..self.deep_view() }),
    {
        let mut b = self;
        b.variant = Some(variant);
        b
    }

    /// The installation as described. Where nothing was said of how it was
    /// installed, it counts as installed locally.
    pub fn build(self) -> (installation: Installation)
        ensures
            installation.deep_view() == built(self.deep_view()),
    {
        Installation {
            browser: self.browser,
            installed_via: match self.installed_via {
                Some(via) => via,
                None => InstalledVia::Local,
            },
            data_folders: self.data_folders,
            app_folders: self.app_folders,
            variant: self.variant,
        }
    }
}

} // verus!
