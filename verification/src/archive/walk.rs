//! The walk through a profile directory, one step at a time.
//!
//! A walk starts by listing the profile directory and creating the archive.
//! It then takes the entries one by one, depth first and in the order of
//! the listings: a directory is entered into the archive and then listed, a
//! file is copied. When nothing is left the archive is finalized.
//!
//! Only the opening and the finalizing can fail the backup. Whatever goes
//! wrong with a single entry costs that entry, or the directory below it,
//! and nothing else.

use crate::archive::skip::{is_skipped, skipped};
use crate::paths::{join_path, joined};
use crate::text::{join_with, joined_with};
use vstd::prelude::*;

verus! {

/// What kind of thing a directory entry is.
#[derive(Clone, Copy, Debug, PartialEq, Eq, Structural)]
pub enum EntryKind {
    File,
    Directory,
    /// Neither a file nor a directory: a socket, a device, a dangling link.
    Other,
    /// The kind could not be found out.
    Unknown,
}

/// What a `DirEntry` stands for in contracts.
pub struct EntryView {
    pub name: Seq<char>,
    pub kind: EntryKind,
}

/// One entry of a directory listing. An entry whose name could not be read
/// has the empty name.
#[derive(Debug)]
pub struct DirEntry {
    pub name: String,
    pub kind: EntryKind,
}

impl DeepView for DirEntry {
    type V = EntryView;

    open spec fn deep_view(&self) -> EntryView {
        EntryView { name: self.name@, kind: self.kind }
    }
}

/// The two kinds of entry that go into an archive.
#[derive(Clone, Copy, Debug, PartialEq, Eq, Structural)]
pub enum ItemKind {
    File,
    Directory,
}

/// What a `WalkItem` stands for in contracts.
pub struct ItemView {
    pub path: Seq<Seq<char>>,
    pub kind: ItemKind,
}

/// An entry that the walk has yet to take, or is working on: the names that
/// lead to it from the profile directory, and its kind.
#[derive(Debug)]
pub struct WalkItem {
    pub path: Vec<String>,
    pub kind: ItemKind,
}

impl DeepView for WalkItem {
    type V = ItemView;

    open spec fn deep_view(&self) -> ItemView {
        ItemView { path: self.path.deep_view(), kind: self.kind }
    }
}

/// Why a backup failed as a whole.
#[derive(Clone, Copy, Debug, PartialEq, Eq, Structural)]
pub enum BackupError {
    /// The profile directory could not be listed, or the archive not created.
    Open,
    /// The archive could not be finalized.
    Finalize,
}

/// What a `Phase` stands for in contracts.
pub enum PhaseView {
    Start,
    OpeningRoot,
    OpeningArchive,
    AddingDirectory(ItemView),
    ListingDirectory(ItemView),
    AddingFile(ItemView),
    Finalizing,
    Done,
    Failed(BackupError),
}

/// Where a walk stands.
#[derive(Debug)]
pub enum Phase {
    /// Nothing was asked for yet.
    Start,
    /// Opening: the listing of the profile directory is awaited.
    OpeningRoot,
    /// Opening: the creation of the archive is awaited.
    OpeningArchive,
    /// Walking: the entry of a directory into the archive is awaited.
    AddingDirectory(WalkItem),
    /// Walking: the listing of a directory is awaited.
    ListingDirectory(WalkItem),
    /// Walking: the copy of a file into the archive is awaited.
    AddingFile(WalkItem),
    /// The finalizing of the archive is awaited.
    Finalizing,
    /// The archive is complete.
    Done,
    /// The backup has failed.
    Failed(BackupError),
}

impl DeepView for Phase {
    type V = PhaseView;

    open spec fn deep_view(&self) -> PhaseView {
        match self {
            Phase::Start => PhaseView::Start,
            Phase::OpeningRoot => PhaseView::OpeningRoot,
            Phase::OpeningArchive => PhaseView::OpeningArchive,
            Phase::AddingDirectory(item) => PhaseView::AddingDirectory(item.deep_view()),
            Phase::ListingDirectory(item) => PhaseView::ListingDirectory(item.deep_view()),
            Phase::AddingFile(item) => PhaseView::AddingFile(item.deep_view()),
            Phase::Finalizing => PhaseView::Finalizing,
            Phase::Done => PhaseView::Done,
            Phase::Failed(e) => PhaseView::Failed(*e),
        }
    }
}

/// What a `BackupWalk` stands for in contracts.
pub struct WalkView {
    pub root: Seq<char>,
    pub destination: Seq<char>,
    pub skip: Seq<Seq<char>>,
    pub phase: PhaseView,
    pub pending: Seq<ItemView>,
}

/// The backup of one profile directory into one archive.
#[derive(Debug)]
pub struct BackupWalk {
    /// The profile directory.
    pub root: String,
    /// The path of the archive.
    pub destination: String,
    /// The name parts that keep an entry out.
    pub skip: Vec<String>,
    pub phase: Phase,
    /// The entries yet to take. The last one is taken next.
    pub pending: Vec<WalkItem>,
}

impl DeepView for BackupWalk {
    type V = WalkView;

    open spec fn deep_view(&self) -> WalkView {
        WalkView {
            root: self.root@,
            destination: self.destination@,
            skip: self.skip.deep_view(),
            phase: self.phase.deep_view(),
            pending: self.pending.deep_view(),
        }
    }
}

/// What an `WalkEvent` stands for in contracts.
pub enum EventView {
    Completed,
    Listed(Seq<EntryView>),
    Failed,
}

/// How the step that the walk asked for went.
#[derive(Debug)]
pub enum WalkEvent {
    /// It was done. For a listing, use `Listed`.
    Completed,
    /// The directory was listed, and these are its entries.
    Listed(Vec<DirEntry>),
    /// It could not be done.
    Failed,
}

impl DeepView for WalkEvent {
    type V = EventView;

    open spec fn deep_view(&self) -> EventView {
        match self {
            WalkEvent::Completed => EventView::Completed,
            WalkEvent::Listed(entries) => EventView::Listed(entries.deep_view()),
            WalkEvent::Failed => EventView::Failed,
        }
    }
}

/// What a `WalkAction` stands for in contracts.
pub enum ActionView {
    ListDirectory { path: Seq<char> },
    CreateArchive { path: Seq<char> },
    AddDirectory { name: Seq<char> },
    AddFile { name: Seq<char>, source: Seq<char> },
    Finalize,
    Finished { outcome: Result<Seq<char>, BackupError> },
}

/// What the walk asks its caller to do next.
#[derive(Debug)]
pub enum WalkAction {
    /// List the directory at `path` and answer with `Listed`.
    ListDirectory { path: String },
    /// Create the archive at `path`.
    CreateArchive { path: String },
    /// Enter the directory `name` into the archive.
    AddDirectory { name: String },
    /// Copy the file at `source` into the archive under `name`.
    AddFile { name: String, source: String },
    /// Finalize the archive.
    Finalize,
    /// Nothing more: the backup has ended, with the path of the archive or
    /// with the reason of its failure.
    Finished { outcome: Result<String, BackupError> },
}

impl DeepView for WalkAction {
    type V = ActionView;

    open spec fn deep_view(&self) -> ActionView {
        match self {
            WalkAction::ListDirectory { path } => ActionView::ListDirectory { path: path@ },
            WalkAction::CreateArchive { path } => ActionView::CreateArchive { path: path@ },
            WalkAction::AddDirectory { name } => ActionView::AddDirectory { name: name@ },
            WalkAction::AddFile { name, source } => ActionView::AddFile {
                name: name@,
                source: source@,
            },
            WalkAction::Finalize => ActionView::Finalize,
            WalkAction::Finished { outcome } => ActionView::Finished {
                outcome: match outcome {
                    Ok(path) => Ok(path@),
                    Err(e) => Err(*e),
                },
            },
        }
    }
}

/// The entry goes into the archive: it has a name, no part of the skip list
/// occurs in the name, and it is a file or a directory.
pub open spec fn wanted(entry: EntryView, skip: Seq<Seq<char>>) -> bool {
    entry.name.len() > 0 && !skipped(entry.name, skip) && (entry.kind == EntryKind::File
        || entry.kind == EntryKind::Directory)
}

/// The item for an entry of the directory at `prefix`.
pub open spec fn item_of(entry: EntryView, prefix: Seq<Seq<char>>) -> ItemView {
    ItemView {
        path: prefix.push(entry.name),
        kind: if entry.kind == EntryKind::File {
            ItemKind::File
        } else {
            ItemKind::Directory
        },
    }
}

/// The wanted entries of a listing as items, the first entry last, so that
/// it is taken first.
pub open spec fn stacked(
    entries: Seq<EntryView>,
    prefix: Seq<Seq<char>>,
    skip: Seq<Seq<char>>,
) -> Seq<ItemView>
    decreases entries.len(),
{
    if entries.len() == 0 {
        Seq::empty()
    } else if wanted(entries[0], skip) {
        stacked(entries.drop_first(), prefix, skip).push(item_of(entries[0], prefix))
    } else {
        stacked(entries.drop_first(), prefix, skip)
    }
}

/// The names of `path` with a `/` between each two.
pub open spec fn slash_joined(path: Seq<Seq<char>>) -> Seq<char> {
    joined_with(path, seq!['/'])
}

/// The walk `walk` after it took its next entry: it works on the last of
/// the pending entries, or finalizes where none is pending.
pub open spec fn advanced(walk: WalkView) -> WalkView {
    if walk.pending.len() == 0 {
        WalkView { phase: PhaseView::Finalizing, ..walk }
    } else {
        let item = walk.pending.last();
        WalkView {
            phase: if item.kind == ItemKind::File {
                PhaseView::AddingFile(item)
            } else {
                PhaseView::AddingDirectory(item)
            },
            pending: walk.pending.drop_last(),
            ..walk
        }
    }
}

/// The walk after the step that it awaited went as `event` says.
///
/// In the opening and in the finalizing, anything but success fails the
/// backup. While walking, anything but success passes over the entry at
/// hand: a directory that could not be entered is not listed, one that could
/// not be listed has no entries, a file that could not be copied is left
/// out. The first step of a walk only starts it, whatever the event.
pub open spec fn step_of(walk: WalkView, event: EventView) -> WalkView {
    match walk.phase {
        PhaseView::Start => WalkView { phase: PhaseView::OpeningRoot, ..walk },
        PhaseView::OpeningRoot => match event {
            EventView::Listed(entries) => WalkView {
                phase: PhaseView::OpeningArchive,
                pending: walk.pending + stacked(entries, Seq::empty(), walk.skip),
                ..walk
            },
            _ => WalkView { phase: PhaseView::Failed(BackupError::Open), ..walk },
        },
        PhaseView::OpeningArchive => match event {
            EventView::Completed => advanced(walk),
            _ => WalkView { phase: PhaseView::Failed(BackupError::Open), ..walk },
        },
        PhaseView::AddingDirectory(item) => match event {
            EventView::Completed => WalkView { phase: PhaseView::ListingDirectory(item), ..walk },
            _ => advanced(walk),
        },
        PhaseView::ListingDirectory(item) => match event {
            EventView::Listed(entries) => advanced(
                WalkView { pending: walk.pending + stacked(entries, item.path, walk.skip), ..walk },
            ),
            _ => advanced(walk),
        },
        PhaseView::AddingFile(_) => advanced(walk),
        PhaseView::Finalizing => match event {
            EventView::Completed => WalkView { phase: PhaseView::Done, ..walk },
            _ => WalkView { phase: PhaseView::Failed(BackupError::Finalize), ..walk },
        },
        PhaseView::Done => walk,
        PhaseView::Failed(_) => walk,
    }
}

/// What a walk in this state asks its caller to do. A walk that has not
/// started asks for nothing.
pub open spec fn awaited(walk: WalkView) -> Option<ActionView> {
    match walk.phase {
        PhaseView::Start => None,
        PhaseView::OpeningRoot => Some(ActionView::ListDirectory { path: walk.root }),
        PhaseView::OpeningArchive => Some(ActionView::CreateArchive { path: walk.destination }),
        PhaseView::AddingDirectory(item) => Some(
            ActionView::AddDirectory { name: slash_joined(item.path) },
        ),
        PhaseView::ListingDirectory(item) => Some(
            ActionView::ListDirectory { path: joined(walk.root, slash_joined(item.path)) },
        ),
        PhaseView::AddingFile(item) => Some(
            ActionView::AddFile {
                name: slash_joined(item.path),
                source: joined(walk.root, slash_joined(item.path)),
            },
        ),
        PhaseView::Finalizing => Some(ActionView::Finalize),
        PhaseView::Done => Some(ActionView::Finished { outcome: Ok(walk.destination) }),
        PhaseView::Failed(e) => Some(ActionView::Finished { outcome: Err(e) }),
    }
}

/// The names of `path` with a `/` between each two.
pub fn relative_name(path: &Vec<String>) -> (name: String)
    ensures
        name@ == slash_joined(path.deep_view()),
{
    proof {
        reveal_strlit("/");
        assert("/"@ =~= seq!['/']);
    }
    join_with(path, "/")
}

/// A copy of a list of names.
fn copy_names(names: &Vec<String>) -> (copy: Vec<String>)
    ensures
        copy.deep_view() == names.deep_view(),
{
    let mut copy: Vec<String> = Vec::new();
    let mut i: usize = 0;
    while i < names.len()
        invariant
            i <= names.len(),
            copy.len() == i,
            forall|k: int| 0 <= k < i ==> copy[k]@ == names[k]@,
        decreases names.len() - i,
    {
        copy.push(names[i].clone());
        i = i + 1;
    }
    assert(copy.deep_view() =~= names.deep_view());
    copy
}

/// Whether an entry goes into the archive.
pub fn is_wanted(entry: &DirEntry, skip: &Vec<String>) -> (r: bool)
    ensures
        r == wanted(entry.deep_view(), skip.deep_view()),
{
    if entry.name.as_str().unicode_len() == 0 {
        return false;
    }
    if is_skipped(entry.name.as_str(), skip) {
        return false;
    }
    match entry.kind {
        EntryKind::File => true,
        EntryKind::Directory => true,
        _ => false,
    }
}

/// Puts the wanted entries of a listing on the pending entries, the first
/// entry last.
fn schedule(
    pending: Vec<WalkItem>,
    entries: &Vec<DirEntry>,
    prefix: &Vec<String>,
    skip: &Vec<String>,
) -> (r: Vec<WalkItem>)
    ensures
        r.deep_view() == pending.deep_view() + stacked(
            entries.deep_view(),
            prefix.deep_view(),
            skip.deep_view(),
        ),
{
    let ghost before = pending.deep_view();
    let ghost listed = entries.deep_view();
    let ghost at = prefix.deep_view();
    let ghost parts = skip.deep_view();
    let mut r = pending;
    let mut i: usize = entries.len();
    assert(listed.skip(entries.len() as int) =~= Seq::<EntryView>::empty());
    assert(r.deep_view() =~= before + stacked(listed.skip(entries.len() as int), at, parts));
    while i > 0
        invariant
            i <= entries.len(),
            listed == entries.deep_view(),
            at == prefix.deep_view(),
            parts == skip.deep_view(),
            r.deep_view() == before + stacked(listed.skip(i as int), at, parts),
        decreases i,
    {
        i = i - 1;
        proof {
            let rest = listed.skip(i as int);
            assert(rest[0] == listed[i as int]);
            assert(rest.drop_first() == listed.skip(i + 1));
        }
        if is_wanted(&entries[i], skip) {
            let mut path = copy_names(prefix);
            path.push(entries[i].name.clone());
            assert(path.deep_view() =~= at.push(listed[i as int].name));
            let kind = match entries[i].kind {
                EntryKind::File => ItemKind::File,
                _ => ItemKind::Directory,
            };
            let ghost so_far = r.deep_view();
            r.push(WalkItem { path, kind });
            assert(r.deep_view() =~= so_far.push(item_of(listed[i as int], at)));
            assert(r.deep_view() =~= before + stacked(listed.skip(i as int), at, parts));
        }
    }
    assert(listed.skip(0) == listed);
    r
}

impl BackupWalk {
    /// A walk that has not started.
    pub fn new(root: String, destination: String, skip: Vec<String>) -> (walk: Self)
        ensures
            walk.deep_view() == (WalkView {
                root: root@,
                destination: destination@,
                skip: skip.deep_view(),
                phase: PhaseView::Start,
                pending: Seq::empty(),
            }),
    {
        let walk = BackupWalk {
            root,
            destination,
            skip,
            phase: Phase::Start,
            pending: Vec::new(),
        };
        assert(walk.pending.deep_view() =~= Seq::<ItemView>::empty());
        walk
    }

    /// Whether the walk has ended, well or badly.
    pub fn is_finished(&self) -> (r: bool)
        ensures
            r == (self.deep_view().phase is Done || self.deep_view().phase is Failed),
    {
        match self.phase {
            Phase::Done => true,
            Phase::Failed(_) => true,
            _ => false,
        }
    }

    /// The walk with the next pending entry taken.
    fn advance(self) -> (next: Self)
        ensures
            next.deep_view() == advanced(
                self.deep_view(),
            ),
    {
        let mut next = self;
        let ghost before = next.pending.deep_view();
        match next.pending.pop() {
            Some(item) => {
                assert(next.pending.deep_view() =~= before.drop_last());
                assert(item.deep_view() == before.last());
                next.phase = match item.kind {
                    ItemKind::File => Phase::AddingFile(item),
                    ItemKind::Directory => Phase::AddingDirectory(item),
                };
            },
            None => {
                next.phase = Phase::Finalizing;
            },
        }
        next
    }

    /// What the walk asks its caller to do, if it has started.
    pub fn action(&self) -> (action: Option<WalkAction>)
        ensures
            action.deep_view() == awaited(self.deep_view()),
    {
        match &self.phase {
            Phase::Start => None,
            Phase::OpeningRoot => Some(WalkAction::ListDirectory { path: self.root.clone() }),
            Phase::OpeningArchive => Some(
                WalkAction::CreateArchive { path: self.destination.clone() },
            ),
            Phase::AddingDirectory(item) => Some(
                WalkAction::AddDirectory { name: relative_name(&item.path) },
            ),
            Phase::ListingDirectory(item) => {
                let name = relative_name(&item.path);
                Some(WalkAction::ListDirectory { path: join_path(self.root.as_str(), name.as_str()) })
            },
            Phase::AddingFile(item) => {
                let name = relative_name(&item.path);
                let source = join_path(self.root.as_str(), name.as_str());
                Some(WalkAction::AddFile { name, source })
            },
            Phase::Finalizing => Some(WalkAction::Finalize),
            Phase::Done => Some(WalkAction::Finished { outcome: Ok(self.destination.clone()) }),
            Phase::Failed(e) => Some(WalkAction::Finished { outcome: Err(*e) }),
        }
    }

    /// Takes the walk one step on: `event` says how the step went that the
    /// walk had asked for.
    pub fn step(self, event: WalkEvent) -> (next: Self)
        ensures
            next.deep_view() == step_of(self.deep_view(), event.deep_view()),
    {
        let mut walk = self;
        let mut phase = Phase::Start;
        core::mem::swap(&mut walk.phase, &mut phase);
        match phase {
            Phase::Start => {
                walk.phase = Phase::OpeningRoot;
                walk
            },
            Phase::OpeningRoot => match event {
                WalkEvent::Listed(entries) => {
                    let top: Vec<String> = Vec::new();
                    assert(top.deep_view() =~= Seq::<Seq<char>>::empty());
                    let mut pending: Vec<WalkItem> = Vec::new();
                    core::mem::swap(&mut walk.pending, &mut pending);
                    walk.pending = schedule(pending, &entries, &top, &walk.skip);
                    walk.phase = Phase::OpeningArchive;
                    walk
                },
                _ => {
                    walk.phase = Phase::Failed(BackupError::Open);
                    walk
                },
            },
            Phase::OpeningArchive => match event {
                WalkEvent::Completed => {
                    walk.phase = Phase::OpeningArchive;
                    walk.advance()
                },
                _ => {
                    walk.phase = Phase::Failed(BackupError::Open);
                    walk
                },
            },
            Phase::AddingDirectory(item) => match event {
                WalkEvent::Completed => {
                    walk.phase = Phase::ListingDirectory(item);
                    walk
                },
                _ => {
                    walk.phase = Phase::AddingDirectory(item);
                    walk.advance()
                },
            },
            Phase::ListingDirectory(item) => match event {
                WalkEvent::Listed(entries) => {
                    let mut pending: Vec<WalkItem> = Vec::new();
                    core::mem::swap(&mut walk.pending, &mut pending);
                    walk.pending = schedule(pending, &entries, &item.path, &walk.skip);
                    walk.phase = Phase::ListingDirectory(item);
                    walk.advance()
                },
                _ => {
                    walk.phase = Phase::ListingDirectory(item);
                    walk.advance()
                },
            },
            Phase::AddingFile(item) => {
                walk.phase = Phase::AddingFile(item);
                walk.advance()
            },
            Phase::Finalizing => match event {
                WalkEvent::Completed => {
                    walk.phase = Phase::Done;
                    walk
                },
                _ => {
                    walk.phase = Phase::Failed(BackupError::Finalize);
                    walk
                },
            },
            Phase::Done => {
                walk.phase = Phase::Done;
                walk
            },
            Phase::Failed(e) => {
                walk.phase = Phase::Failed(e);
                walk
            },
        }
    }
}

} // verus!
