use clenzy::archive::naming::{backup_file_name, backup_path};
use clenzy::archive::skip::{is_skipped, load_skip_list};
use clenzy::archive::walk::{
    is_wanted, relative_name, BackupError, BackupWalk, DirEntry, EntryKind, Phase, WalkAction,
    WalkEvent,
};

fn entry(name: &str, kind: EntryKind) -> DirEntry {
    DirEntry { name: name.to_string(), kind }
}

fn skip(parts: &[&str]) -> Vec<String> {
    parts.iter().map(|p| p.to_string()).collect()
}

fn fresh(parts: &[&str]) -> BackupWalk {
    BackupWalk::new("/p/prof".to_string(), "/p/prof-backup-1.zip".to_string(), skip(parts))
}

fn opened(parts: &[&str], listing: Vec<DirEntry>) -> BackupWalk {
    fresh(parts).step(WalkEvent::Completed).step(WalkEvent::Listed(listing)).step(WalkEvent::Completed)
}

#[test]
fn skip_list_is_one_part_per_line() {
    let parts = load_skip_list("cache2\n\nstorage\r\n\n  \nthumbnails");
    assert_eq!(parts, vec!["cache2", "storage", "  ", "thumbnails"]);
    assert!(load_skip_list("").is_empty());
    assert!(load_skip_list("\n\n").is_empty());
}

#[test]
fn name_is_skipped_when_a_part_occurs_in_it() {
    let parts = skip(&["cache", "lock"]);
    assert!(is_skipped("cache2", &parts));
    assert!(is_skipped("my-cache", &parts));
    assert!(is_skipped("parent.lock", &parts));
    assert!(!is_skipped("startupCache", &parts));
    assert!(!is_skipped("cach", &parts));
    assert!(!is_skipped("prefs.js", &parts));
    assert!(!is_skipped("anything", &Vec::new()));
}

#[test]
fn wanted_entries_are_named_unskipped_files_and_directories() {
    let parts = skip(&["tmp"]);
    assert!(is_wanted(&entry("a", EntryKind::File), &parts));
    assert!(is_wanted(&entry("a", EntryKind::Directory), &parts));
    assert!(!is_wanted(&entry("a", EntryKind::Other), &parts));
    assert!(!is_wanted(&entry("a", EntryKind::Unknown), &parts));
    assert!(!is_wanted(&entry("", EntryKind::File), &parts));
    assert!(!is_wanted(&entry("x.tmp", EntryKind::File), &parts));
}

#[test]
fn archive_is_named_after_profile_and_stamp() {
    assert_eq!(
        backup_path("Alice", "/data/prof", Some("/data"), "202501192003"),
        "/data/Alice-backup-202501192003.zip"
    );
    assert_eq!(
        backup_path("default.release", "/data/prof", None, "202501192003"),
        "/data/prof/default.release-backup-202501192003.zip"
    );
}

#[test]
fn copy_is_named_after_file_and_stamp() {
    assert_eq!(backup_file_name("Preferences", "202501192003"), "Preferences-202501192003.bak");
}

#[test]
fn relative_name_puts_slashes_between_names() {
    assert_eq!(relative_name(&skip(&["a", "b", "c.txt"])), "a/b/c.txt");
    assert_eq!(relative_name(&skip(&["one"])), "one");
    assert_eq!(relative_name(&Vec::new()), "");
}

#[test]
fn walk_starts_by_listing_the_profile_directory() {
    let walk = fresh(&[]);
    assert!(walk.action().is_none());
    let walk = walk.step(WalkEvent::Failed);
    assert!(matches!(walk.phase, Phase::OpeningRoot));
    match walk.action() {
        Some(WalkAction::ListDirectory { path }) => assert_eq!(path, "/p/prof"),
        other => panic!("{other:?}"),
    }
}

#[test]
fn archive_is_created_after_the_listing() {
    let walk = fresh(&[]).step(WalkEvent::Completed).step(WalkEvent::Listed(Vec::new()));
    match walk.action() {
        Some(WalkAction::CreateArchive { path }) => assert_eq!(path, "/p/prof-backup-1.zip"),
        other => panic!("{other:?}"),
    }
}

#[test]
fn unlistable_profile_directory_fails_the_backup() {
    let walk = fresh(&[]).step(WalkEvent::Completed).step(WalkEvent::Failed);
    assert!(walk.is_finished());
    match walk.action() {
        Some(WalkAction::Finished { outcome }) => assert_eq!(outcome, Err(BackupError::Open)),
        other => panic!("{other:?}"),
    }
}

#[test]
fn archive_that_cannot_be_created_fails_the_backup() {
    let walk = fresh(&[])
        .step(WalkEvent::Completed)
        .step(WalkEvent::Listed(vec![entry("a", EntryKind::File)]))
        .step(WalkEvent::Failed);
    match walk.action() {
        Some(WalkAction::Finished { outcome }) => assert_eq!(outcome, Err(BackupError::Open)),
        other => panic!("{other:?}"),
    }
}

#[test]
fn empty_profile_is_finalized_at_once() {
    let walk = opened(&[], Vec::new());
    assert!(matches!(walk.action(), Some(WalkAction::Finalize)));
    let walk = walk.step(WalkEvent::Completed);
    match walk.action() {
        Some(WalkAction::Finished { outcome }) => {
            assert_eq!(outcome, Ok("/p/prof-backup-1.zip".to_string()))
        }
        other => panic!("{other:?}"),
    }
}

#[test]
fn archive_that_cannot_be_finalized_fails_the_backup() {
    let walk = opened(&[], Vec::new()).step(WalkEvent::Failed);
    match walk.action() {
        Some(WalkAction::Finished { outcome }) => assert_eq!(outcome, Err(BackupError::Finalize)),
        other => panic!("{other:?}"),
    }
}

#[test]
fn entries_are_taken_in_the_order_of_the_listing() {
    let listing = vec![entry("b.txt", EntryKind::File), entry("a.txt", EntryKind::File)];
    let walk = opened(&[], listing);
    match walk.action() {
        Some(WalkAction::AddFile { name, source }) => {
            assert_eq!(name, "b.txt");
            assert_eq!(source, "/p/prof/b.txt");
        }
        other => panic!("{other:?}"),
    }
    let walk = walk.step(WalkEvent::Completed);
    match walk.action() {
        Some(WalkAction::AddFile { name, .. }) => assert_eq!(name, "a.txt"),
        other => panic!("{other:?}"),
    }
    let walk = walk.step(WalkEvent::Completed);
    assert!(matches!(walk.action(), Some(WalkAction::Finalize)));
}

#[test]
fn directory_is_entered_then_listed_then_walked() {
    let walk = opened(&[], vec![entry("d", EntryKind::Directory), entry("z", EntryKind::File)]);
    match walk.action() {
        Some(WalkAction::AddDirectory { name }) => assert_eq!(name, "d"),
        other => panic!("{other:?}"),
    }
    let walk = walk.step(WalkEvent::Completed);
    match walk.action() {
        Some(WalkAction::ListDirectory { path }) => assert_eq!(path, "/p/prof/d"),
        other => panic!("{other:?}"),
    }
    let walk = walk.step(WalkEvent::Listed(vec![entry("inner", EntryKind::File)]));
    match walk.action() {
        Some(WalkAction::AddFile { name, source }) => {
            assert_eq!(name, "d/inner");
            assert_eq!(source, "/p/prof/d/inner");
        }
        other => panic!("{other:?}"),
    }
    let walk = walk.step(WalkEvent::Completed);
    match walk.action() {
        Some(WalkAction::AddFile { name, .. }) => assert_eq!(name, "z"),
        other => panic!("{other:?}"),
    }
}

#[test]
fn directory_that_cannot_be_entered_is_not_listed() {
    let walk = opened(&[], vec![entry("d", EntryKind::Directory), entry("z", EntryKind::File)]);
    let walk = walk.step(WalkEvent::Failed);
    match walk.action() {
        Some(WalkAction::AddFile { name, .. }) => assert_eq!(name, "z"),
        other => panic!("{other:?}"),
    }
}

#[test]
fn directory_that_cannot_be_listed_costs_only_itself() {
    let walk = opened(&[], vec![entry("d", EntryKind::Directory), entry("z", EntryKind::File)]);
    let walk = walk.step(WalkEvent::Completed).step(WalkEvent::Failed);
    match walk.action() {
        Some(WalkAction::AddFile { name, .. }) => assert_eq!(name, "z"),
        other => panic!("{other:?}"),
    }
}

#[test]
fn file_that_cannot_be_copied_costs_only_itself() {
    let listing = vec![entry("bad", EntryKind::File), entry("good", EntryKind::File)];
    let walk = opened(&[], listing).step(WalkEvent::Failed);
    match walk.action() {
        Some(WalkAction::AddFile { name, .. }) => assert_eq!(name, "good"),
        other => panic!("{other:?}"),
    }
    let walk = walk.step(WalkEvent::Completed).step(WalkEvent::Completed);
    assert!(matches!(walk.phase, Phase::Done));
}

#[test]
fn skipped_and_odd_entries_are_never_asked_for() {
    let listing = vec![
        entry("cache2", EntryKind::Directory),
        entry("sock", EntryKind::Other),
        entry("", EntryKind::File),
        entry("gone", EntryKind::Unknown),
        entry("keep", EntryKind::File),
    ];
    let walk = opened(&["cache"], listing);
    assert_eq!(walk.pending.len(), 0);
    match walk.action() {
        Some(WalkAction::AddFile { name, .. }) => assert_eq!(name, "keep"),
        other => panic!("{other:?}"),
    }
}

#[test]
fn finished_walk_stays_finished() {
    let walk = opened(&[], Vec::new()).step(WalkEvent::Completed);
    let walk = walk.step(WalkEvent::Failed).step(WalkEvent::Listed(Vec::new()));
    assert!(matches!(walk.phase, Phase::Done));
    let failed = fresh(&[]).step(WalkEvent::Completed).step(WalkEvent::Failed);
    let failed = failed.step(WalkEvent::Completed);
    assert!(matches!(failed.phase, Phase::Failed(BackupError::Open)));
}
