use clenzy::archive::naming::backup_path;
use clenzy::archive::skip::load_skip_list;
use clenzy::archive::walk::{BackupError, BackupWalk, DirEntry, EntryKind, WalkAction, WalkEvent};
use clenzy::metadata::chromium::get_local_state;
use clenzy::profiles::discovery::{offer_profiles, select_profiles, try_to_get_profiles};
use clenzy::profiles::validator::DirectoryProbe;
use std::io::{Cursor, Read, Write};
use zip::write::SimpleFileOptions;
use zip::{CompressionMethod, ZipArchive, ZipWriter};

enum Fake {
    File(&'static str, Option<&'static [u8]>),
    Dir(&'static str, Option<Vec<Fake>>),
    Socket(&'static str),
}

fn name_of(node: &Fake) -> &'static str {
    match node {
        Fake::File(name, _) | Fake::Dir(name, _) | Fake::Socket(name) => name,
    }
}

fn find<'a>(nodes: &'a [Fake], path: &str) -> Option<&'a Fake> {
    let (head, rest) = match path.split_once('/') {
        Some((head, rest)) => (head, Some(rest)),
        None => (path, None),
    };
    let node = nodes.iter().find(|n| name_of(n) == head)?;
    match (rest, node) {
        (None, _) => Some(node),
        (Some(rest), Fake::Dir(_, Some(children))) => find(children, rest),
        _ => None,
    }
}

fn listing(nodes: &[Fake]) -> Vec<DirEntry> {
    nodes
        .iter()
        .map(|n| DirEntry {
            name: name_of(n).to_string(),
            kind: match n {
                Fake::File(..) => EntryKind::File,
                Fake::Dir(..) => EntryKind::Directory,
                Fake::Socket(..) => EntryKind::Other,
            },
        })
        .collect()
}

fn relative<'a>(root: &str, path: &'a str) -> &'a str {
    path.strip_prefix(root).unwrap().trim_start_matches('/')
}

fn back_up(root: &str, destination: &str, skip: Vec<String>, tree: &[Fake]) -> (Result<String, BackupError>, Vec<u8>) {
    let options = SimpleFileOptions::default().compression_method(CompressionMethod::Deflated);
    let mut zip: Option<ZipWriter<Cursor<Vec<u8>>>> = None;
    let mut bytes = Vec::new();
    let mut walk =
        BackupWalk::new(root.to_string(), destination.to_string(), skip).step(WalkEvent::Completed);
    loop {
        let event = match walk.action().unwrap() {
            WalkAction::ListDirectory { path } => {
                let rel = relative(root, &path);
                if rel.is_empty() {
                    WalkEvent::Listed(listing(tree))
                } else {
                    match find(tree, rel) {
                        Some(Fake::Dir(_, Some(children))) => WalkEvent::Listed(listing(children)),
                        _ => WalkEvent::Failed,
                    }
                }
            }
            WalkAction::CreateArchive { .. } => {
                zip = Some(ZipWriter::new(Cursor::new(Vec::new())));
                WalkEvent::Completed
            }
            WalkAction::AddDirectory { name } => {
                match zip.as_mut().unwrap().add_directory(name, options) {
                    Ok(()) => WalkEvent::Completed,
                    Err(_) => WalkEvent::Failed,
                }
            }
            WalkAction::AddFile { name, source } => match find(tree, relative(root, &source)) {
                Some(Fake::File(_, Some(content))) => {
                    let writer = zip.as_mut().unwrap();
                    writer.start_file(name, options).unwrap();
                    writer.write_all(content).unwrap();
                    WalkEvent::Completed
                }
                _ => WalkEvent::Failed,
            },
            WalkAction::Finalize => match zip.take().unwrap().finish() {
                Ok(cursor) => {
                    bytes = cursor.into_inner();
                    WalkEvent::Completed
                }
                Err(_) => WalkEvent::Failed,
            },
            WalkAction::Finished { outcome } => return (outcome, bytes),
        };
        walk = walk.step(event);
    }
}

fn names_in(bytes: &[u8]) -> Vec<String> {
    let archive = ZipArchive::new(Cursor::new(bytes.to_vec())).unwrap();
    let mut names: Vec<String> =
        archive.file_names().map(|n| n.unwrap().into_owned()).collect();
    names.sort();
    names
}

fn content_of(bytes: &[u8], name: &str) -> Vec<u8> {
    let mut archive = ZipArchive::new(Cursor::new(bytes.to_vec())).unwrap();
    let mut file = archive.by_name(name).unwrap();
    let mut content = Vec::new();
    file.read_to_end(&mut content).unwrap();
    content
}

fn sample() -> Vec<Fake> {
    vec![
        Fake::File("prefs.js", Some(b"user_pref(1);")),
        Fake::Dir(
            "cache2",
            Some(vec![Fake::File("blob", Some(b"xxxx")), Fake::Dir("entries", Some(Vec::new()))]),
        ),
        Fake::Dir(
            "extensions",
            Some(vec![
                Fake::File("a.xpi", Some(b"addon")),
                Fake::Dir("empty", Some(Vec::new())),
                Fake::Dir("startupCache", Some(vec![Fake::File("c", Some(b"c"))])),
            ]),
        ),
        Fake::Socket("lockfile"),
        Fake::File("places.sqlite", Some(b"db")),
    ]
}

#[test]
fn skipped_directory_leaves_no_entry_and_siblings_stay() {
    let skip = load_skip_list("cache2\nstartupCache\n");
    let (outcome, bytes) = back_up("/p/x", "/p/x.zip", skip, &sample());
    assert_eq!(outcome, Ok("/p/x.zip".to_string()));
    assert_eq!(
        names_in(&bytes),
        vec!["extensions/", "extensions/a.xpi", "extensions/empty/", "places.sqlite", "prefs.js"]
    );
    assert_eq!(content_of(&bytes, "extensions/a.xpi"), b"addon");
}

#[test]
fn without_a_skip_list_everything_is_archived() {
    let (outcome, bytes) = back_up("/p/x", "/p/x.zip", Vec::new(), &sample());
    assert!(outcome.is_ok());
    assert_eq!(
        names_in(&bytes),
        vec![
            "cache2/",
            "cache2/blob",
            "cache2/entries/",
            "extensions/",
            "extensions/a.xpi",
            "extensions/empty/",
            "extensions/startupCache/",
            "extensions/startupCache/c",
            "places.sqlite",
            "prefs.js",
        ]
    );
}

#[test]
fn unreadable_file_is_left_out_and_the_backup_succeeds() {
    let tree = vec![
        Fake::File("a", Some(b"1")),
        Fake::File("locked", None),
        Fake::Dir("d", Some(vec![Fake::File("secret", None), Fake::File("open", Some(b"2"))])),
        Fake::Dir("sealed", None),
        Fake::File("z", Some(b"3")),
    ];
    let (outcome, bytes) = back_up("/r", "/r.zip", Vec::new(), &tree);
    assert_eq!(outcome, Ok("/r.zip".to_string()));
    assert_eq!(names_in(&bytes), vec!["a", "d/", "d/open", "sealed/", "z"]);
    assert_eq!(content_of(&bytes, "z"), b"3");
}

#[test]
fn two_profiles_give_two_archives_of_their_own() {
    let state = get_local_state(
        r#"{"profile": {"info_cache": {"P1": {"name": "Alice"}, "P2": {"name": "Bob"}},
            "profile_order": ["Bob", "Alice"], "last_active_profiles": ["Alice"]}}"#,
    )
    .unwrap();
    let candidates = try_to_get_profiles("/data", &state).unwrap();
    let probes = vec![DirectoryProbe::Listed(5), DirectoryProbe::Listed(5)];
    let discovery = offer_profiles(candidates, &probes).unwrap();
    assert_eq!(discovery.preselected, vec![1]);
    let chosen = select_profiles(discovery.profiles, false, &vec![0, 1]);
    assert_eq!(chosen.len(), 2);
    let stamp = "202501192003";
    let mut archives = Vec::new();
    for profile in &chosen {
        let destination = backup_path(&profile.name, &profile.path, Some("/data"), stamp);
        let tree = vec![Fake::File("Preferences", Some(b"{}")), Fake::Dir("Sessions", Some(Vec::new()))];
        let (outcome, bytes) = back_up(&profile.path, &destination, Vec::new(), &tree);
        assert_eq!(outcome, Ok(destination.clone()));
        assert!(!bytes.is_empty());
        assert_eq!(names_in(&bytes), vec!["Preferences", "Sessions/"]);
        assert_eq!(content_of(&bytes, "Preferences"), b"{}");
        archives.push(destination);
    }
    assert_eq!(
        archives,
        vec!["/data/Bob-backup-202501192003.zip", "/data/Alice-backup-202501192003.zip"]
    );
    assert!(archives.iter().all(|a| a.contains(stamp)));
}
