//! Where the archive of a profile goes and what it is called.

use crate::paths::{join_path, joined};
use crate::text::append;
use vstd::prelude::*;

verus! {

/// The file name of the archive of the profile `profile` made at `stamp`.
pub open spec fn archive_name(profile: Seq<char>, stamp: Seq<char>) -> Seq<char> {
    profile + "-backup-"@ + stamp + ".zip"@
}

/// The folder that the archive goes into: the parent of the profile
/// directory where it is known, the profile directory itself where not.
pub open spec fn archive_folder(profile_path: Seq<char>, parent: Option<Seq<char>>) -> Seq<char> {
    match parent {
        Some(folder) => folder,
        None => profile_path,
    }
}

/// The path of the archive for a profile.
///
/// `parent` is the parent of the profile directory once links are followed,
/// where the caller could find it; `stamp` tells one run from the next.
pub fn backup_path(profile_name: &str, profile_path: &str, parent: Option<&str>, stamp: &str) -> (r:
    String)
    ensures
        r@ == joined(
            archive_folder(
                profile_path@,
                match parent {
                    Some(folder) => Some(folder@),
                    None => None,
                },
            ),
            archive_name(profile_name@, stamp@),
        ),
{
    let with_mark = append(profile_name, "-backup-");
    let with_stamp = append(with_mark.as_str(), stamp);
    let name = append(with_stamp.as_str(), ".zip");
    let folder = match parent {
        Some(folder) => folder,
        None => profile_path,
    };
    join_path(folder, name.as_str())
}

/// The name of the copy that is kept of the file `file` before it is
/// changed: the file's name, a hyphen, the stamp, and `.bak`.
pub fn backup_file_name(file: &str, stamp: &str) -> (r: String)
    ensures
        r@ == file@ + "-"@ + stamp@ + ".bak"@,
{
    let with_hyphen = append(file, "-");
    let with_stamp = append(with_hyphen.as_str(), stamp);
    append(with_stamp.as_str(), ".bak")
}

} // verus!
