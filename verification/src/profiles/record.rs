//! Raw profile records as the metadata parsers produce them.

use vstd::prelude::*;

verus! {

/// What a `RawProfileRecord` stands for in contracts.
pub struct RecordView {
    pub name: Seq<char>,
    pub relative_path: Seq<char>,
    pub is_default: bool,
}

/// One profile as a metadata store lists it, before any path is resolved.
#[derive(Debug)]
pub struct RawProfileRecord {
    pub name: String,
    pub relative_path: String,
    pub is_default: bool,
}

impl DeepView for RawProfileRecord {
    type V = RecordView;

    open spec fn deep_view(&self) -> RecordView {
        RecordView {
            name: self.name@,
            relative_path: self.relative_path@,
            is_default: self.is_default,
        }
    }
}

impl RawProfileRecord {
    pub fn new(name: String, relative_path: String, is_default: bool) -> (record: Self)
        ensures
            record.name == name,
            record.relative_path == relative_path,
            record.is_default == is_default,
    {
        Self { name, relative_path, is_default }
    }
}

/// Why no list of profiles could be produced.
#[derive(Clone, Copy, Debug, PartialEq, Eq, Structural)]
pub enum DiscoveryError {
    /// The metadata store could not be decoded as the container it should be.
    Parse,
    /// The store was decoded, but a key that must be there is absent.
    MissingKey,
    /// The store was read, and no usable profile was left at the end.
    NoProfilesFound,
}

} // verus!
