//! What a metadata store says, whichever way it was written down.

use crate::profiles::record::{RawProfileRecord, RecordView};
use vstd::prelude::*;

verus! {

/// What a `ProfileMetadata` stands for in contracts.
pub struct MetadataView {
    pub records: Seq<RecordView>,
    pub order_hint: Seq<Seq<char>>,
    pub active_hint: Seq<Seq<char>>,
}

/// The content of a metadata store: the profiles it lists, the order in
/// which it last showed them, and the profiles that were in use last.
pub struct ProfileMetadata {
    pub records: Vec<RawProfileRecord>,
    pub order_hint: Vec<String>,
    pub active_hint: Vec<String>,
}

impl DeepView for ProfileMetadata {
    type V = MetadataView;

    open spec fn deep_view(&self) -> MetadataView {
        MetadataView {
            records: self.records.deep_view(),
            order_hint: self.order_hint.deep_view(),
            active_hint: self.active_hint.deep_view(),
        }
    }
}

} // verus!
