//! The metadata store of Chromium-family browsers: one JSON object.
//!
//! Its member `profile` holds `info_cache`, an object with one member per
//! profile folder, and may hold `profile_order` and `last_active_profiles`,
//! two arrays of profile names.

use crate::json::tree::{find_member, json_document, member_of, parse_json, Json, JsonEntry};
use crate::metadata::store::{MetadataView, ProfileMetadata};
use crate::profiles::record::{DiscoveryError, RawProfileRecord, RecordView};
use vstd::prelude::*;

verus! {

/// The strings among `items`, in order.
pub open spec fn texts_of(items: Seq<Json>) -> Seq<Seq<char>>
    decreases items.len(),
{
    if items.len() == 0 {
        Seq::empty()
    } else {
        match items.last() {
            Json::Text(text) => texts_of(items.drop_last()).push(text@),
            _ => texts_of(items.drop_last()),
        }
    }
}

/// The strings of the array that is the member `key` of `object`. Where
/// there is no such member, or it is no array, there are none.
pub open spec fn names_at(object: Seq<JsonEntry>, key: Seq<char>) -> Seq<Seq<char>> {
    match member_of(object, key) {
        Some(Json::Array(items)) => texts_of(items@),
        _ => Seq::empty(),
    }
}

/// The record that a member of the cache stands for: its key is the folder,
/// and its value must be an object with a string `name`.
pub open spec fn cache_record(entry: JsonEntry) -> Option<RecordView> {
    match entry.value {
        Json::Object(fields) => match member_of(fields@, "name"@) {
            Some(Json::Text(name)) => Some(
                RecordView { name: name@, relative_path: entry.key@, is_default: false },
            ),
            _ => None,
        },
        _ => None,
    }
}

/// The records of the members of the cache that stand for one, in order.
pub open spec fn cache_records(entries: Seq<JsonEntry>) -> Seq<RecordView>
    decreases entries.len(),
{
    if entries.len() == 0 {
        Seq::empty()
    } else {
        match cache_record(entries.last()) {
            Some(record) => cache_records(entries.drop_last()).push(record),
            None => cache_records(entries.drop_last()),
        }
    }
}

/// What the store `state` says. A store without an object `profile`, or
/// whose `profile` has no object `info_cache`, lacks a key.
pub open spec fn chromium_metadata(state: Json) -> Result<MetadataView, DiscoveryError> {
    match state.member_spec("profile"@) {
        Some(Json::Object(profile)) => match member_of(profile@, "info_cache"@) {
            Some(Json::Object(cache)) => Ok(
                MetadataView {
                    records: cache_records(cache@),
                    order_hint: names_at(profile@, "profile_order"@),
                    active_hint: names_at(profile@, "last_active_profiles"@),
                },
            ),
            _ => Err(DiscoveryError::MissingKey),
        },
        _ => Err(DiscoveryError::MissingKey),
    }
}

/// The store that `document` is: it must be there, and be an object.
pub open spec fn local_state_of(document: Option<Json>) -> Result<Json, DiscoveryError> {
    match document {
        Some(Json::Object(entries)) => Ok(Json::Object(entries)),
        _ => Err(DiscoveryError::Parse),
    }
}

/// Reads the text of a store.
///
/// The text must be a JSON document whose top level is an object. Any other
/// text is a parse error.
pub fn get_local_state(text: &str) -> (r: Result<Json, DiscoveryError>)
    ensures
        r == local_state_of(json_document(text@)),
{
    match parse_json(text) {
        Some(document) => {
            if document.is_object() {
                Ok(document)
            } else {
                Err(DiscoveryError::Parse)
            }
        },
        None => Err(DiscoveryError::Parse),
    }
}

/// The strings among `items`, in order.
fn collect_texts(items: &Vec<Json>) -> (texts: Vec<String>)
    ensures
        texts.deep_view() == texts_of(items@),
{
    let mut texts: Vec<String> = Vec::new();
    let mut i: usize = 0;
    assert(items@.take(0) =~= Seq::<Json>::empty());
    assert(texts.deep_view() =~= texts_of(items@.take(0)));
    while i < items.len()
        invariant
            i <= items.len(),
            texts.deep_view() == texts_of(items@.take(i as int)),
        decreases items.len() - i,
    {
        proof {
            let next = items@.take(i + 1);
            assert(next.drop_last() == items@.take(i as int));
            assert(next.last() == items@[i as int]);
        }
        match &items[i] {
            Json::Text(text) => {
                let ghost before = texts.deep_view();
                texts.push(text.clone());
                assert(texts.deep_view() =~= before.push(text@));
            },
            _ => {},
        }
        i = i + 1;
    }
    assert(items@.take(items.len() as int) == items@);
    texts
}

/// The strings of the array that is the member `key` of `object`.
fn collect_names(object: &Vec<JsonEntry>, key: &str) -> (names: Vec<String>)
    ensures
        names.deep_view() == names_at(object@, key@),
{
    match find_member(object, key) {
        Some(Json::Array(items)) => collect_texts(items),
        _ => {
            let none: Vec<String> = Vec::new();
            assert(none.deep_view() =~= Seq::<Seq<char>>::empty());
            none
        },
    }
}

/// The record that a member of the cache stands for, if it stands for one.
fn read_cache_entry(entry: &JsonEntry) -> (record: Option<RawProfileRecord>)
    ensures
        record.deep_view() == cache_record(*entry),
{
    match &entry.value {
        Json::Object(fields) => match find_member(fields, "name") {
            Some(Json::Text(name)) => Some(
                RawProfileRecord::new(name.clone(), entry.key.clone(), false),
            ),
            _ => None,
        },
        _ => None,
    }
}

/// The records of the members of the cache that stand for one, in order.
fn read_cache(entries: &Vec<JsonEntry>) -> (records: Vec<RawProfileRecord>)
    ensures
        records.deep_view() == cache_records(entries@),
{
    let mut records: Vec<RawProfileRecord> = Vec::new();
    let mut i: usize = 0;
    assert(entries@.take(0) =~= Seq::<JsonEntry>::empty());
    assert(records.deep_view() =~= cache_records(entries@.take(0)));
    while i < entries.len()
        invariant
            i <= entries.len(),
            records.deep_view() == cache_records(entries@.take(i as int)),
        decreases entries.len() - i,
    {
        proof {
            let next = entries@.take(i + 1);
            assert(next.drop_last() == entries@.take(i as int));
            assert(next.last() == entries@[i as int]);
        }
        match read_cache_entry(&entries[i]) {
            Some(record) => {
                let ghost before = records.deep_view();
                records.push(record);
                assert(records.deep_view() =~= before.push(record.deep_view()));
            },
            None => {},
        }
        i = i + 1;
    }
    assert(entries@.take(entries.len() as int) == entries@);
    records
}

/// Reads what a store says.
///
/// A member of the cache that does not stand for a profile is passed over.
/// Only a store without `profile` or without `info_cache` is refused.
pub fn read_chromium_metadata(state: &Json) -> (r: Result<ProfileMetadata, DiscoveryError>)
    ensures
        match r {
            Ok(metadata) => chromium_metadata(*state) == Ok::<MetadataView, DiscoveryError>(
                metadata.deep_view(),
            ),
            Err(e) => chromium_metadata(*state) == Err::<MetadataView, DiscoveryError>(e),
        },
{
    match state.member("profile") {
        Some(Json::Object(profile)) => match find_member(profile, "info_cache") {
            Some(Json::Object(cache)) => Ok(
                ProfileMetadata {
                    records: read_cache(cache),
                    order_hint: collect_names(profile, "profile_order"),
                    active_hint: collect_names(profile, "last_active_profiles"),
                },
            ),
            _ => Err(DiscoveryError::MissingKey),
        },
        _ => Err(DiscoveryError::MissingKey),
    }
}

} // verus!
