//! JSON documents as a tree of the library's own.

use crate::text::str_eq;
use vstd::prelude::*;

verus! {

/// A number of a JSON document. The library carries it and never looks inside.
#[verifier::external_type_specification]
#[verifier::external_body]
pub struct ExNumber(serde_json::Number);

/// A JSON value as `serde_json` holds it.
#[verifier::external_type_specification]
#[verifier::external_body]
pub struct ExValue(serde_json::Value);

/// Why `serde_json` could not read a text.
#[verifier::external_type_specification]
#[verifier::external_body]
pub struct ExError(serde_json::Error);

/// A JSON value.
pub enum Json {
    Null,
    Bool(bool),
    Number(serde_json::Number),
    Text(String),
    Array(Vec<Json>),
    Object(Vec<JsonEntry>),
}

/// One member of a JSON object.
pub struct JsonEntry {
    pub key: String,
    pub value: Json,
}

/// The value that `serde_json` reads from `text`, or `None` where it
/// rejects the text.
pub uninterp spec fn parsed_value(text: Seq<char>) -> Option<serde_json::Value>;

/// The tree that says what a value of `serde_json` holds.
pub uninterp spec fn tree_of(value: serde_json::Value) -> Json;

/// The document that is read from `text`, or `None` where `text` is no JSON.
pub open spec fn json_document(text: Seq<char>) -> Option<Json> {
    match parsed_value(text) {
        Some(value) => Some(tree_of(value)),
        None => None,
    }
}

/// The value of the member of `entries` whose key is `key`. Where several
/// members have the key, the last one counts.
pub open spec fn member_of(entries: Seq<JsonEntry>, key: Seq<char>) -> Option<Json>
    decreases entries.len(),
{
    if entries.len() == 0 {
        None
    } else if entries.last().key@ == key {
        Some(entries.last().value)
    } else {
        member_of(entries.drop_last(), key)
    }
}

/// What a `Json` stands for in contracts: an object is the map from its
/// keys to their values.
pub enum JsonView {
    Null,
    Bool(bool),
    Number(serde_json::Number),
    Text(Seq<char>),
    Array(Seq<JsonView>),
    Object(Map<Seq<char>, JsonView>),
}

/// What the value `json` stands for.
pub open spec fn json_view(json: Json) -> JsonView
    decreases json,
{
    match json {
        Json::Null => JsonView::Null,
        Json::Bool(b) => JsonView::Bool(b),
        Json::Number(n) => JsonView::Number(n),
        Json::Text(text) => JsonView::Text(text@),
        Json::Array(items) => JsonView::Array(items_view(items@)),
        Json::Object(entries) => JsonView::Object(members_view(entries@)),
    }
}

/// What the items of an array stand for.
pub open spec fn items_view(items: Seq<Json>) -> Seq<JsonView>
    decreases items,
{
    if items.len() == 0 {
        Seq::empty()
    } else {
        items_view(items.drop_last()).push(json_view(items.last()))
    }
}

/// What the members of an object stand for: each key with the value of the
/// last member that has it.
pub open spec fn members_view(entries: Seq<JsonEntry>) -> Map<Seq<char>, JsonView>
    decreases entries,
{
    if entries.len() == 0 {
        Map::empty()
    } else {
        members_view(entries.drop_last()).insert(entries.last().key@, json_view(entries.last().value))
    }
}

impl DeepView for Json {
    type V = JsonView;

    open spec fn deep_view(&self) -> JsonView {
        json_view(*self)
    }
}

/// The value of `serde_json` that holds what `document` holds.
pub uninterp spec fn value_of(document: JsonView) -> serde_json::Value;

/// The text that `serde_json` writes for a value, or `None` where it
/// refuses to write the value.
pub uninterp spec fn written(value: serde_json::Value) -> Option<Seq<char>>;

/// The text that is written for a document, or `None` where the document
/// cannot be written.
pub open spec fn json_text(document: JsonView) -> Option<Seq<char>> {
    written(value_of(document))
}

/// What is made of the outcome of writing: the text where there is one,
/// nothing where there is an error.
pub open spec fn text_in(outcome: Result<String, serde_json::Error>) -> Option<Seq<char>> {
    match outcome {
        Ok(text) => Some(text@),
        Err(_) => None,
    }
}

impl Json {
    /// The member `key` of this value, if it is an object that has one.
    pub open spec fn member_spec(self, key: Seq<char>) -> Option<Json> {
        match self {
            Json::Object(entries) => member_of(entries@, key),
            _ => None,
        }
    }

    /// The members of this value, if it is an object.
    pub open spec fn entries_spec(self) -> Option<Seq<JsonEntry>> {
        match self {
            Json::Object(entries) => Some(entries@),
            _ => None,
        }
    }

    /// The items of this value, if it is an array.
    pub open spec fn items_spec(self) -> Option<Seq<Json>> {
        match self {
            Json::Array(items) => Some(items@),
            _ => None,
        }
    }

    /// The characters of this value, if it is a string.
    pub open spec fn text_spec(self) -> Option<Seq<char>> {
        match self {
            Json::Text(text) => Some(text@),
            _ => None,
        }
    }

    /// The member `key` of this value, if it is an object that has one.
    pub fn member(&self, key: &str) -> (found: Option<&Json>)
        ensures
            match found {
                Some(value) => self.member_spec(key@) == Some(*value),
                None => self.member_spec(key@) is None,
            },
    {
        match self {
            Json::Object(entries) => find_member(entries, key),
            _ => None,
        }
    }

    /// The members of this value, if it is an object.
    pub fn entries(&self) -> (found: Option<&Vec<JsonEntry>>)
        ensures
            match found {
                Some(entries) => self.entries_spec() == Some(entries@),
                None => self.entries_spec() is None,
            },
    {
        match self {
            Json::Object(entries) => Some(entries),
            _ => None,
        }
    }

    /// The items of this value, if it is an array.
    pub fn items(&self) -> (found: Option<&Vec<Json>>)
        ensures
            match found {
                Some(items) => self.items_spec() == Some(items@),
                None => self.items_spec() is None,
            },
    {
        match self {
            Json::Array(items) => Some(items),
            _ => None,
        }
    }

    /// The characters of this value, if it is a string.
    pub fn text(&self) -> (found: Option<&String>)
        ensures
            match found {
                Some(text) => self.text_spec() == Some(text@),
                None => self.text_spec() is None,
            },
    {
        match self {
            Json::Text(text) => Some(text),
            _ => None,
        }
    }

    /// Whether this value is an object.
    pub fn is_object(&self) -> (r: bool)
        ensures
            r == (self is Object),
    {
        match self {
            Json::Object(_) => true,
            _ => false,
        }
    }
}

/// The index of the last member of `entries` whose key is `key`.
pub open spec fn last_with_key(entries: Seq<JsonEntry>, key: Seq<char>) -> Option<int>
    decreases entries.len(),
{
    if entries.len() == 0 {
        None
    } else if entries.last().key@ == key {
        Some(entries.len() - 1)
    } else {
        last_with_key(entries.drop_last(), key)
    }
}

/// What `last_with_key` finds is the member that `member_of` gives, and the
/// value that the object's view has at the key.
pub proof fn lemma_last_with_key(entries: Seq<JsonEntry>, key: Seq<char>)
    ensures
        match last_with_key(entries, key) {
            Some(i) => {
                &&& 0 <= i < entries.len()
                &&& entries[i].key@ == key
                &&& forall|j: int| i < j < entries.len() ==> entries[j].key@ != key
                &&& member_of(entries, key) == Some(entries[i].value)
                &&& members_view(entries).contains_key(key)
                &&& members_view(entries)[key] == json_view(entries[i].value)
            },
            None => {
                &&& forall|j: int| 0 <= j < entries.len() ==> entries[j].key@ != key
                &&& member_of(entries, key) is None
                &&& !members_view(entries).contains_key(key)
            },
        },
    decreases entries.len(),
{
    if entries.len() > 0 {
        let front = entries.drop_last();
        lemma_last_with_key(front, key);
        if entries.last().key@ != key {
            match last_with_key(front, key) {
                Some(i) => {
                    assert(front[i] == entries[i]);
                    assert forall|j: int| i < j < entries.len() implies entries[j].key@ != key by {
                        if j < front.len() {
                            assert(front[j] == entries[j]);
                        }
                    }
                },
                None => {
                    assert forall|j: int| 0 <= j < entries.len() implies entries[j].key@
                        != key by {
                        if j < front.len() {
                            assert(front[j] == entries[j]);
                        }
                    }
                },
            }
        }
    }
}

/// The index of the last member of `entries` whose key is `key`.
pub fn find_index(entries: &Vec<JsonEntry>, key: &str) -> (found: Option<usize>)
    ensures
        match found {
            Some(i) => last_with_key(entries@, key@) == Some(i as int) && i < entries.len(),
            None => last_with_key(entries@, key@) is None,
        },
{
    let mut i: usize = entries.len();
    assert(entries@.take(entries.len() as int) == entries@);
    while i > 0
        invariant
            i <= entries.len(),
            last_with_key(entries@, key@) == last_with_key(entries@.take(i as int), key@),
        decreases i,
    {
        proof {
            let part = entries@.take(i as int);
            assert(part.last() == entries@[i - 1]);
            assert(part.drop_last() == entries@.take(i - 1));
        }
        if str_eq(entries[i - 1].key.as_str(), key) {
            return Some(i - 1);
        }
        i = i - 1;
    }
    None
}

/// The value of the member of `entries` whose key is `key`.
pub fn find_member<'a>(entries: &'a Vec<JsonEntry>, key: &str) -> (found: Option<&'a Json>)
    ensures
        match found {
            Some(value) => member_of(entries@, key@) == Some(*value),
            None => member_of(entries@, key@) is None,
        },
{
    proof {
        lemma_last_with_key(entries@, key@);
    }
    match find_index(entries, key) {
        Some(i) => Some(&entries[i].value),
        None => None,
    }
}

/// Turns a value of `serde_json` into the library's tree, variant by variant.
///
/// Handles `serde_json::Value`: every variant becomes the variant of the same
/// meaning with the same contents, and the members of an object keep the order
/// in which `serde_json` hands them out. The tree depends on the value alone.
#[verifier::external_body]
fn json_from_value(value: serde_json::Value) -> (json: Json)
    ensures
        json == tree_of(value),
{
    match value {
        serde_json::Value::Null => Json::Null,
        serde_json::Value::Bool(b) => Json::Bool(b),
        serde_json::Value::Number(n) => Json::Number(n),
        serde_json::Value::String(s) => Json::Text(s),
        serde_json::Value::Array(items) => Json::Array(
            items.into_iter().map(json_from_value).collect(),
        ),
        serde_json::Value::Object(map) => Json::Object(
            map.into_iter().map(|(key, v)| JsonEntry { key, value: json_from_value(v) }).collect(),
        ),
    }
}

/// Reads a JSON text.
///
/// Wraps `serde_json::from_str` at the type `serde_json::Value`: the call
/// succeeds exactly on the texts that it accepts, and what it gives depends on
/// the text alone.
#[verifier::external_body]
fn read_value(text: &str) -> (r: Result<serde_json::Value, serde_json::Error>)
    ensures
        r is Ok <==> parsed_value(text@) is Some,
        r is Ok ==> Some(r->Ok_0) == parsed_value(text@),
{
    serde_json::from_str::<serde_json::Value>(text)
}

/// Reads a JSON document, or `None` where the text is not one.
pub fn parse_json(text: &str) -> (r: Option<Json>)
    ensures
        r == json_document(text@),
{
    match read_value(text) {
        Ok(value) => Some(json_from_value(value)),
        Err(_) => None,
    }
}

/// Turns the library's tree into a value of `serde_json`, variant by variant.
///
/// Builds a `serde_json::Value`: every variant becomes the variant of the
/// same meaning with the same contents. The members of an object are put
/// into the map of `serde_json` in their order, so that of two members with
/// one key the later one stays. The value depends on what the tree stands
/// for alone.
#[verifier::external_body]
fn value_from_json(json: &Json) -> (value: serde_json::Value)
    ensures
        value == value_of(json.deep_view()),
{
    match json {
        Json::Null => serde_json::Value::Null,
        Json::Bool(b) => serde_json::Value::Bool(*b),
        Json::Number(n) => serde_json::Value::Number(n.clone()),
        Json::Text(s) => serde_json::Value::String(s.clone()),
        Json::Array(items) => serde_json::Value::Array(items.iter().map(value_from_json).collect()),
        Json::Object(entries) => serde_json::Value::Object(
            entries.iter().map(|e| (e.key.clone(), value_from_json(&e.value))).collect(),
        ),
    }
}

/// Writes a value of `serde_json` as text.
///
/// Wraps `serde_json::to_string` at the type `serde_json::Value`. Whether it
/// writes the value, and what it writes, depends on the value alone: the
/// members of an object are written in the order of their keys.
#[verifier::external_body]
fn write_value(value: &serde_json::Value) -> (r: Result<String, serde_json::Error>)
    ensures
        r is Ok <==> written(*value) is Some,
        r is Ok ==> Some(r->Ok_0@) == written(*value),
{
    serde_json::to_string(value)
}

/// The text that writing gave, or `None` where it gave an error.
pub fn written_text(outcome: Result<String, serde_json::Error>) -> (r: Option<String>)
    ensures
        match outcome {
            Ok(text) => r == Some(text),
            Err(_) => r is None,
        },
        r.deep_view() == text_in(outcome),
{
    match outcome {
        Ok(text) => Some(text),
        Err(_) => None,
    }
}

/// The text of a JSON document.
///
/// The document is handed to `serde_json` as the value that holds what it
/// holds. The result is the text that `serde_json` writes for that value,
/// and `None` exactly where it refuses to write it.
pub fn to_text(document: &Json) -> (r: Option<String>)
    ensures
        r.deep_view() == json_text(document.deep_view()),
{
    let value = value_from_json(document);
    written_text(write_value(&value))
}

} // verus!
