//! Changing a JSON document.
//!
//! A change names the objects to go through, from the outside in, and then
//! the key to set. An object on the way that is missing is made. Where the
//! way leads through something that is no object, nothing is changed.

use crate::json::tree::{
    find_index, json_view, last_with_key, lemma_last_with_key, members_view, Json, JsonEntry,
    JsonView,
};
use crate::text::{is_listed, lists};
use vstd::prelude::*;

verus! {

/// The members of the object that `members` has at `key`: those of the
/// object that is there, none where nothing is there, and `None` where
/// what is there is no object.
pub open spec fn object_at(members: Map<Seq<char>, JsonView>, key: Seq<char>) -> Option<
    Map<Seq<char>, JsonView>,
> {
    if members.contains_key(key) {
        match members[key] {
            JsonView::Object(inner) => Some(inner),
            _ => None,
        }
    } else {
        Some(Map::empty())
    }
}

/// The members of an object once `key` is set to `value` in the object
/// that `path` leads to from it.
pub open spec fn set_in(
    members: Map<Seq<char>, JsonView>,
    path: Seq<Seq<char>>,
    key: Seq<char>,
    value: JsonView,
) -> Map<Seq<char>, JsonView>
    decreases path.len(),
{
    if path.len() == 0 {
        members.insert(key, value)
    } else {
        match object_at(members, path[0]) {
            Some(inner) => members.insert(
                path[0],
                JsonView::Object(set_in(inner, path.drop_first(), key, value)),
            ),
            None => members,
        }
    }
}

/// The document once `key` is set to `value` in the object that `path`
/// leads to. A document that is no object stays as it is.
pub open spec fn with_value(
    document: JsonView,
    path: Seq<Seq<char>>,
    key: Seq<char>,
    value: JsonView,
) -> JsonView {
    match document {
        JsonView::Object(members) => JsonView::Object(set_in(members, path, key, value)),
        other => other,
    }
}

/// The members once there is an object at `key`: an empty one is put where
/// nothing was.
pub open spec fn with_object_at(members: Map<Seq<char>, JsonView>, key: Seq<char>) -> Map<
    Seq<char>,
    JsonView,
> {
    if members.contains_key(key) {
        members
    } else {
        members.insert(key, JsonView::Object(Map::empty()))
    }
}

/// A member put at the end counts for its key.
proof fn lemma_pushed(entries: Seq<JsonEntry>, entry: JsonEntry)
    ensures
        members_view(entries.push(entry)) == members_view(entries).insert(
            entry.key@,
            json_view(entry.value),
        ),
{
    let all = entries.push(entry);
    assert(all.drop_last() == entries);
    assert(all.last() == entry);
}

/// Taking out the last member with a key changes nothing once the key is
/// set anew.
proof fn lemma_replaced(entries: Seq<JsonEntry>, i: int, value: JsonView)
    requires
        0 <= i < entries.len(),
        forall|j: int| i < j < entries.len() ==> entries[j].key@ != entries[i].key@,
    ensures
        members_view(entries.remove(i)).insert(entries[i].key@, value) == members_view(
            entries,
        ).insert(entries[i].key@, value),
    decreases entries.len(),
{
    let key = entries[i].key@;
    let front = entries.drop_last();
    if i == entries.len() - 1 {
        assert(entries.remove(i) == front);
        assert(members_view(front).insert(key, value) =~= members_view(entries).insert(
            key,
            value,
        ));
    } else {
        let last = entries.last();
        assert(last.key@ != key);
        assert(front[i] == entries[i]);
        assert forall|j: int| i < j < front.len() implies front[j].key@ != front[i].key@ by {
            assert(front[j] == entries[j]);
        }
        lemma_replaced(front, i, value);
        assert(entries.remove(i) == front.remove(i).push(last));
        lemma_pushed(front.remove(i), last);
        let held = json_view(last.value);
        let cut = members_view(front.remove(i));
        let kept = members_view(front);
        assert(members_view(entries) == kept.insert(last.key@, held));
        assert(members_view(entries.remove(i)) == cut.insert(last.key@, held));
        assert(cut.insert(last.key@, held).insert(key, value) =~= cut.insert(key, value).insert(
            last.key@,
            held,
        ));
        assert(kept.insert(last.key@, held).insert(key, value) =~= kept.insert(key, value).insert(
            last.key@,
            held,
        ));
    }
}

/// Sets a member of an object.
pub fn set_member(entries: Vec<JsonEntry>, key: &str, value: Json) -> (r: Vec<JsonEntry>)
    ensures
        members_view(r@) == members_view(entries@).insert(key@, json_view(value)),
{
    let mut r = entries;
    let entry = JsonEntry { key: key.to_owned(), value };
    proof {
        lemma_pushed(r@, entry);
    }
    r.push(entry);
    r
}

/// Makes sure that an object has an object at `key`.
///
/// Where nothing is at the key, an empty object is put there. The result
/// says where the object is among the members, or `None` where what is at
/// the key is no object; the members are then as they were.
pub fn get_or_insert_obj(entries: Vec<JsonEntry>, key: &str) -> (r: (Vec<JsonEntry>, Option<usize>))
    ensures
        members_view(r.0@) == with_object_at(members_view(entries@), key@),
        match r.1 {
            Some(i) => {
                &&& last_with_key(r.0@, key@) == Some(i as int)
                &&& r.0@[i as int].value is Object
            },
            None => {
                &&& r.0 == entries
                &&& object_at(members_view(entries@), key@) is None
            },
        },
{
    proof {
        lemma_last_with_key(entries@, key@);
    }
    match find_index(&entries, key) {
        Some(i) => {
            let is_object = entries[i].value.is_object();
            assert(members_view(entries@)[key@] == json_view(entries@[i as int].value));
            if is_object {
                (entries, Some(i))
            } else {
                (entries, None)
            }
        },
        None => {
            let fresh: Vec<JsonEntry> = Vec::new();
            assert(members_view(fresh@) =~= Map::<Seq<char>, JsonView>::empty());
            let mut r = entries;
            let at = r.len();
            let entry = JsonEntry { key: key.to_owned(), value: Json::Object(fresh) };
            proof {
                lemma_pushed(r@, entry);
                let grown = r@.push(entry);
                assert(grown.last() == entry);
            }
            r.push(entry);
            (r, Some(at))
        },
    }
}

/// Sets `key` to `value` in the object that the names of `path` from
/// `from` on lead to.
fn set_at(entries: Vec<JsonEntry>, path: &Vec<String>, from: usize, key: &str, value: Json) -> (r:
    Vec<JsonEntry>)
    requires
        from <= path.len(),
    ensures
        members_view(r@) == set_in(
            members_view(entries@),
            path.deep_view().skip(from as int),
            key@,
            json_view(value),
        ),
    decreases path.len() - from,
{
    let ghost names = path.deep_view().skip(from as int);
    if from == path.len() {
        return set_member(entries, key, value);
    }
    proof {
        assert(names[0] == path[from as int]@);
        assert(names.drop_first() == path.deep_view().skip(from + 1));
        lemma_last_with_key(entries@, path[from as int]@);
    }
    let mut r = entries;
    match find_index(&r, path[from].as_str()) {
        None => {
            let fresh: Vec<JsonEntry> = Vec::new();
            assert(members_view(fresh@) =~= Map::<Seq<char>, JsonView>::empty());
            let inner = set_at(fresh, path, from + 1, key, value);
            let entry = JsonEntry { key: path[from].clone(), value: Json::Object(inner) };
            proof {
                lemma_pushed(r@, entry);
            }
            r.push(entry);
            r
        },
        Some(i) => {
            let ghost before = r@;
            let entry = r.remove(i);
            match entry.value {
                Json::Object(inner) => {
                    let updated = set_at(inner, path, from + 1, key, value);
                    let renewed = JsonEntry { key: entry.key, value: Json::Object(updated) };
                    proof {
                        lemma_replaced(before, i as int, json_view(renewed.value));
                        lemma_pushed(r@, renewed);
                    }
                    r.push(renewed);
                    r
                },
                other => {
                    r.insert(i, JsonEntry { key: entry.key, value: other });
                    assert(r@ =~= before);
                    r
                },
            }
        },
    }
}

impl Json {
    /// An object without members.
    pub fn object() -> (r: Json)
        ensures
            r.deep_view() == JsonView::Object(Map::empty()),
    {
        let fresh: Vec<JsonEntry> = Vec::new();
        assert(members_view(fresh@) =~= Map::<Seq<char>, JsonView>::empty());
        Json::Object(fresh)
    }

    /// A string.
    pub fn text_of(text: &str) -> (r: Json)
        ensures
            r.deep_view() == JsonView::Text(text@),
    {
        Json::Text(text.to_owned())
    }

    /// The document with `key` set to `value` in the object that `path`
    /// leads to from the top.
    ///
    /// An object on the way that is missing is made. Where the way leads
    /// through something that is no object, or the document itself is no
    /// object, the document stays as it is.
    pub fn with_value_at(self, path: &Vec<String>, key: &str, value: Json) -> (r: Json)
        ensures
            r.deep_view() == with_value(
                self.deep_view(),
                path.deep_view(),
                key@,
                value.deep_view(),
            ),
    {
        match self {
            Json::Object(entries) => {
                assert(path.deep_view().skip(0) == path.deep_view());
                Json::Object(set_at(entries, path, 0, key, value))
            },
            other => other,
        }
    }
}

/// What an `Edit` stands for in contracts.
pub struct EditView {
    pub path: Seq<Seq<char>>,
    pub key: Seq<char>,
    pub value: JsonView,
}

/// One change to a document: the objects to go through, the key to set,
/// and the value to set it to.
pub struct Edit {
    pub path: Vec<String>,
    pub key: String,
    pub value: Json,
}

impl DeepView for Edit {
    type V = EditView;

    open spec fn deep_view(&self) -> EditView {
        EditView { path: self.path.deep_view(), key: self.key@, value: self.value.deep_view() }
    }
}

/// The document after the changes `edits`, made in their order.
pub open spec fn edited(document: JsonView, edits: Seq<EditView>) -> JsonView
    decreases edits.len(),
{
    if edits.len() == 0 {
        document
    } else {
        let front = edited(document, edits.drop_last());
        with_value(front, edits.last().path, edits.last().key, edits.last().value)
    }
}

/// Makes the changes `edits` to a document, in their order.
pub fn apply_edits(document: Json, edits: Vec<Edit>) -> (r: Json)
    ensures
        r.deep_view() == edited(document.deep_view(), edits.deep_view()),
{
    let ghost start = document.deep_view();
    let ghost all = edits.deep_view();
    let mut r = document;
    let mut rest = edits;
    let mut done: Ghost<int> = Ghost(0);
    assert(all.take(0) =~= Seq::<EditView>::empty());
    assert(rest.deep_view().skip(0) == rest.deep_view());
    while rest.len() > 0
        invariant
            0 <= done@ <= all.len(),
            rest.deep_view() == all.skip(done@),
            r.deep_view() == edited(start, all.take(done@)),
        decreases rest.len(),
    {
        let ghost before = rest.deep_view();
        let edit = rest.remove(0);
        proof {
            assert(rest.deep_view() =~= before.remove(0));
            assert(before.remove(0) =~= all.skip(done@ + 1));
            assert(edit.deep_view() == before[0]);
            let next = all.take(done@ + 1);
            assert(next.drop_last() == all.take(done@));
            assert(next.last() == all[done@]);
        }
        r = r.with_value_at(&edit.path, edit.key.as_str(), edit.value);
        proof {
            done@ = done@ + 1;
        }
    }
    assert(all.take(all.len() as int) == all);
    r
}

/// The item is a string that `listed` names.
pub open spec fn is_listed_text(item: Json, listed: Seq<Seq<char>>) -> bool {
    match item {
        Json::Text(text) => lists(listed, text@),
        _ => false,
    }
}

/// `items` without the strings that `listed` names.
pub open spec fn unlisted(items: Seq<Json>, listed: Seq<Seq<char>>) -> Seq<Json>
    decreases items.len(),
{
    if items.len() == 0 {
        items
    } else if is_listed_text(items.last(), listed) {
        unlisted(items.drop_last(), listed)
    } else {
        unlisted(items.drop_last(), listed).push(items.last())
    }
}

/// Takes the strings that `listed` names out of a list of values. What is
/// no string stays.
pub fn drop_listed(items: Vec<Json>, listed: &Vec<String>) -> (r: Vec<Json>)
    ensures
        r@ == unlisted(items@, listed.deep_view()),
{
    let ghost all = items@;
    let mut rest = items;
    let mut r: Vec<Json> = Vec::new();
    let mut done: Ghost<int> = Ghost(0);
    assert(all.take(0) =~= Seq::<Json>::empty());
    assert(rest@.skip(0) == rest@);
    while rest.len() > 0
        invariant
            0 <= done@ <= all.len(),
            rest@ == all.skip(done@),
            r@ == unlisted(all.take(done@), listed.deep_view()),
        decreases rest.len(),
    {
        let ghost before = rest@;
        let item = rest.remove(0);
        proof {
            assert(before.remove(0) =~= all.skip(done@ + 1));
            let next = all.take(done@ + 1);
            assert(next.drop_last() == all.take(done@));
            assert(next.last() == all[done@]);
        }
        let listed_text = match &item {
            Json::Text(text) => is_listed(listed, text.as_str()),
            _ => false,
        };
        if !listed_text {
            r.push(item);
        }
        proof {
            done@ = done@ + 1;
        }
    }
    assert(all.take(all.len() as int) == all);
    r
}

} // verus!
