//! Resolving raw records to an ordered list of profiles without repeats.

use crate::browser_profile::{BrowserProfile, ProfileView};
use crate::paths::{join_path, joined};
use crate::profiles::laws::lemma_resolved_len;
use crate::profiles::record::{DiscoveryError, RawProfileRecord, RecordView};
use crate::text::str_eq;
use vstd::prelude::*;

verus! {

/// A record whose path has been resolved below the data folder.
pub struct Located {
    pub profile: ProfileView,
    pub is_default: bool,
}

/// Each record with its path resolved below `folder`, in discovery order.
pub open spec fn located(records: Seq<RecordView>, folder: Seq<char>) -> Seq<Located> {
    Seq::new(
        records.len(),
        |i: int|
            Located {
                profile: ProfileView {
                    name: records[i].name,
                    path: joined(folder, records[i].relative_path),
                },
                is_default: records[i].is_default,
            },
    )
}

/// Some entry of `s` has the path `path`.
pub open spec fn has_path(s: Seq<Located>, path: Seq<char>) -> bool {
    exists|j: int| 0 <= j < s.len() && (#[trigger] s[j]).profile.path == path
}

/// `s` without the entries whose path an earlier entry already has.
pub open spec fn without_repeats(s: Seq<Located>) -> Seq<Located>
    decreases s.len(),
{
    if s.len() == 0 {
        s
    } else if has_path(s.drop_last(), s.last().profile.path) {
        without_repeats(s.drop_last())
    } else {
        without_repeats(s.drop_last()).push(s.last())
    }
}

/// The default entries of `s`, then the others, each group in its old order.
pub open spec fn defaults_first(s: Seq<Located>) -> Seq<Located> {
    s.filter(flagged_default()) + s.filter(not_flagged_default())
}

/// The test for an entry that is flagged as default.
pub open spec fn flagged_default() -> spec_fn(Located) -> bool {
    |c: Located| c.is_default
}

/// The test for an entry that is not flagged as default.
pub open spec fn not_flagged_default() -> spec_fn(Located) -> bool {
    |c: Located| !c.is_default
}

/// The profiles that the entries of `s` carry.
pub open spec fn profiles_of(s: Seq<Located>) -> Seq<ProfileView> {
    s.map_values(|c: Located| c.profile)
}

/// The index of the first profile of `s` named `name`, if there is one.
pub open spec fn first_named(s: Seq<ProfileView>, name: Seq<char>) -> Option<int>
    decreases s.len(),
{
    if s.len() == 0 {
        None
    } else if s[0].name == name {
        Some(0)
    } else {
        match first_named(s.drop_first(), name) {
            Some(i) => Some(i + 1),
            None => None,
        }
    }
}

/// `profiles` reordered by a list of names.
///
/// Each name of `hint`, in turn, moves the first remaining profile of that
/// name to the output; a name that matches nothing is passed over. What is
/// left when the names run out follows in its old order.
pub open spec fn ordered_by_hint(profiles: Seq<ProfileView>, hint: Seq<Seq<char>>) -> Seq<
    ProfileView,
>
    decreases hint.len(),
{
    if hint.len() == 0 {
        profiles
    } else {
        match first_named(profiles, hint[0]) {
            Some(i) => seq![profiles[i]] + ordered_by_hint(profiles.remove(i), hint.drop_first()),
            None => ordered_by_hint(profiles, hint.drop_first()),
        }
    }
}

/// The resolved list for the given records, data folder and order hint.
pub open spec fn resolved(
    records: Seq<RecordView>,
    folder: Seq<char>,
    hint: Seq<Seq<char>>,
) -> Seq<ProfileView> {
    ordered_by_hint(profiles_of(defaults_first(without_repeats(located(records, folder)))), hint)
}

/// What `first_named` returns is the least index whose profile has the name.
pub proof fn lemma_first_named(s: Seq<ProfileView>, name: Seq<char>)
    ensures
        match first_named(s, name) {
            Some(i) => 0 <= i < s.len() && s[i].name == name && forall|j: int|
                0 <= j < i ==> s[j].name != name,
            None => forall|j: int| 0 <= j < s.len() ==> s[j].name != name,
        },
    decreases s.len(),
{
    if s.len() > 0 && s[0].name != name {
        let rest = s.drop_first();
        lemma_first_named(rest, name);
        match first_named(rest, name) {
            Some(i) => {
                assert forall|j: int| 0 <= j < i + 1 implies s[j].name != name by {
                    if j > 0 {
                        assert(s[j] == rest[j - 1]);
                    }
                }
            },
            None => {
                assert forall|j: int| 0 <= j < s.len() implies s[j].name != name by {
                    if j > 0 {
                        assert(s[j] == rest[j - 1]);
                    }
                }
            },
        }
    }
}

/// Removing repeats neither adds a path nor loses one.
pub proof fn lemma_without_repeats_paths(s: Seq<Located>, path: Seq<char>)
    ensures
        has_path(without_repeats(s), path) <==> has_path(s, path),
    decreases s.len(),
{
    if s.len() > 0 {
        let front = s.drop_last();
        let kept = without_repeats(front);
        lemma_without_repeats_paths(front, path);
        if has_path(s, path) {
            let j = choose|j: int| 0 <= j < s.len() && (#[trigger] s[j]).profile.path == path;
            if j < front.len() {
                assert(front[j] == s[j]);
                assert(has_path(front, path));
            }
        }
        if has_path(front, path) {
            let j = choose|j: int|
                0 <= j < front.len() && (#[trigger] front[j]).profile.path == path;
            assert(s[j] == front[j]);
        }
        if has_path(front, s.last().profile.path) {
        } else {
            let out = kept.push(s.last());
            if has_path(kept, path) {
                let j = choose|j: int|
                    0 <= j < kept.len() && (#[trigger] kept[j]).profile.path == path;
                assert(out[j] == kept[j]);
            }
            if has_path(out, path) {
                let j = choose|j: int|
                    0 <= j < out.len() && (#[trigger] out[j]).profile.path == path;
                if j < kept.len() {
                    assert(kept[j] == out[j]);
                    assert(has_path(kept, path));
                } else {
                    assert(s[s.len() - 1].profile.path == path);
                }
            }
            if path == s.last().profile.path {
                assert(out[out.len() - 1].profile.path == path);
                assert(s[s.len() - 1].profile.path == path);
            }
        }
    }
}

/// A record with its resolved path, as the resolver holds it.
pub struct LocatedProfile {
    pub profile: BrowserProfile,
    pub is_default: bool,
}

impl DeepView for LocatedProfile {
    type V = Located;

    open spec fn deep_view(&self) -> Located {
        Located { profile: self.profile.deep_view(), is_default: self.is_default }
    }
}

/// Whether an entry of `found` has the path `path`.
fn path_known(found: &Vec<LocatedProfile>, path: &str) -> (r: bool)
    ensures
        r == has_path(found.deep_view(), path@),
{
    let mut i: usize = 0;
    while i < found.len()
        invariant
            i <= found.len(),
            forall|j: int| 0 <= j < i ==> (#[trigger] found.deep_view()[j]).profile.path != path@,
        decreases found.len() - i,
    {
        if str_eq(found[i].profile.path.as_str(), path) {
            assert(found.deep_view()[i as int].profile.path == path@);
            return true;
        }
        i = i + 1;
    }
    false
}

/// Resolves each record's path and drops the records whose path came before.
fn locate_without_repeats(records: &Vec<RawProfileRecord>, data_folder: &str) -> (found: Vec<
    LocatedProfile,
>)
    ensures
        found.deep_view() == without_repeats(located(records.deep_view(), data_folder@)),
{
    let ghost all = located(records.deep_view(), data_folder@);
    let mut found: Vec<LocatedProfile> = Vec::new();
    let mut i: usize = 0;
    assert(all.take(0) =~= Seq::<Located>::empty());
    assert(found.deep_view() =~= without_repeats(all.take(0)));
    while i < records.len()
        invariant
            i <= records.len(),
            all == located(records.deep_view(), data_folder@),
            found.deep_view() == without_repeats(all.take(i as int)),
        decreases records.len() - i,
    {
        let record = &records[i];
        let path = join_path(data_folder, record.relative_path.as_str());
        let known = path_known(&found, path.as_str());
        proof {
            let next = all.take(i + 1);
            assert(next.drop_last() == all.take(i as int));
            assert(next.last() == all[i as int]);
            assert(all[i as int].profile.path == path@);
            lemma_without_repeats_paths(all.take(i as int), path@);
        }
        if !known {
            let ghost before = found.deep_view();
            let entry = LocatedProfile {
                profile: BrowserProfile::new(record.name.clone(), path),
                is_default: record.is_default,
            };
            found.push(entry);
            assert(found.deep_view() =~= before.push(all[i as int]));
        }
        i = i + 1;
    }
    assert(all.take(records.len() as int) == all);
    found
}

/// The profiles of the default entries, then those of the others.
fn defaults_then_others(found: &Vec<LocatedProfile>) -> (out: Vec<BrowserProfile>)
    ensures
        out.deep_view() == profiles_of(defaults_first(found.deep_view())),
{
    let ghost all = found.deep_view();
    let mut out: Vec<BrowserProfile> = Vec::new();
    let mut i: usize = 0;
    assert(all.take(0).filter(flagged_default()) =~= Seq::<Located>::empty()) by {
        reveal(Seq::filter);
    }
    assert(out.deep_view() =~= profiles_of(all.take(0).filter(flagged_default())));
    while i < found.len()
        invariant
            i <= found.len(),
            all == found.deep_view(),
            out.deep_view() == profiles_of(all.take(i as int).filter(flagged_default())),
        decreases found.len() - i,
    {
        proof {
            assert(all.take(i + 1) == all.take(i as int).push(all[i as int]));
            all.take(i as int).lemma_filter_push(all[i as int], flagged_default());
        }
        if found[i].is_default {
            let ghost before = out.deep_view();
            out.push(found[i].profile.duplicate());
            assert(out.deep_view() =~= before.push(all[i as int].profile));
            assert(profiles_of(all.take(i as int).filter(flagged_default()).push(all[i as int]))
                =~= before.push(all[i as int].profile));
        }
        i = i + 1;
    }
    assert(all.take(found.len() as int) == all);
    let ghost firsts = out.deep_view();
    let mut k: usize = 0;
    assert(all.take(0).filter(not_flagged_default()) =~= Seq::<Located>::empty()) by {
        reveal(Seq::filter);
    }
    assert(out.deep_view() =~= firsts + profiles_of(all.take(0).filter(not_flagged_default())));
    while k < found.len()
        invariant
            k <= found.len(),
            all == found.deep_view(),
            firsts == profiles_of(all.filter(flagged_default())),
            out.deep_view() == firsts + profiles_of(
                all.take(k as int).filter(not_flagged_default()),
            ),
        decreases found.len() - k,
    {
        proof {
            assert(all.take(k + 1) == all.take(k as int).push(all[k as int]));
            all.take(k as int).lemma_filter_push(all[k as int], not_flagged_default());
        }
        if !found[k].is_default {
            let ghost before = out.deep_view();
            out.push(found[k].profile.duplicate());
            assert(out.deep_view() =~= before.push(all[k as int].profile));
            assert(firsts + profiles_of(
                all.take(k as int).filter(not_flagged_default()).push(all[k as int]),
            ) =~= before.push(all[k as int].profile));
        }
        k = k + 1;
    }
    assert(all.take(found.len() as int) == all);
    assert(profiles_of(defaults_first(all)) =~= firsts + profiles_of(
        all.filter(not_flagged_default()),
    ));
    out
}

/// The index of the first profile named `name`, if there is one.
pub fn position_named(profiles: &Vec<BrowserProfile>, name: &str) -> (r: Option<usize>)
    ensures
        match r {
            Some(i) => i < profiles.len() && first_named(profiles.deep_view(), name@) == Some(
                i as int,
            ),
            None => first_named(profiles.deep_view(), name@) is None,
        },
{
    let ghost views = profiles.deep_view();
    let mut i: usize = 0;
    while i < profiles.len()
        invariant
            i <= profiles.len(),
            views == profiles.deep_view(),
            forall|j: int| 0 <= j < i ==> views[j].name != name@,
        decreases profiles.len() - i,
    {
        if str_eq(profiles[i].name.as_str(), name) {
            assert(views[i as int].name == name@);
            proof {
                lemma_first_named(views, name@);
                match first_named(views, name@) {
                    Some(k) => {
                        if k < i {
                            assert(views[k].name != name@);
                        }
                        if i < k {
                            assert(views[i as int].name != name@);
                        }
                    },
                    None => {
                        assert(views[i as int].name != name@);
                    },
                }
            }
            return Some(i);
        }
        i = i + 1;
    }
    proof {
        lemma_first_named(views, name@);
        match first_named(views, name@) {
            Some(k) => {
                assert(views[k].name != name@);
            },
            None => {},
        }
    }
    None
}

/// Reorders `profiles` by the names in `hint`.
pub fn order_by_hint(profiles: Vec<BrowserProfile>, hint: &Vec<String>) -> (out: Vec<
    BrowserProfile,
>)
    ensures
        out.deep_view() == ordered_by_hint(profiles.deep_view(), hint.deep_view()),
{
    let ghost start = profiles.deep_view();
    let ghost names = hint.deep_view();
    let mut remaining = profiles;
    let mut out: Vec<BrowserProfile> = Vec::new();
    let mut k: usize = 0;
    assert(names.skip(0) == names);
    assert(out.deep_view() + ordered_by_hint(start, names) =~= ordered_by_hint(start, names));
    while k < hint.len()
        invariant
            k <= hint.len(),
            names == hint.deep_view(),
            ordered_by_hint(start, names) == out.deep_view() + ordered_by_hint(
                remaining.deep_view(),
                names.skip(k as int),
            ),
        decreases hint.len() - k,
    {
        let found = position_named(&remaining, hint[k].as_str());
        proof {
            let rest = names.skip(k as int);
            assert(rest[0] == hint[k as int]@);
            assert(rest.drop_first() == names.skip(k + 1));
        }
        match found {
            Some(i) => {
                let ghost before = out.deep_view();
                let ghost pool = remaining.deep_view();
                let moved = remaining.remove(i);
                out.push(moved);
                assert(remaining.deep_view() =~= pool.remove(i as int));
                assert(out.deep_view() =~= before.push(pool[i as int]));
                assert(before.push(pool[i as int]) + ordered_by_hint(
                    pool.remove(i as int),
                    names.skip(k + 1),
                ) =~= before + (seq![pool[i as int]] + ordered_by_hint(
                    pool.remove(i as int),
                    names.skip(k + 1),
                )));
            },
            None => {},
        }
        k = k + 1;
    }
    let ghost placed = out.deep_view();
    let ghost rest = remaining.deep_view();
    out.append(&mut remaining);
    assert(out.deep_view() =~= placed + rest);
    out
}

/// Resolves raw records to the list of profiles on offer.
///
/// Each record's path is resolved below `data_folder`. A record whose path an
/// earlier record already has is dropped. The records flagged as default come
/// first, then the others, and `order_hint` then moves the profiles it names
/// to the front, in its own order. With no record left the result is
/// `NoProfilesFound`, which happens exactly when there was no record at all.
pub fn resolve_profiles(
    records: &Vec<RawProfileRecord>,
    data_folder: &str,
    order_hint: &Vec<String>,
) -> (r: Result<Vec<BrowserProfile>, DiscoveryError>)
    ensures
        r is Ok <==> records.len() > 0,
        match r {
            Ok(profiles) => profiles.deep_view() == resolved(
                records.deep_view(),
                data_folder@,
                order_hint.deep_view(),
            ),
            Err(e) => e == DiscoveryError::NoProfilesFound,
        },
{
    let found = locate_without_repeats(records, data_folder);
    let grouped = defaults_then_others(&found);
    let ordered = order_by_hint(grouped, order_hint);
    proof {
        lemma_resolved_len(records.deep_view(), data_folder@, order_hint.deep_view());
    }
    if ordered.len() == 0 {
        Err(DiscoveryError::NoProfilesFound)
    } else {
        Ok(ordered)
    }
}

} // verus!
