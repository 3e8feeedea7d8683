//! What holds of every resolved list.

use crate::browser_profile::ProfileView;
use crate::paths::joined;
use crate::profiles::record::RecordView;
use crate::profiles::resolver::{
    defaults_first, first_named, flagged_default, has_path, lemma_first_named,
    lemma_without_repeats_paths, located, not_flagged_default, ordered_by_hint, profiles_of,
    resolved, without_repeats, Located,
};
use vstd::multiset::Multiset;
use vstd::prelude::*;
use vstd::seq_lib::{lemma_multiset_commutative, to_multiset_build, to_multiset_contains,
    to_multiset_len, to_multiset_remove};

verus! {

/// No two entries of `s` have the same path.
pub open spec fn distinct_paths(s: Seq<ProfileView>) -> bool {
    forall|i: int, j: int| 0 <= i < j < s.len() ==> s[i].path != s[j].path
}

/// Entry `k` of `s` is the first of `s` with its path.
pub open spec fn first_of_its_path(s: Seq<Located>, k: int) -> bool {
    0 <= k < s.len() && forall|j: int|
        0 <= j < k ==> (#[trigger] s[j]).profile.path != s[k].profile.path
}

/// Record `k` is the first of `records` to resolve to its path below `folder`.
pub open spec fn first_discovered(records: Seq<RecordView>, folder: Seq<char>, k: int) -> bool {
    0 <= k < records.len() && forall|j: int|
        0 <= j < k ==> joined(folder, (#[trigger] records[j]).relative_path) != joined(
            folder,
            records[k].relative_path,
        )
}

/// `entry` is an entry of `s` that is the first with its path.
pub open spec fn is_first_entry(s: Seq<Located>, entry: Located) -> bool {
    exists|k: int| #[trigger] first_of_its_path(s, k) && s[k] == entry
}

/// `profile` is what some record resolves to that is the first with its path.
pub open spec fn is_first_record(
    records: Seq<RecordView>,
    folder: Seq<char>,
    profile: ProfileView,
) -> bool {
    exists|k: int| #[trigger]
        first_discovered(records, folder, k) && profile_of_record(records, folder, k) == profile
}

/// Some profile of `profiles` has the path `path`.
pub open spec fn offers_path(profiles: Seq<ProfileView>, path: Seq<char>) -> bool {
    exists|i: int| 0 <= i < profiles.len() && (#[trigger] profiles[i]).path == path
}

/// The profile that record `k` resolves to below `folder`.
pub open spec fn profile_of_record(records: Seq<RecordView>, folder: Seq<char>, k: int) -> ProfileView {
    ProfileView { name: records[k].name, path: joined(folder, records[k].relative_path) }
}

/// Putting the defaults first keeps every entry, each as often as before.
proof fn lemma_defaults_first_keeps(s: Seq<Located>)
    ensures
        profiles_of(defaults_first(s)).to_multiset() == profiles_of(s).to_multiset(),
    decreases s.len(),
{
    let yes = flagged_default();
    let no = not_flagged_default();
    if s.len() == 0 {
        assert(s.filter(yes) =~= s) by {
            reveal(Seq::filter);
        }
        assert(s.filter(no) =~= s) by {
            reveal(Seq::filter);
        }
        assert(profiles_of(defaults_first(s)) =~= profiles_of(s));
    } else {
        let front = s.drop_last();
        let e = s.last();
        assert(s == front.push(e));
        lemma_defaults_first_keeps(front);
        front.lemma_filter_push(e, yes);
        front.lemma_filter_push(e, no);
        let a = profiles_of(front.filter(yes));
        let b = profiles_of(front.filter(no));
        assert(profiles_of(defaults_first(front)) =~= a + b);
        assert(profiles_of(s) =~= profiles_of(front).push(e.profile));
        lemma_multiset_commutative(a, b);
        to_multiset_build(profiles_of(front), e.profile);
        if e.is_default {
            assert(profiles_of(defaults_first(s)) =~= a.push(e.profile) + b);
            lemma_multiset_commutative(a.push(e.profile), b);
            to_multiset_build(a, e.profile);
            assert(a.to_multiset().insert(e.profile).add(b.to_multiset()) =~= a.to_multiset().add(
                b.to_multiset(),
            ).insert(e.profile));
        } else {
            assert(profiles_of(defaults_first(s)) =~= a + b.push(e.profile));
            lemma_multiset_commutative(a, b.push(e.profile));
            to_multiset_build(b, e.profile);
            assert(a.to_multiset().add(b.to_multiset().insert(e.profile)) =~= a.to_multiset().add(
                b.to_multiset(),
            ).insert(e.profile));
        }
    }
}

/// Reordering by a hint keeps every profile, each as often as before.
pub proof fn lemma_ordered_by_hint_keeps(profiles: Seq<ProfileView>, hint: Seq<Seq<char>>)
    ensures
        ordered_by_hint(profiles, hint).to_multiset() == profiles.to_multiset(),
        ordered_by_hint(profiles, hint).len() == profiles.len(),
    decreases hint.len(),
{
    if hint.len() > 0 {
        lemma_first_named(profiles, hint[0]);
        match first_named(profiles, hint[0]) {
            Some(i) => {
                let rest = ordered_by_hint(profiles.remove(i), hint.drop_first());
                lemma_ordered_by_hint_keeps(profiles.remove(i), hint.drop_first());
                lemma_multiset_commutative(seq![profiles[i]], rest);
                to_multiset_remove(profiles, i);
                to_multiset_build(Seq::<ProfileView>::empty(), profiles[i]);
                assert(Seq::<ProfileView>::empty().push(profiles[i]) =~= seq![profiles[i]]);
                assert(Seq::<ProfileView>::empty().to_multiset() =~= Multiset::<
                    ProfileView,
                >::empty()) by {
                    to_multiset_len(Seq::<ProfileView>::empty());
                }
                to_multiset_contains(profiles, profiles[i]);
                assert(profiles.contains(profiles[i]));
                assert(seq![profiles[i]].to_multiset().add(
                    profiles.to_multiset().remove(profiles[i]),
                ) =~= profiles.to_multiset());
            },
            None => {
                lemma_ordered_by_hint_keeps(profiles, hint.drop_first());
            },
        }
    }
    to_multiset_len(ordered_by_hint(profiles, hint));
    to_multiset_len(profiles);
}

/// Two lists with the same entries, each as often: if no two entries of the
/// one share a path, none of the other do, and each holds what the other holds.
proof fn lemma_same_entries(a: Seq<ProfileView>, b: Seq<ProfileView>)
    requires
        a.to_multiset() == b.to_multiset(),
        distinct_paths(a),
    ensures
        distinct_paths(b),
        forall|x: ProfileView| a.contains(x) <==> b.contains(x),
        a.len() == b.len(),
{
    to_multiset_len(a);
    to_multiset_len(b);
    assert forall|x: ProfileView| a.contains(x) <==> b.contains(x) by {
        to_multiset_contains(a, x);
        to_multiset_contains(b, x);
    }
    assert(a.no_duplicates());
    a.lemma_multiset_has_no_duplicates();
    b.lemma_multiset_has_no_duplicates_conv();
    assert forall|i: int, j: int| 0 <= i < j < b.len() implies b[i].path != b[j].path by {
        assert(b[i] != b[j]);
        assert(b.contains(b[i]));
        assert(b.contains(b[j]));
        let ia = choose|k: int| 0 <= k < a.len() && a[k] == b[i];
        let ja = choose|k: int| 0 <= k < a.len() && a[k] == b[j];
        assert(ia != ja);
        if ia < ja {
            assert(a[ia].path != a[ja].path);
        } else {
            assert(a[ja].path != a[ia].path);
        }
    }
}

/// After repeats are removed no two entries share a path, each entry is the
/// first of the input with its path, and every such first entry is there.
proof fn lemma_without_repeats(s: Seq<Located>)
    ensures
        distinct_paths(profiles_of(without_repeats(s))),
        without_repeats(s).len() <= s.len(),
        s.len() > 0 ==> without_repeats(s).len() > 0,
        forall|i: int|
            0 <= i < without_repeats(s).len() ==> is_first_entry(s, #[trigger] without_repeats(s)[i]),
        forall|k: int|
            #[trigger] first_of_its_path(s, k) ==> without_repeats(s).contains(s[k]),
    decreases s.len(),
{
    if s.len() > 0 {
        let front = s.drop_last();
        let e = s.last();
        let kept = without_repeats(front);
        let out = without_repeats(s);
        lemma_without_repeats(front);
        lemma_without_repeats_paths(front, e.profile.path);
        if has_path(front, e.profile.path) {
            let j = choose|j: int|
                0 <= j < front.len() && (#[trigger] front[j]).profile.path == e.profile.path;
            assert(front.len() > 0);
            assert(out == kept);
        } else {
            assert(out == kept.push(e));
        }
        assert(out.len() > 0);
        assert forall|k: int| first_of_its_path(front, k) implies first_of_its_path(s, k) by {
            assert forall|j: int| 0 <= j < k implies (#[trigger] s[j]).profile.path
                != s[k].profile.path by {
                assert(front[j] == s[j]);
            }
        }
        assert forall|k: int| first_of_its_path(s, k) && k < front.len() implies first_of_its_path(
            front,
            k,
        ) by {
            assert forall|j: int| 0 <= j < k implies (#[trigger] front[j]).profile.path
                != front[k].profile.path by {
                assert(front[j] == s[j]);
            }
        }
        assert forall|i: int| 0 <= i < out.len() implies is_first_entry(s, #[trigger] out[i]) by {
            if i < kept.len() {
                assert(is_first_entry(front, kept[i]));
                let k = choose|k: int| #[trigger] first_of_its_path(front, k) && front[k] == kept[i];
                assert(first_of_its_path(s, k) && s[k] == out[i]);
            } else {
                let k = s.len() - 1;
                assert forall|j: int| 0 <= j < k implies (#[trigger] s[j]).profile.path
                    != s[k].profile.path by {
                    assert(front[j] == s[j]);
                }
                assert(first_of_its_path(s, k) && s[k] == out[i]);
            }
        }
        assert forall|k: int| #[trigger] first_of_its_path(s, k) implies out.contains(s[k]) by {
            if k < front.len() {
                assert(first_of_its_path(front, k));
                assert(kept.contains(front[k]));
                let i = choose|i: int| 0 <= i < kept.len() && kept[i] == front[k];
                assert(out[i] == s[k]);
            } else {
                if has_path(front, e.profile.path) {
                    let j = choose|j: int|
                        0 <= j < front.len() && (#[trigger] front[j]).profile.path
                            == e.profile.path;
                    assert(s[j] == front[j]);
                    assert(false);
                }
                assert(out[out.len() - 1] == s[k]);
            }
        }
        if !has_path(front, e.profile.path) {
            let p = profiles_of(out);
            assert forall|i: int, j: int| 0 <= i < j < p.len() implies p[i].path != p[j].path by {
                if j < kept.len() {
                    assert(profiles_of(kept)[i].path != profiles_of(kept)[j].path);
                } else {
                    assert(kept[i].profile.path == p[i].path);
                    if p[i].path == e.profile.path {
                        assert(has_path(kept, e.profile.path));
                    }
                }
            }
        }
    } else {
        assert(without_repeats(s).len() == 0);
    }
}

/// The resolved list is as long as the list of distinct paths, and it is empty
/// only when there was no record.
pub proof fn lemma_resolved_len(records: Seq<RecordView>, folder: Seq<char>, hint: Seq<Seq<char>>)
    ensures
        resolved(records, folder, hint).len() == without_repeats(located(records, folder)).len(),
        resolved(records, folder, hint).len() <= records.len(),
        records.len() > 0 ==> resolved(records, folder, hint).len() > 0,
{
    let found = without_repeats(located(records, folder));
    lemma_without_repeats(located(records, folder));
    lemma_defaults_first_keeps(found);
    lemma_ordered_by_hint_keeps(profiles_of(defaults_first(found)), hint);
    to_multiset_len(profiles_of(defaults_first(found)));
    to_multiset_len(profiles_of(found));
}

/// Every path is resolved to exactly one profile, that of the record which
/// was discovered first with that path.
///
/// No two profiles of the resolved list share a path. Each of them is what
/// the first record with its path resolves to. And the path of every record
/// is the path of some profile of the list.
pub proof fn lemma_one_profile_per_path(
    records: Seq<RecordView>,
    folder: Seq<char>,
    hint: Seq<Seq<char>>,
)
    ensures
        distinct_paths(resolved(records, folder, hint)),
        forall|i: int|
            0 <= i < resolved(records, folder, hint).len() ==> is_first_record(
                records,
                folder,
                #[trigger] resolved(records, folder, hint)[i],
            ),
        forall|k: int|
            0 <= k < records.len() ==> offers_path(
                resolved(records, folder, hint),
                joined(folder, (#[trigger] records[k]).relative_path),
            ),
{
    let all = located(records, folder);
    let found = without_repeats(all);
    let base = profiles_of(found);
    let grouped = profiles_of(defaults_first(found));
    let out = resolved(records, folder, hint);
    lemma_without_repeats(all);
    lemma_defaults_first_keeps(found);
    lemma_ordered_by_hint_keeps(grouped, hint);
    lemma_same_entries(base, out);
    assert forall|i: int| 0 <= i < out.len() implies is_first_record(
        records,
        folder,
        #[trigger] out[i],
    ) by {
        assert(out.contains(out[i]));
        let b = choose|b: int| 0 <= b < base.len() && base[b] == out[i];
        assert(is_first_entry(all, found[b]));
        let k = choose|k: int| #[trigger] first_of_its_path(all, k) && all[k] == found[b];
        assert forall|j: int| 0 <= j < k implies joined(
            folder,
            (#[trigger] records[j]).relative_path,
        ) != joined(folder, records[k].relative_path) by {
            assert(all[j].profile.path != all[k].profile.path);
        }
        assert(first_discovered(records, folder, k));
    }
    assert forall|k: int| 0 <= k < records.len() implies offers_path(
        out,
        joined(folder, (#[trigger] records[k]).relative_path),
    ) by {
        let path = joined(folder, records[k].relative_path);
        assert(all[k].profile.path == path);
        assert(has_path(all, path));
        lemma_without_repeats_paths(all, path);
        let b = choose|b: int| 0 <= b < found.len() && (#[trigger] found[b]).profile.path == path;
        assert(base[b] == found[b].profile);
        assert(base.contains(base[b]));
        assert(out.contains(base[b]));
        let i = choose|i: int| 0 <= i < out.len() && out[i] == base[b];
        assert(out[i].path == path);
    }
}

/// Once the defaults are put first, no entry that is not a default stands
/// before one that is.
pub proof fn lemma_defaults_precede_others(s: Seq<Located>)
    ensures
        forall|i: int, j: int|
            0 <= i < j < defaults_first(s).len() && (#[trigger] defaults_first(s)[j]).is_default
                ==> (#[trigger] defaults_first(s)[i]).is_default,
{
    let yes = s.filter(flagged_default());
    let no = s.filter(not_flagged_default());
    let out = defaults_first(s);
    s.filter_lemma(flagged_default());
    s.filter_lemma(not_flagged_default());
    assert forall|i: int, j: int|
        0 <= i < j < out.len() && (#[trigger] out[j]).is_default implies (#[trigger] out[i]).is_default by {
        if j >= yes.len() {
            assert(out[j] == no[j - yes.len()]);
            assert(not_flagged_default()(no[j - yes.len()]));
        }
        assert(out[i] == yes[i]);
        assert(flagged_default()(yes[i]));
    }
}

/// With no hint the resolved list is the one with the defaults first.
pub proof fn lemma_empty_hint_keeps_order(profiles: Seq<ProfileView>, hint: Seq<Seq<char>>)
    requires
        hint.len() == 0,
    ensures
        ordered_by_hint(profiles, hint) == profiles,
{
}

} // verus!
