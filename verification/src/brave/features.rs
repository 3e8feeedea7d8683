//! The lists of features that Brave keeps in its feature state, each a
//! text with commas between the names.

use crate::brave::resources::{replace_symbols, symbols_replaced};
use crate::text::{
    is_listed, join_with, joined_with, lines_of, lists, non_empty, non_empty_lines, pieces_of,
    split_on, str_eq,
};
use vstd::prelude::*;

verus! {

/// `list` names `feature`, as it stands or as Brave writes it.
pub open spec fn names_feature(list: Seq<Seq<char>>, feature: Seq<char>) -> bool {
    lists(list, feature) || lists(list, symbols_replaced(feature))
}

/// `existing` followed by each of `wanted` that it does not name yet.
pub open spec fn with_disabled(existing: Seq<Seq<char>>, wanted: Seq<Seq<char>>) -> Seq<Seq<char>>
    decreases wanted.len(),
{
    if wanted.len() == 0 {
        existing
    } else {
        let front = with_disabled(existing, wanted.drop_last());
        if names_feature(front, wanted.last()) {
            front
        } else {
            front.push(wanted.last())
        }
    }
}

/// `feature` is one of `removed`, as it stands or as Brave writes it.
pub open spec fn is_removed(feature: Seq<char>, removed: Seq<Seq<char>>) -> bool {
    exists|k: int|
        0 <= k < removed.len() && (feature == #[trigger] removed[k] || feature == symbols_replaced(
            removed[k],
        ))
}

/// `enabled` without the features that are among `removed`.
pub open spec fn without_removed(enabled: Seq<Seq<char>>, removed: Seq<Seq<char>>) -> Seq<
    Seq<char>,
>
    decreases enabled.len(),
{
    if enabled.len() == 0 {
        enabled
    } else if is_removed(enabled.last(), removed) {
        without_removed(enabled.drop_last(), removed)
    } else {
        without_removed(enabled.drop_last(), removed).push(enabled.last())
    }
}

/// The features that a list names: those of `base` and, where search
/// suggestions are to be off, those of `prefetch` after them.
pub open spec fn listed_features(base: Seq<char>, prefetch: Seq<char>, search_suggestions: bool) -> Seq<
    Seq<char>,
> {
    if search_suggestions {
        non_empty(lines_of(base))
    } else {
        non_empty(lines_of(base)) + non_empty(lines_of(prefetch))
    }
}

/// Reads a list of features, one name per line.
///
/// The features that have to do with prefetching only count where search
/// suggestions are to be off.
pub fn feature_list(base: &str, prefetch: &str, search_suggestions: bool) -> (r: Vec<String>)
    ensures
        r.deep_view() == listed_features(base@, prefetch@, search_suggestions),
{
    let mut r = non_empty_lines(base);
    if !search_suggestions {
        let mut more = non_empty_lines(prefetch);
        let ghost first = r.deep_view();
        let ghost second = more.deep_view();
        r.append(&mut more);
        assert(r.deep_view() =~= first + second);
    }
    r
}

/// Whether `feature` is one of `removed`, as it stands or as Brave writes it.
pub fn is_removed_feature(feature: &str, removed: &Vec<String>) -> (r: bool)
    ensures
        r == is_removed(feature@, removed.deep_view()),
{
    let mut k: usize = 0;
    while k < removed.len()
        invariant
            k <= removed.len(),
            forall|j: int|
                0 <= j < k ==> feature@ != #[trigger] removed.deep_view()[j] && feature@
                    != symbols_replaced(removed.deep_view()[j]),
        decreases removed.len() - k,
    {
        let written = replace_symbols(removed[k].as_str());
        if str_eq(feature, removed[k].as_str()) || str_eq(feature, written.as_str()) {
            assert(feature@ == removed.deep_view()[k as int] || feature@ == symbols_replaced(
                removed.deep_view()[k as int],
            ));
            return true;
        }
        k = k + 1;
    }
    false
}

/// The text of the disabled features once each of `wanted` is among them.
///
/// `current` is the text as it stands. A feature that it names already, as
/// it stands or as Brave writes it, is not added again.
pub fn disable_features(current: &str, wanted: &Vec<String>) -> (r: String)
    ensures
        r@ == joined_with(with_disabled(pieces_of(current@, ','), wanted.deep_view()), ","@),
{
    let mut list = split_on(current, ',');
    let ghost existing = list.deep_view();
    let ghost names = wanted.deep_view();
    let mut i: usize = 0;
    assert(names.take(0) =~= Seq::<Seq<char>>::empty());
    while i < wanted.len()
        invariant
            i <= wanted.len(),
            names == wanted.deep_view(),
            list.deep_view() == with_disabled(existing, names.take(i as int)),
        decreases wanted.len() - i,
    {
        proof {
            let next = names.take(i + 1);
            assert(next.drop_last() == names.take(i as int));
            assert(next.last() == names[i as int]);
        }
        let written = replace_symbols(wanted[i].as_str());
        if !is_listed(&list, wanted[i].as_str()) && !is_listed(&list, written.as_str()) {
            let ghost before = list.deep_view();
            list.push(wanted[i].clone());
            assert(list.deep_view() =~= before.push(names[i as int]));
        }
        i = i + 1;
    }
    assert(names.take(wanted.len() as int) == names);
    join_with(&list, ",")
}

/// The text of the enabled features once none of `removed` is among them.
pub fn enable_features(current: &str, removed: &Vec<String>) -> (r: String)
    ensures
        r@ == joined_with(without_removed(pieces_of(current@, ','), removed.deep_view()), ","@),
{
    let enabled = split_on(current, ',');
    let ghost all = enabled.deep_view();
    let mut kept: Vec<String> = Vec::new();
    let mut i: usize = 0;
    assert(all.take(0) =~= Seq::<Seq<char>>::empty());
    assert(kept.deep_view() =~= without_removed(all.take(0), removed.deep_view()));
    while i < enabled.len()
        invariant
            i <= enabled.len(),
            all == enabled.deep_view(),
            kept.deep_view() == without_removed(all.take(i as int), removed.deep_view()),
        decreases enabled.len() - i,
    {
        proof {
            let next = all.take(i + 1);
            assert(next.drop_last() == all.take(i as int));
            assert(next.last() == all[i as int]);
        }
        if !is_removed_feature(enabled[i].as_str(), removed) {
            let ghost before = kept.deep_view();
            kept.push(enabled[i].clone());
            assert(kept.deep_view() =~= before.push(all[i as int]));
        }
        i = i + 1;
    }
    assert(all.take(enabled.len() as int) == all);
    join_with(&kept, ",")
}

/// Whether a feature that is enabled for trial stays so: it does unless it
/// is one of `removed`.
pub fn keeps_lab_feature(feature: &str, removed: &Vec<String>) -> (r: bool)
    ensures
        r == !lists(removed.deep_view(), feature@),
{
    !is_listed(removed, feature)
}

} // verus!
