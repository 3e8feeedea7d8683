//! Which profiles are ticked when the list is first shown.

use crate::browser_profile::{BrowserProfile, ProfileView};
use crate::profiles::resolver::{first_named, lemma_first_named, position_named};
use vstd::prelude::*;

verus! {

/// For each name of `hint`, in order, the index of the first profile of that
/// name. A name that no profile has contributes nothing.
pub open spec fn matched_indices(profiles: Seq<ProfileView>, hint: Seq<Seq<char>>) -> Seq<int>
    decreases hint.len(),
{
    if hint.len() == 0 {
        Seq::empty()
    } else {
        let front = matched_indices(profiles, hint.drop_last());
        match first_named(profiles, hint.last()) {
            Some(i) => front.push(i),
            None => front,
        }
    }
}

/// The indices `0, 1, ..` below `n`, in order.
pub open spec fn all_indices(n: nat) -> Seq<int> {
    Seq::new(n, |i: int| i)
}

/// The indices ticked at first: those that `hint` names, or all of them when
/// it names none.
pub open spec fn preselection(profiles: Seq<ProfileView>, hint: Seq<Seq<char>>) -> Seq<int> {
    let matched = matched_indices(profiles, hint);
    if matched.len() == 0 {
        all_indices(profiles.len())
    } else {
        matched
    }
}

/// The indices in `v`, as mathematical integers.
pub open spec fn as_ints(v: Seq<usize>) -> Seq<int> {
    v.map_values(|i: usize| i as int)
}

/// The indices to tick at first.
///
/// These are the positions of the profiles that `active_hint` names, in the
/// order of the names. When the hint is empty, or none of its names is the
/// name of a profile, every index is ticked. The list of profiles itself is
/// never cut down by this.
pub fn preselect(profiles: &Vec<BrowserProfile>, active_hint: &Vec<String>) -> (ticked: Vec<usize>)
    ensures
        as_ints(ticked@) == preselection(profiles.deep_view(), active_hint.deep_view()),
{
    let ghost views = profiles.deep_view();
    let ghost names = active_hint.deep_view();
    let mut ticked: Vec<usize> = Vec::new();
    let mut k: usize = 0;
    assert(names.take(0) =~= Seq::<Seq<char>>::empty());
    assert(as_ints(ticked@) =~= matched_indices(views, names.take(0)));
    while k < active_hint.len()
        invariant
            k <= active_hint.len(),
            views == profiles.deep_view(),
            names == active_hint.deep_view(),
            as_ints(ticked@) == matched_indices(views, names.take(k as int)),
        decreases active_hint.len() - k,
    {
        proof {
            let next = names.take(k + 1);
            assert(next.drop_last() == names.take(k as int));
            assert(next.last() == active_hint[k as int]@);
        }
        match position_named(profiles, active_hint[k].as_str()) {
            Some(i) => {
                let ghost before = as_ints(ticked@);
                ticked.push(i);
                assert(as_ints(ticked@) =~= before.push(i as int));
            },
            None => {},
        }
        k = k + 1;
    }
    assert(names.take(active_hint.len() as int) == names);
    if ticked.len() == 0 {
        let mut i: usize = 0;
        while i < profiles.len()
            invariant
                i <= profiles.len(),
                views == profiles.deep_view(),
                as_ints(ticked@) == all_indices(i as nat),
            decreases profiles.len() - i,
        {
            let ghost before = as_ints(ticked@);
            ticked.push(i);
            assert(as_ints(ticked@) =~= before.push(i as int));
            assert(all_indices((i + 1) as nat) =~= all_indices(i as nat).push(i as int));
            i = i + 1;
        }
    }
    ticked
}

/// With an empty hint every profile is ticked.
pub proof fn lemma_empty_hint_ticks_all(profiles: Seq<ProfileView>, hint: Seq<Seq<char>>)
    requires
        hint.len() == 0,
    ensures
        preselection(profiles, hint) == all_indices(profiles.len()),
{
}

/// With a hint of which no name is the name of a profile, every profile is ticked.
pub proof fn lemma_unmatched_hint_ticks_all(profiles: Seq<ProfileView>, hint: Seq<Seq<char>>)
    requires
        forall|k: int| 0 <= k < hint.len() ==> first_named(profiles, #[trigger] hint[k]) is None,
    ensures
        preselection(profiles, hint) == all_indices(profiles.len()),
{
    lemma_unmatched(profiles, hint);
}

proof fn lemma_unmatched(profiles: Seq<ProfileView>, hint: Seq<Seq<char>>)
    requires
        forall|k: int| 0 <= k < hint.len() ==> first_named(profiles, #[trigger] hint[k]) is None,
    ensures
        matched_indices(profiles, hint).len() == 0,
    decreases hint.len(),
{
    if hint.len() > 0 {
        let front = hint.drop_last();
        assert forall|k: int| 0 <= k < front.len() implies first_named(
            profiles,
            #[trigger] front[k],
        ) is None by {
            assert(front[k] == hint[k]);
        }
        lemma_unmatched(profiles, front);
        assert(hint.last() == hint[hint.len() - 1]);
    }
}

/// Every ticked index is the index of a profile, and where a hint matched, it
/// is the index of the first profile with the name in the hint.
pub proof fn lemma_preselection_in_range(profiles: Seq<ProfileView>, hint: Seq<Seq<char>>)
    ensures
        forall|k: int|
            0 <= k < preselection(profiles, hint).len() ==> 0 <= #[trigger] preselection(
                profiles,
                hint,
            )[k] < profiles.len(),
{
    lemma_matched_in_range(profiles, hint);
    let ticked = preselection(profiles, hint);
    assert forall|k: int| 0 <= k < ticked.len() implies 0 <= #[trigger] ticked[k]
        < profiles.len() by {
        if matched_indices(profiles, hint).len() == 0 {
            assert(ticked == all_indices(profiles.len()));
            assert(ticked[k] == k);
        }
    }
}

proof fn lemma_matched_in_range(profiles: Seq<ProfileView>, hint: Seq<Seq<char>>)
    ensures
        forall|k: int|
            0 <= k < matched_indices(profiles, hint).len() ==> 0 <= #[trigger] matched_indices(
                profiles,
                hint,
            )[k] < profiles.len(),
    decreases hint.len(),
{
    if hint.len() > 0 {
        let front = matched_indices(profiles, hint.drop_last());
        let out = matched_indices(profiles, hint);
        lemma_matched_in_range(profiles, hint.drop_last());
        lemma_first_named(profiles, hint.last());
        assert forall|k: int| 0 <= k < out.len() implies 0 <= #[trigger] out[k]
            < profiles.len() by {
            if k < front.len() {
                assert(out[k] == front[k]);
            }
        }
    }
}

} // verus!
