//! Leaving out the profiles whose directory is missing or as good as empty.

use crate::browser_profile::{BrowserProfile, ProfileView};
use vstd::prelude::*;

verus! {

/// The least number of files and directories that a profile directory must
/// hold to count as used. A directory with fewer was set up and never used.
pub const MIN_PROFILE_ENTRIES: usize = 4;

/// What looking at a profile directory gave.
#[derive(Clone, Copy, Debug, PartialEq, Eq, Structural)]
pub enum DirectoryProbe {
    /// Nothing is at the path.
    Missing,
    /// Something is there, and it could not be listed.
    Unreadable,
    /// It was listed and holds this many files and directories.
    Listed(usize),
}

/// The directory that gave `probe` is worth offering.
pub open spec fn is_usable(probe: DirectoryProbe) -> bool {
    match probe {
        DirectoryProbe::Listed(entries) => entries >= MIN_PROFILE_ENTRIES,
        _ => false,
    }
}

/// The profiles of `profiles` whose probe, at the same index, is usable.
/// A profile without a probe is left out.
pub open spec fn retained(profiles: Seq<ProfileView>, probes: Seq<DirectoryProbe>) -> Seq<
    ProfileView,
>
    decreases profiles.len(),
{
    if profiles.len() == 0 {
        profiles
    } else {
        let front = retained(profiles.drop_last(), probes);
        let last = profiles.len() - 1;
        if last < probes.len() && is_usable(probes[last]) {
            front.push(profiles.last())
        } else {
            front
        }
    }
}

/// Whether a profile directory is worth offering.
///
/// It is not when nothing is at the path, when the directory cannot be
/// listed, or when it holds fewer than `MIN_PROFILE_ENTRIES` entries.
pub fn validate_profile_dir(probe: DirectoryProbe) -> (valid: bool)
    ensures
        valid == is_usable(probe),
{
    match probe {
        DirectoryProbe::Listed(entries) => entries >= MIN_PROFILE_ENTRIES,
        _ => false,
    }
}

/// Keeps the profiles whose directory is worth offering, in their order.
///
/// `probes[i]` is what looking at the directory of `profiles[i]` gave.
pub fn retain_valid(profiles: Vec<BrowserProfile>, probes: &Vec<DirectoryProbe>) -> (kept: Vec<
    BrowserProfile,
>)
    ensures
        kept.deep_view() == retained(profiles.deep_view(), probes@),
{
    let ghost all = profiles.deep_view();
    let mut kept: Vec<BrowserProfile> = Vec::new();
    let mut i: usize = 0;
    assert(all.take(0) =~= Seq::<ProfileView>::empty());
    assert(kept.deep_view() =~= retained(all.take(0), probes@));
    while i < profiles.len()
        invariant
            i <= profiles.len(),
            all == profiles.deep_view(),
            kept.deep_view() == retained(all.take(i as int), probes@),
        decreases profiles.len() - i,
    {
        proof {
            let next = all.take(i + 1);
            assert(next.drop_last() == all.take(i as int));
            assert(next.last() == all[i as int]);
        }
        if i < probes.len() && validate_profile_dir(probes[i]) {
            let ghost before = kept.deep_view();
            kept.push(profiles[i].duplicate());
            assert(kept.deep_view() =~= before.push(all[i as int]));
        }
        i = i + 1;
    }
    assert(all.take(profiles.len() as int) == all);
    kept
}

/// A directory with no entry or one entry is left out, and one with at least
/// `MIN_PROFILE_ENTRIES` entries is kept.
pub proof fn lemma_validation_threshold(entries: usize)
    ensures
        entries <= 1 ==> !is_usable(DirectoryProbe::Listed(entries)),
        entries >= MIN_PROFILE_ENTRIES ==> is_usable(DirectoryProbe::Listed(entries)),
        !is_usable(DirectoryProbe::Missing),
        !is_usable(DirectoryProbe::Unreadable),
{
}

/// Validation only leaves profiles out: what is kept was there before, and
/// nothing is kept twice over.
pub proof fn lemma_retained_is_part(profiles: Seq<ProfileView>, probes: Seq<DirectoryProbe>)
    ensures
        retained(profiles, probes).len() <= profiles.len(),
        forall|i: int|
            0 <= i < retained(profiles, probes).len() ==> profiles.contains(
                #[trigger] retained(profiles, probes)[i],
            ),
    decreases profiles.len(),
{
    if profiles.len() > 0 {
        let front = profiles.drop_last();
        lemma_retained_is_part(front, probes);
        let out = retained(profiles, probes);
        assert forall|i: int| 0 <= i < out.len() implies profiles.contains(#[trigger] out[i]) by {
            if i < retained(front, probes).len() {
                let x = retained(front, probes)[i];
                assert(front.contains(x));
                let k = choose|k: int| 0 <= k < front.len() && front[k] == x;
                assert(profiles[k] == x);
            } else {
                assert(profiles[profiles.len() - 1] == out[i]);
            }
        }
    }
}

} // verus!
