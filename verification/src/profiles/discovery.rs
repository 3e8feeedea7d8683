//! From the text of a metadata store to the profiles that are offered.
//!
//! The steps alternate with looks at the disk, which the caller takes: read
//! the store, resolve its records, look at each resolved directory, keep the
//! usable ones and tick those that were in use last.

use crate::browser_profile::{BrowserProfile, ProfileView};
use crate::metadata::chromium::{chromium_metadata, read_chromium_metadata};
use crate::metadata::gecko::{gecko_metadata, read_gecko_metadata};
use crate::json::tree::Json;
use crate::metadata::store::{MetadataView, ProfileMetadata};
use crate::paths::{join_path, joined};
use crate::profiles::preselect::{as_ints, preselect, preselection};
use crate::profiles::record::DiscoveryError;
use crate::profiles::resolver::{resolve_profiles, resolved};
use crate::profiles::validator::{retain_valid, retained, DirectoryProbe};
use vstd::prelude::*;

verus! {

/// What `Candidates` stands for in contracts.
pub struct CandidatesView {
    pub profiles: Seq<ProfileView>,
    pub active_hint: Seq<Seq<char>>,
}

/// The resolved profiles of a store, not yet looked at on disk, with the
/// names of the profiles that were in use last.
pub struct Candidates {
    pub profiles: Vec<BrowserProfile>,
    pub active_hint: Vec<String>,
}

impl DeepView for Candidates {
    type V = CandidatesView;

    open spec fn deep_view(&self) -> CandidatesView {
        CandidatesView {
            profiles: self.profiles.deep_view(),
            active_hint: self.active_hint.deep_view(),
        }
    }
}

/// What `Discovery` stands for in contracts.
pub struct DiscoveryView {
    pub profiles: Seq<ProfileView>,
    pub preselected: Seq<int>,
}

/// The profiles that are offered and the indices that are ticked at first.
pub struct Discovery {
    pub profiles: Vec<BrowserProfile>,
    pub preselected: Vec<usize>,
}

impl DeepView for Discovery {
    type V = DiscoveryView;

    open spec fn deep_view(&self) -> DiscoveryView {
        DiscoveryView {
            profiles: self.profiles.deep_view(),
            preselected: as_ints(self.preselected@),
        }
    }
}

/// The candidates that a store gives below `folder`. A store that could not
/// be read gives its own error, and one without a record gives
/// `NoProfilesFound`.
pub open spec fn candidates_of(
    metadata: Result<MetadataView, DiscoveryError>,
    folder: Seq<char>,
) -> Result<CandidatesView, DiscoveryError> {
    match metadata {
        Ok(m) => if m.records.len() > 0 {
            Ok(
                CandidatesView {
                    profiles: resolved(m.records, folder, m.order_hint),
                    active_hint: m.active_hint,
                },
            )
        } else {
            Err(DiscoveryError::NoProfilesFound)
        },
        Err(e) => Err(e),
    }
}

/// What is offered of `candidates` once their directories were looked at:
/// the usable ones, with those ticked that the hint names, or
/// `NoProfilesFound` where none is usable.
pub open spec fn offered(candidates: CandidatesView, probes: Seq<DirectoryProbe>) -> Result<
    DiscoveryView,
    DiscoveryError,
> {
    let usable = retained(candidates.profiles, probes);
    if usable.len() > 0 {
        Ok(
            DiscoveryView {
                profiles: usable,
                preselected: preselection(usable, candidates.active_hint),
            },
        )
    } else {
        Err(DiscoveryError::NoProfilesFound)
    }
}

/// The single profile that stands in where none could be discovered: the one
/// named `Default` in the folder `Default` of the data folder, ticked.
pub open spec fn stand_in(folder: Seq<char>) -> DiscoveryView {
    DiscoveryView {
        profiles: seq![ProfileView { name: "Default"@, path: joined(folder, "Default"@) }],
        preselected: seq![0int],
    }
}

/// The profiles that `chosen` picks from `profiles`, in the order of
/// `chosen`. An index that is none of the list picks nothing.
pub open spec fn picked(profiles: Seq<ProfileView>, chosen: Seq<usize>) -> Seq<ProfileView>
    decreases chosen.len(),
{
    if chosen.len() == 0 {
        Seq::empty()
    } else if chosen.last() < profiles.len() {
        picked(profiles, chosen.drop_last()).push(profiles[chosen.last() as int])
    } else {
        picked(profiles, chosen.drop_last())
    }
}

/// Whether the user is asked which profiles to work on. They are not when
/// every question is answered with yes, nor when there is one profile only.
pub open spec fn is_asked(auto_confirm: bool, count: nat) -> bool {
    !auto_confirm && count != 1
}

/// What the outcome of reading a store stands for in contracts.
pub open spec fn outcome_view(metadata: Result<ProfileMetadata, DiscoveryError>) -> Result<
    MetadataView,
    DiscoveryError,
> {
    match metadata {
        Ok(m) => Ok(m.deep_view()),
        Err(e) => Err(e),
    }
}

/// Resolves the records of a store that was read, and passes on the error
/// of one that was not.
fn resolve_store(metadata: Result<ProfileMetadata, DiscoveryError>, data_folder: &str) -> (r:
    Result<Candidates, DiscoveryError>)
    ensures
        match r {
            Ok(candidates) => candidates_of(outcome_view(metadata), data_folder@) == Ok::<
                CandidatesView,
                DiscoveryError,
            >(candidates.deep_view()),
            Err(e) => candidates_of(outcome_view(metadata), data_folder@) == Err::<
                CandidatesView,
                DiscoveryError,
            >(e),
        },
{
    match metadata {
        Ok(m) => match resolve_profiles(&m.records, data_folder, &m.order_hint) {
            Ok(profiles) => Ok(Candidates { profiles, active_hint: m.active_hint }),
            Err(e) => Err(e),
        },
        Err(e) => Err(e),
    }
}

/// The candidates of a Chromium-family store.
///
/// Fails with `MissingKey` where the store lacks `profile` or `info_cache`,
/// and with `NoProfilesFound` where the cache lists no profile.
pub fn try_to_get_profiles(data_folder: &str, local_state: &Json) -> (r: Result<
    Candidates,
    DiscoveryError,
>)
    ensures
        match r {
            Ok(candidates) => candidates_of(chromium_metadata(*local_state), data_folder@) == Ok::<
                CandidatesView,
                DiscoveryError,
            >(candidates.deep_view()),
            Err(e) => candidates_of(chromium_metadata(*local_state), data_folder@) == Err::<
                CandidatesView,
                DiscoveryError,
            >(e),
        },
{
    let metadata = read_chromium_metadata(local_state);
    resolve_store(metadata, data_folder)
}

/// The candidates of a Gecko-family store, given its text.
///
/// Fails with `Parse` where the text is no INI document, and with
/// `NoProfilesFound` where no section stands for a profile.
pub fn get_profiles(data_folder: &str, text: &str) -> (r: Result<Candidates, DiscoveryError>)
    ensures
        match r {
            Ok(candidates) => candidates_of(gecko_metadata(text@), data_folder@) == Ok::<
                CandidatesView,
                DiscoveryError,
            >(candidates.deep_view()),
            Err(e) => candidates_of(gecko_metadata(text@), data_folder@) == Err::<
                CandidatesView,
                DiscoveryError,
            >(e),
        },
{
    let metadata = read_gecko_metadata(text);
    resolve_store(metadata, data_folder)
}

/// Settles what is offered once each candidate's directory was looked at.
///
/// `probes[i]` is what looking at the directory of the candidate `i` gave.
pub fn offer_profiles(candidates: Candidates, probes: &Vec<DirectoryProbe>) -> (r: Result<
    Discovery,
    DiscoveryError,
>)
    ensures
        match r {
            Ok(discovery) => offered(candidates.deep_view(), probes@) == Ok::<
                DiscoveryView,
                DiscoveryError,
            >(discovery.deep_view()),
            Err(e) => offered(candidates.deep_view(), probes@) == Err::<
                DiscoveryView,
                DiscoveryError,
            >(e),
        },
{
    let profiles = retain_valid(candidates.profiles, probes);
    if profiles.len() == 0 {
        return Err(DiscoveryError::NoProfilesFound);
    }
    let preselected = preselect(&profiles, &candidates.active_hint);
    Ok(Discovery { profiles, preselected })
}

/// The profile that stands in where none could be discovered.
pub fn default_profile(data_folder: &str) -> (profile: BrowserProfile)
    ensures
        profile.deep_view() == (ProfileView {
            name: "Default"@,
            path: joined(data_folder@, "Default"@),
        }),
{
    BrowserProfile::new("Default".to_owned(), join_path(data_folder, "Default"))
}

/// What is offered, whatever the discovery came to: its result where it has
/// one, and the stand-in profile where it failed, whatever the failure.
pub fn or_default(outcome: Result<Discovery, DiscoveryError>, data_folder: &str) -> (r: Discovery)
    ensures
        match outcome {
            Ok(discovery) => r == discovery,
            Err(_) => r.deep_view() == stand_in(data_folder@),
        },
{
    match outcome {
        Ok(discovery) => discovery,
        Err(_) => {
            let mut profiles: Vec<BrowserProfile> = Vec::new();
            profiles.push(default_profile(data_folder));
            let mut preselected: Vec<usize> = Vec::new();
            preselected.push(0);
            let r = Discovery { profiles, preselected };
            assert(r.deep_view().profiles =~= stand_in(data_folder@).profiles);
            assert(r.deep_view().preselected =~= stand_in(data_folder@).preselected);
            r
        },
    }
}

/// Whether the user is asked which profiles to work on.
pub fn needs_prompt(auto_confirm: bool, count: usize) -> (r: bool)
    ensures
        r == is_asked(auto_confirm, count as nat),
{
    !auto_confirm && count != 1
}

/// The profiles to work on.
///
/// Where the user is not asked these are all of them, and `chosen` is not
/// looked at. Where they are asked, these are the ones at the indices they
/// chose, which may be none.
pub fn select_profiles(profiles: Vec<BrowserProfile>, auto_confirm: bool, chosen: &Vec<usize>) -> (r:
    Vec<BrowserProfile>)
    ensures
        r.deep_view() == (if is_asked(auto_confirm, profiles.len() as nat) {
            picked(profiles.deep_view(), chosen@)
        } else {
            profiles.deep_view()
        }),
{
    if !needs_prompt(auto_confirm, profiles.len()) {
        return profiles;
    }
    let ghost all = profiles.deep_view();
    let mut r: Vec<BrowserProfile> = Vec::new();
    let mut k: usize = 0;
    assert(chosen@.take(0) =~= Seq::<usize>::empty());
    assert(r.deep_view() =~= picked(all, chosen@.take(0)));
    while k < chosen.len()
        invariant
            k <= chosen.len(),
            all == profiles.deep_view(),
            r.deep_view() == picked(all, chosen@.take(k as int)),
        decreases chosen.len() - k,
    {
        proof {
            let next = chosen@.take(k + 1);
            assert(next.drop_last() == chosen@.take(k as int));
            assert(next.last() == chosen@[k as int]);
        }
        let i = chosen[k];
        if i < profiles.len() {
            let ghost before = r.deep_view();
            r.push(profiles[i].duplicate());
            assert(r.deep_view() =~= before.push(all[i as int]));
        }
        k = k + 1;
    }
    assert(chosen@.take(chosen.len() as int) == chosen@);
    r
}

/// Whether a profile may be changed: only when no backup was wanted, or the
/// backup that was wanted has succeeded.
pub fn mutation_allowed(backup_wanted: bool, backup_succeeded: bool) -> (r: bool)
    ensures
        r == (!backup_wanted || backup_succeeded),
{
    !backup_wanted || backup_succeeded
}

} // verus!
