//! What holds of every walk, whatever its caller reports.

use crate::archive::skip::skipped;
use crate::archive::walk::{
    advanced, item_of, stacked, step_of, BackupError, EntryView, EventView, ItemView, PhaseView,
    WalkView,
};
use vstd::prelude::*;

verus! {

/// The walk after the steps went as `events` says, one event per step.
pub open spec fn run(walk: WalkView, events: Seq<EventView>) -> WalkView
    decreases events.len(),
{
    if events.len() == 0 {
        walk
    } else {
        run(step_of(walk, events[0]), events.drop_first())
    }
}

/// What the step that `walk` awaits puts into the archive when it goes as
/// `event` says: the entry at hand where it is entered or copied, nothing
/// otherwise.
pub open spec fn entered(walk: WalkView, event: EventView) -> Seq<ItemView> {
    match (walk.phase, event) {
        (PhaseView::AddingDirectory(item), EventView::Completed) => seq![item],
        (PhaseView::AddingFile(item), EventView::Completed) => seq![item],
        _ => Seq::empty(),
    }
}

/// What the steps put into the archive, in order, when they go as `events`
/// says.
pub open spec fn archived(walk: WalkView, events: Seq<EventView>) -> Seq<ItemView>
    decreases events.len(),
{
    if events.len() == 0 {
        Seq::empty()
    } else {
        entered(walk, events[0]) + archived(step_of(walk, events[0]), events.drop_first())
    }
}

/// A name that may stand in the archive: not empty, and no part of the skip
/// list occurs in it.
pub open spec fn clean_name(name: Seq<char>, skip: Seq<Seq<char>>) -> bool {
    name.len() > 0 && !skipped(name, skip)
}

/// Every name of `path` may stand in the archive.
pub open spec fn clean_path(path: Seq<Seq<char>>, skip: Seq<Seq<char>>) -> bool {
    forall|i: int| 0 <= i < path.len() ==> clean_name(#[trigger] path[i], skip)
}

/// The item lies below the profile directory, and neither it nor a
/// directory above it has a name that the skip list keeps out.
pub open spec fn clean(item: ItemView, skip: Seq<Seq<char>>) -> bool {
    item.path.len() > 0 && clean_path(item.path, skip)
}

/// The entry that a walk in this phase works on.
pub open spec fn at_hand(phase: PhaseView) -> Option<ItemView> {
    match phase {
        PhaseView::AddingDirectory(item) => Some(item),
        PhaseView::ListingDirectory(item) => Some(item),
        PhaseView::AddingFile(item) => Some(item),
        _ => None,
    }
}

/// The walk is between the opening and the finalizing.
pub open spec fn is_walking(phase: PhaseView) -> bool {
    at_hand(phase) is Some
}

/// Every entry that the walk works on or has yet to take is clean.
pub open spec fn well_formed(walk: WalkView) -> bool {
    &&& forall|i: int| 0 <= i < walk.pending.len() ==> clean(#[trigger] walk.pending[i], walk.skip)
    &&& match at_hand(walk.phase) {
        Some(item) => clean(item, walk.skip),
        None => true,
    }
}

/// The items of a listing of a clean directory are clean.
proof fn lemma_stacked_clean(entries: Seq<EntryView>, prefix: Seq<Seq<char>>, skip: Seq<Seq<char>>)
    requires
        clean_path(prefix, skip),
    ensures
        forall|i: int|
            0 <= i < stacked(entries, prefix, skip).len() ==> clean(
                #[trigger] stacked(entries, prefix, skip)[i],
                skip,
            ),
    decreases entries.len(),
{
    if entries.len() > 0 {
        lemma_stacked_clean(entries.drop_first(), prefix, skip);
        let rest = stacked(entries.drop_first(), prefix, skip);
        let out = stacked(entries, prefix, skip);
        assert forall|i: int| 0 <= i < out.len() implies clean(#[trigger] out[i], skip) by {
            if i < rest.len() {
                assert(out[i] == rest[i]);
            } else {
                let item = item_of(entries[0], prefix);
                assert(out[i] == item);
                assert forall|k: int| 0 <= k < item.path.len() implies clean_name(
                    #[trigger] item.path[k],
                    skip,
                ) by {
                    if k < prefix.len() {
                        assert(item.path[k] == prefix[k]);
                    }
                }
            }
        }
    }
}

/// Taking the next entry keeps a walk well formed.
proof fn lemma_advanced_well_formed(walk: WalkView)
    requires
        forall|i: int| 0 <= i < walk.pending.len() ==> clean(#[trigger] walk.pending[i], walk.skip),
    ensures
        well_formed(advanced(walk)),
{
    let next = advanced(walk);
    if walk.pending.len() > 0 {
        assert(clean(walk.pending[walk.pending.len() - 1], walk.skip));
        assert forall|i: int| 0 <= i < next.pending.len() implies clean(
            #[trigger] next.pending[i],
            next.skip,
        ) by {
            assert(next.pending[i] == walk.pending[i]);
        }
    }
}

/// A step keeps a walk well formed, and leaves its skip list as it was.
pub proof fn lemma_step_well_formed(walk: WalkView, event: EventView)
    requires
        well_formed(walk),
    ensures
        well_formed(step_of(walk, event)),
        step_of(walk, event).skip == walk.skip,
        step_of(walk, event).root == walk.root,
        step_of(walk, event).destination == walk.destination,
{
    let next = step_of(walk, event);
    match walk.phase {
        PhaseView::OpeningRoot => {
            match event {
                EventView::Listed(entries) => {
                    let top = Seq::<Seq<char>>::empty();
                    lemma_stacked_clean(entries, top, walk.skip);
                    let added = stacked(entries, top, walk.skip);
                    assert forall|i: int| 0 <= i < next.pending.len() implies clean(
                        #[trigger] next.pending[i],
                        next.skip,
                    ) by {
                        if i < walk.pending.len() {
                            assert(next.pending[i] == walk.pending[i]);
                        } else {
                            assert(next.pending[i] == added[i - walk.pending.len()]);
                        }
                    }
                },
                _ => {},
            }
        },
        PhaseView::OpeningArchive => {
            lemma_advanced_well_formed(walk);
        },
        PhaseView::AddingDirectory(item) => {
            lemma_advanced_well_formed(walk);
        },
        PhaseView::ListingDirectory(item) => {
            match event {
                EventView::Listed(entries) => {
                    lemma_stacked_clean(entries, item.path, walk.skip);
                    let added = stacked(entries, item.path, walk.skip);
                    let grown = WalkView { pending: walk.pending + added, ..walk };
                    assert forall|i: int| 0 <= i < grown.pending.len() implies clean(
                        #[trigger] grown.pending[i],
                        grown.skip,
                    ) by {
                        if i < walk.pending.len() {
                            assert(grown.pending[i] == walk.pending[i]);
                        } else {
                            assert(grown.pending[i] == added[i - walk.pending.len()]);
                        }
                    }
                    lemma_advanced_well_formed(grown);
                },
                _ => {
                    lemma_advanced_well_formed(walk);
                },
            }
        },
        PhaseView::AddingFile(item) => {
            lemma_advanced_well_formed(walk);
        },
        _ => {},
    }
}

/// Nothing that the skip list keeps out is ever archived, and nothing below
/// it either.
///
/// Whatever the caller reports, every entry that a walk puts into the
/// archive has a name in which no part of the skip list occurs, and so has
/// every directory above it, up to the profile directory.
pub proof fn lemma_skipped_is_never_archived(walk: WalkView, events: Seq<EventView>)
    requires
        well_formed(walk),
    ensures
        well_formed(run(walk, events)),
        forall|i: int|
            0 <= i < archived(walk, events).len() ==> clean(
                #[trigger] archived(walk, events)[i],
                walk.skip,
            ),
    decreases events.len(),
{
    if events.len() > 0 {
        let next = step_of(walk, events[0]);
        lemma_step_well_formed(walk, events[0]);
        lemma_skipped_is_never_archived(next, events.drop_first());
        let first = entered(walk, events[0]);
        let rest = archived(next, events.drop_first());
        let all = archived(walk, events);
        assert forall|i: int| 0 <= i < all.len() implies clean(#[trigger] all[i], walk.skip) by {
            if i < first.len() {
                assert(all[i] == first[i]);
            } else {
                assert(all[i] == rest[i - first.len()]);
            }
        }
    }
}

/// A walk that has not started is well formed when nothing is pending.
pub proof fn lemma_fresh_walk_well_formed(walk: WalkView)
    requires
        walk.phase is Start,
        walk.pending.len() == 0,
    ensures
        well_formed(walk),
{
}

/// What goes wrong with one entry never fails the backup.
///
/// A step of a walk that is between its opening and its finalizing never
/// ends in failure, whatever the event. A file that could not be copied
/// leaves the walk where its copy would have left it. And a step that does
/// end in failure was one of the opening or of the finalizing.
pub proof fn lemma_entry_failures_are_isolated(walk: WalkView, event: EventView)
    ensures
        is_walking(walk.phase) ==> !(step_of(walk, event).phase is Failed),
        walk.phase is AddingFile ==> step_of(walk, event) == step_of(walk, EventView::Completed),
        is_walking(walk.phase) && !(event is Completed) && !(event is Listed) ==> step_of(
            walk,
            event,
        ) == advanced(walk),
        step_of(walk, event).phase is Failed ==> (walk.phase is OpeningRoot
            || walk.phase is OpeningArchive || walk.phase is Finalizing || walk.phase is Failed),
{
}

/// Once a walk is past its opening, only the finalizing can fail it.
pub proof fn lemma_only_finalizing_fails(walk: WalkView, events: Seq<EventView>)
    requires
        is_walking(walk.phase) || walk.phase is Finalizing || walk.phase is Done,
    ensures
        match run(walk, events).phase {
            PhaseView::Failed(e) => e == BackupError::Finalize,
            phase => is_walking(phase) || phase is Finalizing || phase is Done,
        },
    decreases events.len(),
{
    if events.len() > 0 {
        let next = step_of(walk, events[0]);
        if next.phase is Failed {
            lemma_ended_walk_stays(next, events.drop_first());
        } else {
            lemma_only_finalizing_fails(next, events.drop_first());
        }
    }
}

/// A walk that has ended stays as it is.
pub proof fn lemma_ended_walk_stays(walk: WalkView, events: Seq<EventView>)
    requires
        walk.phase is Failed || walk.phase is Done,
    ensures
        run(walk, events) == walk,
        archived(walk, events).len() == 0,
    decreases events.len(),
{
    if events.len() > 0 {
        lemma_ended_walk_stays(walk, events.drop_first());
    }
}

/// Running through two lists of events, one after the other, is running
/// through the two as one.
pub proof fn lemma_run_split(walk: WalkView, first: Seq<EventView>, second: Seq<EventView>)
    ensures
        run(walk, first + second) == run(run(walk, first), second),
        archived(walk, first + second) == archived(walk, first) + archived(
            run(walk, first),
            second,
        ),
    decreases first.len(),
{
    if first.len() == 0 {
        assert(first + second =~= second);
        assert(archived(walk, first) + archived(run(walk, first), second) =~= archived(
            walk,
            second,
        ));
    } else {
        let all = first + second;
        assert(all[0] == first[0]);
        assert(all.drop_first() =~= first.drop_first() + second);
        let next = step_of(walk, first[0]);
        lemma_run_split(next, first.drop_first(), second);
        assert(archived(walk, all) =~= archived(walk, first) + archived(run(walk, first), second));
    }
}

} // verus!
