//! What a walk archives of a given directory tree.

use crate::archive::laws::{
    archived, clean, entered, lemma_fresh_walk_well_formed, lemma_run_split,
    lemma_skipped_is_never_archived, run,
};
use crate::archive::skip::skipped;
use crate::archive::walk::{
    advanced, item_of, stacked, step_of, wanted, EntryKind, EntryView, EventView, ItemKind,
    ItemView, PhaseView, WalkView,
};
use vstd::prelude::*;

verus! {

/// A directory tree as a walk meets it.
pub enum Node {
    /// A file, which can be copied or not.
    File { name: Seq<char>, readable: bool },
    /// A directory, which can be entered into the archive or not, and whose
    /// entries can be listed or not.
    Directory { name: Seq<char>, enterable: bool, children: Option<Seq<Node>> },
    /// Something that is neither, or whose kind cannot be found out.
    Other { name: Seq<char>, kind_known: bool },
}

/// The entry under which a listing shows `node`.
pub open spec fn entry_of(node: Node) -> EntryView {
    match node {
        Node::File { name, .. } => EntryView { name, kind: EntryKind::File },
        Node::Directory { name, .. } => EntryView { name, kind: EntryKind::Directory },
        Node::Other { name, kind_known } => EntryView {
            name,
            kind: if kind_known {
                EntryKind::Other
            } else {
                EntryKind::Unknown
            },
        },
    }
}

/// The listing of a directory that holds `nodes`.
pub open spec fn entries_of(nodes: Seq<Node>) -> Seq<EntryView> {
    nodes.map_values(|node: Node| entry_of(node))
}

/// What the archive holds of the entries `nodes` of the directory at
/// `prefix`, in the order in which it is written.
pub open spec fn expected(nodes: Seq<Node>, prefix: Seq<Seq<char>>, skip: Seq<Seq<char>>) -> Seq<
    ItemView,
>
    decreases nodes,
{
    if nodes.len() == 0 {
        Seq::empty()
    } else {
        let rest = expected(nodes.drop_first(), prefix, skip);
        let item = item_of(entry_of(nodes[0]), prefix);
        if !wanted(entry_of(nodes[0]), skip) {
            rest
        } else {
            match nodes[0] {
                Node::File { readable, .. } => if readable {
                    seq![item] + rest
                } else {
                    rest
                },
                Node::Directory { enterable, children, .. } => if !enterable {
                    rest
                } else {
                    match children {
                        Some(below) => seq![item] + expected(below, item.path, skip) + rest,
                        None => seq![item] + rest,
                    }
                },
                Node::Other { .. } => rest,
            }
        }
    }
}

/// What the caller reports while a walk works through the entries `nodes`
/// of a directory, in the order in which it is asked.
pub open spec fn answers(nodes: Seq<Node>, skip: Seq<Seq<char>>) -> Seq<EventView>
    decreases nodes,
{
    if nodes.len() == 0 {
        Seq::empty()
    } else {
        let rest = answers(nodes.drop_first(), skip);
        if !wanted(entry_of(nodes[0]), skip) {
            rest
        } else {
            match nodes[0] {
                Node::File { readable, .. } => if readable {
                    seq![EventView::Completed] + rest
                } else {
                    seq![EventView::Failed] + rest
                },
                Node::Directory { enterable, children, .. } => if !enterable {
                    seq![EventView::Failed] + rest
                } else {
                    match children {
                        Some(below) => seq![
                            EventView::Completed,
                            EventView::Listed(entries_of(below)),
                        ] + answers(below, skip) + rest,
                        None => seq![EventView::Completed, EventView::Failed] + rest,
                    }
                },
                Node::Other { .. } => rest,
            }
        }
    }
}

/// What the caller reports during the backup of a profile directory that
/// holds `nodes`, where the archive can be created and finalized. The first
/// event only starts the walk.
pub open spec fn reports(nodes: Seq<Node>, skip: Seq<Seq<char>>) -> Seq<EventView> {
    seq![EventView::Completed, EventView::Listed(entries_of(nodes)), EventView::Completed]
        + answers(nodes, skip) + seq![EventView::Completed]
}

/// The walk `base` with `pending` in place of its pending entries, after it
/// took the next of them.
pub open spec fn taking(base: WalkView, pending: Seq<ItemView>) -> WalkView {
    advanced(WalkView { pending, ..base })
}

/// A walk that has the entries of a directory on top of its pending entries
/// works through them and what is below them, archives what is expected of
/// them, and is then where it would be without them.
proof fn lemma_walk_of_listing(
    base: WalkView,
    below: Seq<ItemView>,
    nodes: Seq<Node>,
    prefix: Seq<Seq<char>>,
)
    ensures
        run(
            taking(base, below + stacked(entries_of(nodes), prefix, base.skip)),
            answers(nodes, base.skip),
        ) == taking(base, below),
        archived(
            taking(base, below + stacked(entries_of(nodes), prefix, base.skip)),
            answers(nodes, base.skip),
        ) == expected(nodes, prefix, base.skip),
    decreases nodes,
{
    let skip = base.skip;
    let start = taking(base, below + stacked(entries_of(nodes), prefix, skip));
    let events = answers(nodes, skip);
    if nodes.len() == 0 {
        assert(entries_of(nodes) =~= Seq::<EntryView>::empty());
        assert(below + stacked(entries_of(nodes), prefix, skip) =~= below);
    } else {
        let others = nodes.drop_first();
        let node = nodes[0];
        let entry = entry_of(node);
        assert(entries_of(nodes)[0] == entry);
        assert(entries_of(nodes).drop_first() =~= entries_of(others));
        let lower = below + stacked(entries_of(others), prefix, skip);
        let later = taking(base, lower);
        lemma_walk_of_listing(base, below, others, prefix);
        let rest = answers(others, skip);
        if !wanted(entry, skip) {
        } else {
            let item = item_of(entry, prefix);
            assert(below + stacked(entries_of(nodes), prefix, skip) =~= lower.push(item));
            assert(lower.push(item).drop_last() =~= lower);
            assert(lower.push(item).last() == item);
            assert(advanced(start) == later);
            match node {
                Node::File { readable, .. } => {
                    let event = if readable {
                        EventView::Completed
                    } else {
                        EventView::Failed
                    };
                    assert(start.phase == PhaseView::AddingFile(item));
                    assert(events =~= seq![event] + rest);
                    assert(events[0] == event);
                    assert(events.drop_first() =~= rest);
                    assert(step_of(start, event) == later);
                    assert(archived(start, events) =~= entered(start, event) + archived(
                        later,
                        rest,
                    ));
                },
                Node::Directory { enterable, children, .. } => {
                    assert(start.phase == PhaseView::AddingDirectory(item));
                    if !enterable {
                        let event = EventView::Failed;
                        assert(events =~= seq![event] + rest);
                        assert(events[0] == event);
                        assert(events.drop_first() =~= rest);
                        assert(step_of(start, event) == later);
                        assert(archived(start, events) =~= entered(start, event) + archived(
                            later,
                            rest,
                        ));
                    } else {
                        let listing = WalkView {
                            phase: PhaseView::ListingDirectory(item),
                            ..start
                        };
                        assert(step_of(start, EventView::Completed) == listing);
                        match children {
                            Some(inner) => {
                                let listed = EventView::Listed(entries_of(inner));
                                let head = seq![EventView::Completed, listed];
                                let deep = answers(inner, skip);
                                assert(events =~= head + (deep + rest));
                                lemma_run_split(start, head, deep + rest);
                                assert(head[0] == EventView::Completed);
                                assert(head.drop_first() =~= seq![listed]);
                                assert(seq![listed][0] == listed);
                                assert(seq![listed].drop_first() =~= Seq::<EventView>::empty());
                                let inside = taking(
                                    base,
                                    lower + stacked(entries_of(inner), item.path, skip),
                                );
                                assert(step_of(listing, listed) == inside);
                                assert(run(listing, seq![listed]) == run(
                                    inside,
                                    Seq::<EventView>::empty(),
                                ));
                                assert(run(start, head) == inside);
                                assert(archived(listing, seq![listed]) =~= entered(listing, listed)
                                    + archived(inside, Seq::<EventView>::empty()));
                                assert(archived(start, head) =~= seq![item]);
                                lemma_walk_of_listing(base, lower, inner, item.path);
                                lemma_run_split(inside, deep, rest);
                                assert(archived(start, events) =~= seq![item] + expected(
                                    inner,
                                    item.path,
                                    skip,
                                ) + expected(others, prefix, skip));
                            },
                            None => {
                                let head = seq![EventView::Completed, EventView::Failed];
                                assert(events =~= head + rest);
                                lemma_run_split(start, head, rest);
                                assert(head[0] == EventView::Completed);
                                assert(head.drop_first() =~= seq![EventView::Failed]);
                                assert(seq![EventView::Failed][0] == EventView::Failed);
                                assert(seq![EventView::Failed].drop_first() =~= Seq::<
                                    EventView,
                                >::empty());
                                assert(step_of(listing, EventView::Failed) == later);
                                assert(run(listing, seq![EventView::Failed]) == run(
                                    later,
                                    Seq::<EventView>::empty(),
                                ));
                                assert(run(start, head) == later);
                                assert(archived(listing, seq![EventView::Failed]) =~= entered(
                                    listing,
                                    EventView::Failed,
                                ) + archived(later, Seq::<EventView>::empty()));
                                assert(archived(start, head) =~= seq![item]);
                                assert(archived(start, events) =~= seq![item] + expected(
                                    others,
                                    prefix,
                                    skip,
                                ));
                            },
                        }
                    }
                },
                Node::Other { .. } => {},
            }
        }
    }
}

/// The backup of a directory tree archives what is expected of the tree, and
/// succeeds.
///
/// Where the profile directory can be listed and the archive be created and
/// finalized, a walk ends in `Done`, whatever in the tree cannot be read.
/// What it has put into the archive by then is what `expected` says of the
/// tree: every wanted entry that could be entered or copied, directories
/// before what they hold, in the order of the listings.
pub proof fn lemma_backup_of_tree(walk: WalkView, nodes: Seq<Node>)
    requires
        walk.phase is Start,
        walk.pending.len() == 0,
    ensures
        run(walk, reports(nodes, walk.skip)).phase == PhaseView::Done,
        archived(walk, reports(nodes, walk.skip)) == expected(
            nodes,
            Seq::empty(),
            walk.skip,
        ),
{
    let skip = walk.skip;
    let top = Seq::<Seq<char>>::empty();
    let listed = EventView::Listed(entries_of(nodes));
    let opening = seq![EventView::Completed, listed, EventView::Completed];
    let closing = seq![EventView::Completed];
    let middle = answers(nodes, skip);
    let none = Seq::<ItemView>::empty();
    let empty = Seq::<EventView>::empty();
    assert(reports(nodes, skip) =~= opening + (middle + closing));
    lemma_run_split(walk, opening, middle + closing);
    let s1 = step_of(walk, EventView::Completed);
    let s2 = step_of(s1, listed);
    let s3 = step_of(s2, EventView::Completed);
    assert(walk.pending =~= none);
    assert(s2.pending =~= none + stacked(entries_of(nodes), top, skip));
    assert(s3 == taking(walk, none + stacked(entries_of(nodes), top, skip)));
    assert(opening[0] == EventView::Completed);
    let tail2 = opening.drop_first();
    assert(tail2[0] == listed);
    let tail1 = tail2.drop_first();
    assert(tail1[0] == EventView::Completed);
    assert(tail1.drop_first() =~= empty);
    assert(run(s2, tail1) == run(s3, empty));
    assert(run(s1, tail2) == run(s2, tail1));
    assert(run(walk, opening) == s3);
    assert(archived(s2, tail1) =~= entered(s2, EventView::Completed) + archived(s3, empty));
    assert(archived(s1, tail2) =~= entered(s1, listed) + archived(s2, tail1));
    assert(archived(walk, opening) =~= entered(walk, EventView::Completed) + archived(s1, tail2));
    assert(archived(walk, opening) =~= none);
    lemma_walk_of_listing(walk, none, nodes, top);
    lemma_run_split(s3, middle, closing);
    let s4 = taking(walk, none);
    assert(s4.phase == PhaseView::Finalizing);
    assert(closing[0] == EventView::Completed);
    assert(closing.drop_first() =~= empty);
    let s5 = step_of(s4, EventView::Completed);
    assert(run(s4, closing) == run(s5, empty));
    assert(archived(s4, closing) =~= entered(s4, EventView::Completed) + archived(s5, empty));
    assert(archived(walk, reports(nodes, skip)) =~= expected(nodes, top, skip));
}

/// What is expected of a listing is what is expected of its first part, and
/// then what is expected of the rest: no entry changes what the others give.
pub proof fn lemma_expected_of_parts(
    first: Seq<Node>,
    second: Seq<Node>,
    prefix: Seq<Seq<char>>,
    skip: Seq<Seq<char>>,
)
    ensures
        expected(first + second, prefix, skip) == expected(first, prefix, skip) + expected(
            second,
            prefix,
            skip,
        ),
    decreases first.len(),
{
    if first.len() == 0 {
        assert(first + second =~= second);
        assert(expected(first, prefix, skip) + expected(second, prefix, skip) =~= expected(
            second,
            prefix,
            skip,
        ));
    } else {
        let all = first + second;
        assert(all[0] == first[0]);
        assert(all.drop_first() =~= first.drop_first() + second);
        lemma_expected_of_parts(first.drop_first(), second, prefix, skip);
        assert(expected(all, prefix, skip) =~= expected(first, prefix, skip) + expected(
            second,
            prefix,
            skip,
        ));
    }
}

/// An entry whose name the skip list keeps out leaves no trace in the
/// archive, nor does anything below it, and what stands beside it is
/// archived as if the entry were not there.
pub proof fn lemma_skipped_entry_leaves_no_trace(
    before: Seq<Node>,
    node: Node,
    after: Seq<Node>,
    prefix: Seq<Seq<char>>,
    skip: Seq<Seq<char>>,
)
    requires
        skipped(entry_of(node).name, skip),
    ensures
        expected(before + seq![node] + after, prefix, skip) == expected(
            before + after,
            prefix,
            skip,
        ),
{
    lemma_expected_of_parts(before + seq![node], after, prefix, skip);
    lemma_expected_of_parts(before, seq![node], prefix, skip);
    lemma_expected_of_parts(before, after, prefix, skip);
    assert(seq![node][0] == node);
    assert(seq![node].drop_first() =~= Seq::<Node>::empty());
    assert(expected(seq![node].drop_first(), prefix, skip) =~= Seq::<ItemView>::empty());
    assert(expected(seq![node], prefix, skip) =~= Seq::<ItemView>::empty());
    assert(expected(before, prefix, skip) + Seq::<ItemView>::empty() =~= expected(
        before,
        prefix,
        skip,
    ));
}

/// A file that cannot be read is missing from the archive, and everything
/// else is archived as if the file were not there.
pub proof fn lemma_unreadable_file_is_left_out(
    before: Seq<Node>,
    name: Seq<char>,
    after: Seq<Node>,
    prefix: Seq<Seq<char>>,
    skip: Seq<Seq<char>>,
)
    ensures
        expected(
            before + seq![Node::File { name, readable: false }] + after,
            prefix,
            skip,
        ) == expected(before + after, prefix, skip),
{
    let node = Node::File { name, readable: false };
    lemma_expected_of_parts(before + seq![node], after, prefix, skip);
    lemma_expected_of_parts(before, seq![node], prefix, skip);
    lemma_expected_of_parts(before, after, prefix, skip);
    assert(seq![node][0] == node);
    assert(seq![node].drop_first() =~= Seq::<Node>::empty());
    assert(expected(seq![node].drop_first(), prefix, skip) =~= Seq::<ItemView>::empty());
    assert(expected(seq![node], prefix, skip) =~= Seq::<ItemView>::empty());
    assert(expected(before, prefix, skip) + Seq::<ItemView>::empty() =~= expected(
        before,
        prefix,
        skip,
    ));
}

/// The file with the names `names`, from a directory that holds `nodes`
/// downwards, can be reached and copied: it is wanted and readable, and
/// every directory on the way to it is wanted, can be entered into the
/// archive and can be listed.
pub open spec fn holds_file(nodes: Seq<Node>, names: Seq<Seq<char>>, skip: Seq<Seq<char>>) -> bool
    decreases names.len(),
{
    names.len() > 0 && exists|i: int|
        0 <= i < nodes.len() && #[trigger] leads_on(nodes[i], names, skip) && (if names.len()
            == 1 {
            nodes[i] matches Node::File { readable: true, .. }
        } else {
            match nodes[i] {
                Node::Directory { enterable: true, children: Some(below), .. } => holds_file(
                    below,
                    names.drop_first(),
                    skip,
                ),
                _ => false,
            }
        })
}

/// The node is wanted and has the first of `names` as its name.
pub open spec fn leads_on(node: Node, names: Seq<Seq<char>>, skip: Seq<Seq<char>>) -> bool {
    names.len() > 0 && wanted(entry_of(node), skip) && entry_of(node).name == names[0]
}

/// Every file that can be reached and copied is in the archive, whatever
/// else in the tree cannot be read.
pub proof fn lemma_every_readable_file_is_archived(
    nodes: Seq<Node>,
    names: Seq<Seq<char>>,
    prefix: Seq<Seq<char>>,
    skip: Seq<Seq<char>>,
)
    requires
        holds_file(nodes, names, skip),
    ensures
        expected(nodes, prefix, skip).contains(
            ItemView { path: prefix + names, kind: ItemKind::File },
        ),
    decreases names.len(),
{
    let i = choose|i: int|
        0 <= i < nodes.len() && #[trigger] leads_on(nodes[i], names, skip) && (if names.len()
            == 1 {
            nodes[i] matches Node::File { readable: true, .. }
        } else {
            match nodes[i] {
                Node::Directory { enterable: true, children: Some(below), .. } => holds_file(
                    below,
                    names.drop_first(),
                    skip,
                ),
                _ => false,
            }
        });
    let node = nodes[i];
    let before = nodes.take(i);
    let after = nodes.skip(i + 1);
    let target = ItemView { path: prefix + names, kind: ItemKind::File };
    assert(nodes =~= before + seq![node] + after);
    lemma_expected_of_parts(before + seq![node], after, prefix, skip);
    lemma_expected_of_parts(before, seq![node], prefix, skip);
    assert(seq![node][0] == node);
    assert(seq![node].drop_first() =~= Seq::<Node>::empty());
    assert(expected(seq![node].drop_first(), prefix, skip) =~= Seq::<ItemView>::empty());
    let item = item_of(entry_of(node), prefix);
    let own = expected(seq![node], prefix, skip);
    let all = expected(nodes, prefix, skip);
    let at = expected(before, prefix, skip).len() as int;
    assert(all =~= expected(before, prefix, skip) + own + expected(after, prefix, skip));
    if names.len() == 1 {
        assert(prefix + names =~= prefix.push(names[0]));
        assert(own =~= seq![item]);
        assert(all[at] == target);
    } else {
        match node {
            Node::Directory { children: Some(below), .. } => {
                let inner = expected(below, item.path, skip);
                lemma_every_readable_file_is_archived(below, names.drop_first(), item.path, skip);
                assert(item.path + names.drop_first() =~= prefix + names);
                assert(own =~= seq![item] + inner);
                let k = choose|k: int| 0 <= k < inner.len() && inner[k] == target;
                assert(own[k + 1] == target);
                assert(all[at + k + 1] == target);
            },
            _ => {},
        }
    }
}

/// Nothing in the archive of a tree has a name that the skip list keeps
/// out, nor lies below a directory with such a name.
pub proof fn lemma_archive_of_tree_is_clean(walk: WalkView, nodes: Seq<Node>)
    requires
        walk.phase is Start,
        walk.pending.len() == 0,
    ensures
        forall|i: int|
            0 <= i < expected(nodes, Seq::empty(), walk.skip).len() ==> clean(
                #[trigger] expected(nodes, Seq::empty(), walk.skip)[i],
                walk.skip,
            ),
{
    lemma_fresh_walk_well_formed(walk);
    lemma_backup_of_tree(walk, nodes);
    lemma_skipped_is_never_archived(walk, reports(nodes, walk.skip));
}

} // verus!
