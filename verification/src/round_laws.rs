//! What a round of the sidebar does, where changes are marked, and how far the
//! tree scrolls.

use vstd::prelude::*;

use crate::bytes::bytes_before;
use crate::decorate::{
    children_sorted, cleared, in_order, is_ancestor, lemma_children_sorted, reconciled,
};
use crate::decoration_laws::{
    law_deleted_child_is_shown, law_dirty_marks_exactly_ancestors,
    law_status_is_the_strongest_report, reports, reports_below,
};
use crate::git::{safe_joined, Change, GitStatus};
use crate::git_laws::law_reported_paths_are_placed;
use crate::jobs::{ResponseView, SignalView};
use crate::operation_laws::as_parts;
use crate::path::{
    child_path, file_name_of, is_under, joined_bytes, parent_of, plain_paths, Part, WrittenPath,
};
use crate::sidebar_laws::is_taken_up;
use crate::state::{
    all_rows, is_walk, response_applied, responses_applied, row_paths, scroll_restored,
    scroll_to_show, scrolled, ticked, SidebarState,
};
use crate::tree::{EntryKind, RowView, Tree};
use crate::watch_laws::{
    has_place, law_everything_is_listed_again, law_repository_is_asked_for, was_listed,
};

verus! {

/// A path lies under another that it begins with, name by name.
pub proof fn law_paths_lie_under_their_beginnings(
    base: Seq<Part>,
    rest: Seq<Part>,
    other: Seq<Part>,
)
    ensures
        is_under(base + rest, base),
        is_under(other, base) ==> other.len() >= base.len() && forall|i: int|
            0 <= i < base.len() ==> #[trigger] other[i] == base[i],
        is_under(base, other) && is_under(other, base) ==> base == other,
{
    assert((base + rest).take(base.len() as int) =~= base);
    if is_under(other, base) {
        assert forall|i: int| 0 <= i < base.len() implies #[trigger] other[i] == base[i] by {
            assert(other.take(base.len() as int)[i] == other[i]);
        }
        if is_under(base, other) {
            assert(base =~= other);
        }
    }
}

/// A name below a directory has the directory as its parent and the name as its
/// last component.
pub proof fn law_children_have_parents(base: Seq<Part>, name: Seq<u8>)
    ensures
        parent_of(child_path(base, name)) == Some(base),
        file_name_of(child_path(base, name)) == Some(name),
        child_path(base, name).len() == base.len() + 1,
        is_under(child_path(base, name), base),
{
    assert(child_path(base, name).drop_last() =~= base);
    assert(child_path(base, name).take(base.len() as int) =~= base);
}

/// The directories above a path inside the workspace are its proper beginnings
/// from the root on.
pub proof fn law_directories_above(root: Seq<Part>, names: Seq<Part>, above: Seq<Part>)
    ensures
        is_ancestor(root, above, root + names) <==> exists|k: int|
            0 <= k < names.len() && above == root + #[trigger] names.take(k),
{
    let path = root + names;
    if is_ancestor(root, above, path) {
        let k = above.len() - root.len();
        assert(above =~= root + names.take(k)) by {
            assert(path.take(above.len() as int) =~= root + names.take(k));
        }
        assert(0 <= k < names.len());
    }
    if exists|k: int| 0 <= k < names.len() && above == root + #[trigger] names.take(k) {
        let k = choose|k: int| 0 <= k < names.len() && above == root + #[trigger] names.take(k);
        assert(above.take(root.len() as int) =~= root);
        assert(path.take(above.len() as int) =~= above);
    }
}

/// A change that is reported somewhere marks every directory above it up to the
/// root, whatever else is reported.
pub proof fn law_changes_mark_the_directories_above(
    tree: Tree,
    root: Seq<Part>,
    root_text: Seq<u8>,
    changes: Seq<Change>,
    at: int,
    names: Seq<Seq<u8>>,
    k: int,
)
    requires
        0 <= at < changes.len(),
        changes[at].path == as_parts(names),
        0 <= k < names.len(),
        tree.contains_key(root + as_parts(names).take(k)),
        !tree[root + as_parts(names).take(k)].synthetic_deleted,
    ensures
        reconciled(tree, root, root_text, changes)[root + as_parts(
            names,
        ).take(k)].git.dirty_descendant,
{
    let above = root + as_parts(names).take(k);
    lemma_placed(root, names);
    law_directories_above(root, as_parts(names), above);
    assert(is_ancestor(root, above, root + as_parts(names)));
    assert(reports_below(root, changes[at], above));
    law_dirty_marks_exactly_ancestors(tree, root, root_text, changes, above);
}

proof fn lemma_placed(root: Seq<Part>, names: Seq<Seq<u8>>)
    requires
        names.len() > 0,
    ensures
        safe_joined(root, as_parts(names)) == Some(root + as_parts(names)),
{
    let parts = as_parts(names);
    assert forall|i: int| 0 <= i < parts.len() implies (#[trigger] parts[i]) is Normal by {}
    law_reported_paths_are_placed(root, parts);
}

/// A file of the disk of which one thing is reported shows it; one of which
/// nothing is reported shows nothing, and marks nothing.
pub proof fn law_reports_are_shown(
    tree: Tree,
    root: Seq<Part>,
    root_text: Seq<u8>,
    change: Change,
    names: Seq<Seq<u8>>,
    other: Seq<Part>,
)
    requires
        names.len() > 0,
        change.path == as_parts(names),
    ensures
        ({
            let path = root + as_parts(names);
            let after = reconciled(tree, root, root_text, seq![change]);
            &&& tree.contains_key(path) && !tree[path].synthetic_deleted ==> after.contains_key(
                path,
            ) && after[path].git.status == Some(change.status) && !after[path].git.dirty_descendant
            &&& tree.contains_key(other) && !tree[other].synthetic_deleted && other != path
                ==> after.contains_key(other) && after[other].git.status is None
            &&& tree.contains_key(other) && !tree[other].synthetic_deleted && !is_under(path, other)
                ==> !after[other].git.dirty_descendant
        }),
{
    let path = root + as_parts(names);
    let changes = seq![change];
    lemma_placed(root, names);
    assert(changes[0] == change);
    if tree.contains_key(path) && !tree[path].synthetic_deleted {
        law_status_is_the_strongest_report(tree, root, root_text, changes, path);
        law_dirty_marks_exactly_ancestors(tree, root, root_text, changes, path);
        assert(reports(root, changes[0], path));
    }
    if tree.contains_key(other) && !tree[other].synthetic_deleted {
        law_status_is_the_strongest_report(tree, root, root_text, changes, other);
        law_dirty_marks_exactly_ancestors(tree, root, root_text, changes, other);
    }
}

/// A file that is reported deleted, and is not on disk, has a row where its
/// directory was listed, by its name; where the directory was not listed, there
/// is none. Nothing can be opened there.
pub proof fn law_deleted_file_has_a_row(
    tree: Tree,
    root: Seq<Part>,
    root_text: Seq<u8>,
    change: Change,
    names: Seq<Seq<u8>>,
)
    requires
        names.len() > 0,
        change.path == as_parts(names),
        change.status == GitStatus::Deleted,
        !tree.contains_key(root + as_parts(names)),
        tree.contains_key((root + as_parts(names)).drop_last()),
        !tree[(root + as_parts(names)).drop_last()].synthetic_deleted,
    ensures
        ({
            let path = root + as_parts(names);
            let parent = path.drop_last();
            let after = reconciled(tree, root, root_text, seq![change]);
            let node = after[path];
            &&& after.contains_key(path) <==> tree[parent].loaded
            &&& tree[parent].loaded ==> {
                &&& after[parent].children.contains(path)
                &&& node.kind == EntryKind::Deleted
                &&& node.name == names.last()
                &&& node.text == joined_bytes(root_text, change.text)
                &&& node.git.status == Some(GitStatus::Deleted)
                &&& !node.git.dirty_descendant
                &&& node.synthetic_deleted
                &&& node.loaded
                &&& !node.loading
                &&& !node.expanded
                &&& node.children.len() == 0
                &&& node.error is None
                &&& node.canonical_dir is None
            }
        }),
{
    let path = root + as_parts(names);
    let parent = path.drop_last();
    let changes = seq![change];
    lemma_placed(root, names);
    assert(path.last() == Part::Normal(names.last()));
    assert(parent_of(path) == Some(parent));
    assert(parent != path) by {
        assert(parent.len() < path.len());
    }
    assert(changes.drop_last() =~= Seq::<Change>::empty());
    assert(changes.last() == change);
    reveal_with_fuel(crate::decorate::changes_applied, 3);
    let plain = cleared(tree);
    assert(plain.contains_key(parent));
    if tree[parent].loaded {
        assert(changes[0] == change);
        law_deleted_child_is_shown(tree, root, root_text, changes, 0, path, parent);
    }
}

/// Where a deleted file is put among its siblings, directories come first and
/// each group is ordered by name.
pub proof fn law_siblings_are_in_order(tree: Tree, children: Seq<Seq<Part>>, i: int, j: int)
    requires
        0 <= i < j < children_sorted(tree, children).len(),
        tree.contains_key(children_sorted(tree, children)[i]),
        tree.contains_key(children_sorted(tree, children)[j]),
    ensures
        ({
            let first = tree[children_sorted(tree, children)[i]];
            let second = tree[children_sorted(tree, children)[j]];
            let leads = first.kind == EntryKind::Directory || first.kind
                == EntryKind::SymlinkDirectory;
            let follows = second.kind == EntryKind::Directory || second.kind
                == EntryKind::SymlinkDirectory;
            &&& follows ==> leads
            &&& leads == follows ==> !bytes_before(second.name, first.name)
        }),
        children_sorted(tree, children).to_multiset() == children.to_multiset(),
{
    lemma_children_sorted(tree, children);
    let sorted = children_sorted(tree, children);
    assert(in_order(tree, sorted));
    assert(!crate::decorate::child_before(tree, sorted[j], sorted[i]));
}

/// Replies are taken in one after the other, and a round tells whether one was
/// waited for.
pub proof fn law_replies_are_taken_in_order(
    s: SidebarState,
    responses: Seq<ResponseView>,
    response: ResponseView,
    now: u128,
)
    ensures
        responses_applied(s, Seq::empty(), now) == (s, false),
        ({
            let (before, changed) = responses_applied(s, responses, now);
            let (after, awaited) = response_applied(before, response, now);
            responses_applied(s, responses.push(response), now) == (after, changed || awaited)
        }),
{
    assert(responses.push(response).drop_last() =~= responses);
    assert(responses.push(response).last() == response);
}

/// Whether nothing is due but perhaps the repository.
pub open spec fn is_calm(s: SidebarState, now: u128) -> bool {
    s.watch_dirty_since is None && now < s.next_fs_reconcile
}

/// A round in which nothing happened asks for the repository when that is due,
/// and otherwise changes nothing.
pub proof fn law_calm_round(
    s: SidebarState,
    now: u128,
    first: Seq<Seq<Part>>,
    second: Seq<Seq<Part>>,
)
    requires
        is_calm(s, now),
        s.last_git_request <= now,
        s.config.git_refresh_interval > 0,
    ensures
        ({
            let after = ticked(s, now, Seq::empty(), Seq::empty(), first, second);
            let due = s.git_refresh_due || now >= s.last_git_request
                + s.config.git_refresh_interval;
            &&& s.pending_git is Some || !due ==> after == s
            &&& s.pending_git is None && due && has_place(s) ==> after.queue.len()
                == s.queue.len() + 1 && after.queue.last() is Git && after.pending_git == Some(
                s.next_id,
            ) && after.tree == s.tree
        }),
{
    law_repository_is_asked_for(s, now);
}

/// A round in which the watcher tells of a change marks the directory of the
/// change and waits.
pub proof fn law_told_round(
    s: SidebarState,
    now: u128,
    path: WrittenPath,
    first: Seq<Seq<Part>>,
    second: Seq<Seq<Part>>,
)
    requires
        now < s.next_fs_reconcile,
        s.pending_git is Some,
        s.config.fs_debounce_interval > 0,
        path.path != s.root,
        parent_of(path.path) is Some,
        was_listed(s.tree, parent_of(path.path)->0),
    ensures
        ({
            let after = ticked(
                s,
                now,
                Seq::empty(),
                seq![SignalView::Paths(seq![path])],
                first,
                second,
            );
            &&& after.watch_dirty_since == Some(now)
            &&& plain_paths(after.dirty_dirs).contains(parent_of(path.path)->0)
            &&& after.queue == s.queue
            &&& after.tree == s.tree
        }),
{
    let root = WrittenPath { path: s.root, text: s.root_text };
    crate::watch_laws::law_change_marks_its_directory(
        s.tree,
        root,
        s.dirty_dirs,
        path,
        parent_of(path.path)->0,
    );
    let signals = seq![SignalView::Paths(seq![path])];
    assert(signals.drop_last() =~= Seq::<SignalView>::empty());
    assert(signals.last() == SignalView::Paths(seq![path]));
    assert(seq![path].drop_last() =~= Seq::<WrittenPath>::empty());
    assert(seq![path].last() == path);
    reveal_with_fuel(crate::state::signals_marked, 3);
    reveal_with_fuel(crate::state::paths_marked, 3);
}

/// Once the watcher was quiet for its interval, a round has every marked
/// directory listed again.
pub proof fn law_settling_round(
    s: SidebarState,
    now: u128,
    since: u128,
    path: Seq<Part>,
    first: Seq<Seq<Part>>,
    second: Seq<Seq<Part>>,
)
    requires
        s.watch_dirty_since == Some(since),
        since <= now,
        now >= since + s.config.fs_debounce_interval,
        now < s.next_fs_reconcile,
        s.pending_git is Some,
        !s.worker_lost,
        plain_paths(s.dirty_dirs).contains(path),
        was_listed(s.tree, path),
        s.tree[path].kind == EntryKind::Directory || s.tree[path].kind
            == EntryKind::SymlinkDirectory,
    ensures
        ({
            let after = ticked(s, now, Seq::empty(), Seq::empty(), first, second);
            is_taken_up(after, path) && after.watch_dirty_since is None
        }),
{
    let quiet = SidebarState { watch_dirty_since: None, ..s };
    crate::sidebar_laws::law_no_change_is_forgotten(quiet, path);
    lemma_schedule_keeps_wait(
        SidebarState { dirty_dirs: Seq::empty(), ..quiet },
        quiet.dirty_dirs,
    );
}

proof fn lemma_schedule_keeps_wait(s: SidebarState, dirty: Seq<WrittenPath>)
    ensures
        ({
            let after = crate::state::all_dirty_handled(s, dirty);
            &&& after.watch_dirty_since == s.watch_dirty_since
            &&& after.next_fs_reconcile == s.next_fs_reconcile
            &&& after.pending_git == s.pending_git
            &&& after.git_refresh_due == s.git_refresh_due
        }),
    decreases dirty.len(),
{
    if dirty.len() > 0 {
        lemma_schedule_keeps_wait(s, dirty.drop_last());
    }
}

/// When its interval is over, a round has every listed directory listed again,
/// though nothing was told.
pub proof fn law_periodic_round(
    s: SidebarState,
    now: u128,
    path: Seq<Part>,
    first: Seq<Seq<Part>>,
    second: Seq<Seq<Part>>,
)
    requires
        s.watch_dirty_since is None,
        now >= s.next_fs_reconcile,
        now + s.config.fs_reconcile_interval <= u128::MAX,
        s.pending_git is Some,
        !s.worker_lost,
        is_walk(second, s.tree),
        was_listed(s.tree, path),
        s.tree[path].kind == EntryKind::Directory || s.tree[path].kind
            == EntryKind::SymlinkDirectory,
    ensures
        ({
            let after = ticked(s, now, Seq::empty(), Seq::empty(), first, second);
            is_taken_up(after, path) && after.next_fs_reconcile == now
                + s.config.fs_reconcile_interval
        }),
{
    law_everything_is_listed_again(s, now, second, path);
    let marked = SidebarState {
        next_fs_reconcile: (now + s.config.fs_reconcile_interval) as u128,
        dirty_dirs: crate::state::loaded_queued(s.tree, s.dirty_dirs, second),
        ..s
    };
    lemma_schedule_keeps_wait(
        SidebarState { dirty_dirs: Seq::empty(), ..marked },
        marked.dirty_dirs,
    );
}

/// Scrolling goes exactly as far as was asked, unless an end is in the way.
pub proof fn law_scrolling(s: SidebarState, delta: int, height: nat)
    ensures
        ({
            let rows = all_rows(s).len();
            let last = if rows >= height {
                rows - height
            } else {
                0
            };
            let after = scrolled(s, delta, height);
            &&& 0 <= s.scroll + delta <= last ==> after == s.scroll + delta
            &&& s.scroll + delta < 0 ==> after == 0
            &&& s.scroll + delta > last ==> after == last
        }),
{
}

/// What is in view already does not make the tree scroll; what is above comes
/// to the top, and what is below to the bottom.
pub proof fn law_bringing_into_view(
    scroll: nat,
    total: nat,
    position: nat,
    height: nat,
    trailing: nat,
)
    requires
        height > 0,
        trailing < height,
        position < total,
        position + trailing + 1 < usize::MAX,
        scroll + height < usize::MAX,
    ensures
        ({
            let after = scroll_to_show(scroll, total, position, height, trailing);
            &&& position < scroll ==> after == position
            &&& scroll <= position && position + trailing < scroll + height ==> after == scroll
            &&& scroll <= position && position + trailing >= scroll + height ==> after == position
                + trailing + 1 - height
        }),
{
}

/// The row at the top stays at the top when rows come or go above it.
pub proof fn law_top_row_stays(before: Seq<RowView>, after: Seq<RowView>, scroll: nat, at: int)
    requires
        scroll < before.len(),
        0 <= at < after.len(),
        after[at].path == before[scroll as int].path,
        forall|i: int| 0 <= i < at ==> (#[trigger] after[i]).path != before[scroll as int].path,
    ensures
        scroll_restored(before, after, scroll) == at,
{
    let top = before[scroll as int].path;
    let paths = row_paths(after);
    paths.index_of_first_ensures(top);
    assert(paths[at] == top);
    assert(paths.contains(top));
    let found = paths.index_of_first(top)->0;
    assert(paths[found] == after[found].path);
    if found < at {
        assert(after[found].path != top);
    }
}

} // verus!
