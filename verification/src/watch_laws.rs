//! When the sidebar lists directories again and asks for the repository, and
//! what it makes of the answers.

use vstd::prelude::*;
use vstd::string::*;

use crate::collections::with_path;
use crate::decorate::reconciled;
use crate::git::Change;
use crate::jobs::{event_signal, JobView, MutationView, OutcomeView, SignalView};
use crate::path::{is_under, parent_of, plain_paths, written_parent, Part, WrittenPath};
use crate::sidebar_laws::lemma_with_path_holds;
use crate::state::{
    affected_directory, all_dirty_handled, git_applied, git_refreshed, is_walk, loaded_queued,
    mutation_applied, mutation_requested, nearest_known, nearest_loaded, path_marked,
    reconciliation_run, reloads_scheduled, selection_restored, signal_marked, watch_collected,
    watch_settled, SidebarState,
};
use crate::tree::{EntryKind, Tree};

verus! {

/// Whether a directory was listed.
pub open spec fn was_listed(tree: Tree, path: Seq<Part>) -> bool {
    tree.contains_key(path) && tree[path].loaded
}

proof fn lemma_nearest_loaded(tree: Tree, root: Seq<Part>, cursor: WrittenPath)
    ensures
        nearest_loaded(tree, root, Some(cursor)) matches Some(found) ==> {
            &&& was_listed(tree, found.path)
            &&& is_under(cursor.path, found.path)
            &&& forall|p: Seq<Part>|
                is_under(cursor.path, p) && p.len() > found.path.len() ==> !(#[trigger] was_listed(
                    tree,
                    p,
                ))
        },
        was_listed(tree, cursor.path) ==> nearest_loaded(tree, root, Some(cursor)) == Some(cursor),
    decreases cursor.path.len(),
{
    let path = cursor.path;
    assert(path.take(path.len() as int) =~= path);
    if !was_listed(tree, path) && path != root {
        if let Some(above) = written_parent(cursor) {
            lemma_nearest_loaded(tree, root, above);
            if let Some(found) = nearest_loaded(tree, root, Some(above)) {
                assert(path.take(found.path.len() as int) =~= path.drop_last().take(
                    found.path.len() as int,
                ));
                assert forall|p: Seq<Part>| is_under(path, p) && p.len() > found.path.len() implies !(
                #[trigger] was_listed(tree, p)) by {
                    if p.len() == path.len() {
                        assert(p =~= path);
                    } else {
                        assert(path.drop_last().take(p.len() as int) =~= path.take(p.len() as int));
                    }
                }
            }
        }
    }
}

/// A change marks the directory that holds the changed path, if it was listed,
/// and otherwise the nearest directory above that was, or the root. What was
/// marked before stays marked, and nothing else is.
pub proof fn law_change_marks_its_directory(
    tree: Tree,
    root: WrittenPath,
    dirty: Seq<WrittenPath>,
    path: WrittenPath,
    other: Seq<Part>,
)
    ensures
        ({
            let after = path_marked(tree, root, dirty, path);
            let found = affected_directory(tree, root, path);
            &&& plain_paths(dirty).contains(other) ==> plain_paths(after).contains(other)
            &&& plain_paths(after).contains(other) ==> plain_paths(dirty).contains(other) || (found
                is Some && found->0.path == other)
            &&& found matches Some(directory) ==> {
                &&& plain_paths(after).contains(directory.path)
                &&& was_listed(tree, directory.path)
                &&& directory.path == root.path || (is_under(path.path, directory.path) && forall|
                    p: Seq<Part>,
                |
                    is_under(path.path, p) && directory.path.len() < p.len() < path.path.len()
                        ==> !(#[trigger] was_listed(tree, p)))
            }
            &&& path.path != root.path && parent_of(path.path) is Some && was_listed(
                tree,
                parent_of(path.path)->0,
            ) ==> found is Some && found->0.path == parent_of(path.path)->0
            &&& path.path == root.path && was_listed(tree, root.path) ==> found == Some(root)
            &&& was_listed(tree, root.path) ==> found is Some
        }),
{
    let found = affected_directory(tree, root, path);
    if path.path == root.path {
        lemma_nearest_loaded(tree, root.path, root);
    } else if let Some(parent) = written_parent(path) {
        lemma_nearest_loaded(tree, root.path, parent);
        if let Some(near) = nearest_loaded(tree, root.path, Some(parent)) {
            let whole = path.path;
            assert(whole.take(near.path.len() as int) =~= whole.drop_last().take(
                near.path.len() as int,
            ));
            assert forall|p: Seq<Part>|
                is_under(whole, p) && near.path.len() < p.len() < whole.len() implies !(
            #[trigger] was_listed(tree, p)) by {
                assert(whole.drop_last().take(p.len() as int) =~= whole.take(p.len() as int));
            }
        }
    } else {
        lemma_nearest_loaded(tree, root.path, root);
    }
    if let Some(directory) = found {
        lemma_with_path_holds(dirty, directory, other);
        lemma_only_added(dirty, directory, other);
    }
}

proof fn lemma_only_added(paths: Seq<WrittenPath>, added: WrittenPath, path: Seq<Part>)
    ensures
        plain_paths(with_path(paths, added)).contains(path) ==> plain_paths(paths).contains(path)
            || path == added.path,
{
    let after = plain_paths(with_path(paths, added));
    if after.contains(path) && path != added.path {
        let i = after.index_of(path);
        assert(plain_paths(paths)[i] == path);
    }
}

/// Where the watcher lost track, every directory that was listed is marked, and
/// nothing that was not.
pub proof fn law_rescan_marks_everything_listed(
    tree: Tree,
    root: WrittenPath,
    dirty: Seq<WrittenPath>,
    order: Seq<Seq<Part>>,
    path: Seq<Part>,
)
    requires
        is_walk(order, tree),
    ensures
        ({
            let after = signal_marked(tree, root, dirty, SignalView::Rescan, order);
            let directory = was_listed(tree, path) && (tree[path].kind == EntryKind::Directory
                || tree[path].kind == EntryKind::SymlinkDirectory);
            plain_paths(after).contains(path) <==> directory || plain_paths(dirty).contains(path)
        }),
{
    lemma_queued(tree, dirty, order, path);
    if was_listed(tree, path) {
        assert(order.contains(path));
    }
}

proof fn lemma_queued(
    tree: Tree,
    dirty: Seq<WrittenPath>,
    order: Seq<Seq<Part>>,
    path: Seq<Part>,
)
    ensures
        ({
            let directory = was_listed(tree, path) && (tree[path].kind == EntryKind::Directory
                || tree[path].kind == EntryKind::SymlinkDirectory);
            plain_paths(loaded_queued(tree, dirty, order)).contains(path) <==> (directory
                && order.contains(path)) || plain_paths(dirty).contains(path)
        }),
    decreases order.len(),
{
    if order.len() > 0 {
        let front = order.drop_last();
        let last = order.last();
        lemma_queued(tree, dirty, front, path);
        let added = WrittenPath { path: last, text: tree[last].text };
        let before = loaded_queued(tree, dirty, front);
        lemma_with_path_holds(before, added, path);
        lemma_only_added(before, added, path);
        if order.contains(path) && path != last {
            let i = order.index_of(path);
            assert(front[i] == path);
        }
        if front.contains(path) {
            let i = front.index_of(path);
            assert(order[i] == path);
        }
        assert(order[order.len() - 1] == last);
    }
}

/// The watcher's news begin a wait anew, and mark what they name.
pub proof fn law_news_begin_a_wait(
    s: SidebarState,
    signals: Seq<SignalView>,
    now: u128,
    order: Seq<Seq<Part>>,
)
    ensures
        ({
            let after = watch_collected(s, signals, now, order);
            &&& signals.len() > 0 ==> after.watch_dirty_since == Some(now)
            &&& signals.len() == 0 ==> after == s
            &&& after.queue == s.queue
            &&& after.tree == s.tree
        }),
{
}

/// Whether the worker can take another job.
pub open spec fn has_place(s: SidebarState) -> bool {
    !s.worker_lost && s.queue.len() < s.config.channel_capacity
}

/// Marked directories are listed again once the watcher was quiet for its
/// interval, and not before.
pub proof fn law_marked_directories_wait(s: SidebarState, now: u128, since: u128)
    requires
        s.watch_dirty_since == Some(since),
        since <= now,
    ensures
        now < since + s.config.fs_debounce_interval ==> watch_settled(s, now) == s,
        now >= since + s.config.fs_debounce_interval ==> watch_settled(s, now)
            == reloads_scheduled(SidebarState { watch_dirty_since: None, ..s }),
        watch_settled(SidebarState { watch_dirty_since: None, ..s }, now) == (SidebarState {
            watch_dirty_since: None,
            ..s
        }),
{
}

/// A marked directory is handed to the worker as a listing of its own path, and
/// is no longer marked. One that is being listed already is kept until that
/// listing is in, and one for which there is no place stays marked.
pub proof fn law_marked_directory_is_listed(s: SidebarState, path: WrittenPath)
    requires
        s.tree.contains_key(path.path),
        s.tree[path.path].loaded,
        s.tree[path.path].kind == EntryKind::Directory || s.tree[path.path].kind
            == EntryKind::SymlinkDirectory,
    ensures
        ({
            let marked = SidebarState { dirty_dirs: seq![path], ..s };
            let after = reloads_scheduled(marked);
            let job = after.queue.last();
            let busy = s.pending_loads.contains_key(path.path);
            &&& after.tree == s.tree
            &&& !busy && has_place(s) ==> {
                &&& after.queue =~= s.queue.push(job)
                &&& job is Load
                &&& job->Load_path == path
                &&& job->Load_id == s.next_id
                &&& job->Load_cap == s.config.entry_cap
                &&& job->Load_root == (WrittenPath { path: s.root, text: s.root_text })
                &&& after.pending_loads == s.pending_loads.insert(path.path, s.next_id)
                &&& after.dirty_dirs.len() == 0
            }
            &&& busy ==> after.queue == s.queue && plain_paths(
                after.reload_after_pending,
            ).contains(path.path)
            &&& !busy && !has_place(s) && !s.worker_lost ==> after.queue == s.queue && plain_paths(
                after.dirty_dirs,
            ).contains(path.path)
        }),
{
    let dirty = seq![path];
    let empty = SidebarState { dirty_dirs: Seq::empty(), ..s };
    assert(dirty.drop_last() =~= Seq::<WrittenPath>::empty());
    reveal_with_fuel(all_dirty_handled, 3);
    assert(all_dirty_handled(empty, dirty.drop_last()) == empty);
    assert(dirty.last() == path);
    lemma_with_path_holds(s.reload_after_pending, path, path.path);
    lemma_with_path_holds(Seq::empty(), path, path.path);
}

/// Every interval all listed directories are marked and listed again, whether
/// or not the watcher told of anything; in between nothing is.
pub proof fn law_everything_is_listed_again(
    s: SidebarState,
    now: u128,
    order: Seq<Seq<Part>>,
    path: Seq<Part>,
)
    requires
        is_walk(order, s.tree),
        now + s.config.fs_reconcile_interval <= u128::MAX,
    ensures
        now < s.next_fs_reconcile ==> reconciliation_run(s, now, order) == s,
        now >= s.next_fs_reconcile && !s.worker_lost && was_listed(s.tree, path) && (
        s.tree[path].kind == EntryKind::Directory || s.tree[path].kind
            == EntryKind::SymlinkDirectory) ==> crate::sidebar_laws::is_taken_up(
            reconciliation_run(s, now, order),
            path,
        ),
        now >= s.next_fs_reconcile ==> reconciliation_run(s, now, order).next_fs_reconcile == now
            + s.config.fs_reconcile_interval,
{
    if now >= s.next_fs_reconcile {
        let marked = SidebarState {
            next_fs_reconcile: (now + s.config.fs_reconcile_interval) as u128,
            dirty_dirs: loaded_queued(s.tree, s.dirty_dirs, order),
            ..s
        };
        lemma_queued(s.tree, s.dirty_dirs, order, path);
        if !s.worker_lost && was_listed(s.tree, path) && (s.tree[path].kind
            == EntryKind::Directory || s.tree[path].kind == EntryKind::SymlinkDirectory) {
            assert(order.contains(path));
            crate::sidebar_laws::law_no_change_is_forgotten(marked, path);
        }
        lemma_schedule_keeps_time(
            SidebarState { dirty_dirs: Seq::empty(), ..marked },
            marked.dirty_dirs,
        );
    }
}

proof fn lemma_schedule_keeps_time(s: SidebarState, dirty: Seq<WrittenPath>)
    ensures
        all_dirty_handled(s, dirty).next_fs_reconcile == s.next_fs_reconcile,
        all_dirty_handled(s, dirty).pending_mutation == s.pending_mutation,
        all_dirty_handled(s, dirty).mutation_completion == s.mutation_completion,
        all_dirty_handled(s, dirty).selected == s.selected,
        all_dirty_handled(s, dirty).selected_text == s.selected_text,
        all_dirty_handled(s, dirty).pending_git == s.pending_git,
        all_dirty_handled(s, dirty).worker_lost == s.worker_lost,
        all_dirty_handled(s, dirty).tree == s.tree,
        all_dirty_handled(s, dirty).config == s.config,
        all_dirty_handled(s, dirty).root == s.root,
        all_dirty_handled(s, dirty).root_text == s.root_text,
    decreases dirty.len(),
{
    if dirty.len() > 0 {
        lemma_schedule_keeps_time(s, dirty.drop_last());
    }
}

/// The repository is asked for when that is overdue, or its interval has
/// passed since it was asked for last, and never while an answer is out.
pub proof fn law_repository_is_asked_for(s: SidebarState, now: u128)
    requires
        s.last_git_request <= now,
        s.config.git_refresh_interval > 0,
    ensures
        ({
            let after = git_refreshed(s, now);
            let due = s.git_refresh_due || now >= s.last_git_request
                + s.config.git_refresh_interval;
            &&& s.pending_git is Some || !due ==> after == s
            &&& s.pending_git is None && due && has_place(s) ==> {
                &&& after.queue.len() == s.queue.len() + 1
                &&& after.queue.drop_last() =~= s.queue
                &&& after.queue.last() == (JobView::Git {
                    id: s.next_id,
                    root: WrittenPath { path: s.root, text: s.root_text },
                    cap: s.config.entry_cap as nat,
                })
                &&& after.pending_git == Some(s.next_id)
                &&& after.last_git_request == now
                &&& !after.git_refresh_due
            }
            &&& s.pending_git is None && due && !has_place(s) && !s.worker_lost
                ==> after.git_refresh_due && after.queue == s.queue
            &&& s.pending_git is None && due && s.worker_lost ==> after.git_error == Some(
                "sidebar worker is unavailable"@,
            )
        }),
{
    let after = git_refreshed(s, now);
    if after.queue.len() > s.queue.len() {
        assert(after.queue.drop_last() =~= s.queue);
    }
}

/// A snapshot that was waited for becomes the latest, and its changes are
/// shown; trouble with the repository is told and nothing is shown.
pub proof fn law_snapshot_is_taken_in(
    s: SidebarState,
    id: u64,
    changes: Seq<Change>,
    error: Seq<char>,
)
    requires
        s.pending_git == Some(id),
    ensures
        ({
            let (after, awaited) = git_applied(s, id, Ok(changes));
            &&& awaited
            &&& after.pending_git is None
            &&& after.git_error is None
            &&& after.git_changes == changes
            &&& after.tree == reconciled(s.tree, s.root, s.root_text, changes)
            &&& after.selected == s.selected
            &&& after.scroll == s.scroll
            &&& after.queue == s.queue
        }),
        ({
            let (after, awaited) = git_applied(s, id, Err(error));
            &&& awaited
            &&& after.pending_git is None
            &&& after.git_error == Some(error)
            &&& after.git_changes.len() == 0
        }),
{
}

/// A file operation that succeeded selects what it made, has the directory
/// listed again and the repository asked for, and is told; one that failed
/// changes nothing but that it is told.
pub proof fn law_operation_is_taken_in(
    s: SidebarState,
    id: u64,
    outcome: OutcomeView,
    error: Seq<char>,
    now: u128,
)
    requires
        s.pending_mutation == Some(id),
    ensures
        ({
            let (after, awaited) = mutation_applied(s, id, Ok(outcome), now);
            let parent = outcome.affected_parent.path;
            &&& awaited
            &&& after.pending_mutation is None
            &&& after.mutation_completion == Some(Ok::<(), Seq<char>>(()))
            &&& after.selected == Some(outcome.selected.path)
            &&& after.selected_text == Some(outcome.selected.text)
            &&& after.tree == s.tree
            &&& !s.worker_lost && was_listed(s.tree, parent) && (s.tree[parent].kind
                == EntryKind::Directory || s.tree[parent].kind == EntryKind::SymlinkDirectory)
                ==> crate::sidebar_laws::is_taken_up(after, parent)
            &&& s.pending_git is None && !s.worker_lost ==> after.pending_git is Some
                || after.git_refresh_due
        }),
        mutation_applied(s, id, Err(error), now) == (
            (SidebarState {
                pending_mutation: None,
                mutation_completion: Some(Err::<(), Seq<char>>(error)),
                ..s
            }),
            true,
        ),
{
    let marked = SidebarState {
        pending_mutation: None,
        selected: Some(outcome.selected.path),
        selected_text: Some(outcome.selected.text),
        dirty_dirs: with_path(s.dirty_dirs, outcome.affected_parent),
        ..s
    };
    let parent = outcome.affected_parent.path;
    lemma_with_path_holds(s.dirty_dirs, outcome.affected_parent, parent);
    lemma_schedule_keeps_time(
        SidebarState { dirty_dirs: Seq::empty(), ..marked },
        marked.dirty_dirs,
    );
    if !s.worker_lost && was_listed(s.tree, parent) && (s.tree[parent].kind
        == EntryKind::Directory || s.tree[parent].kind == EntryKind::SymlinkDirectory) {
        crate::sidebar_laws::law_no_change_is_forgotten(marked, parent);
    }
}

/// What the watcher tells of a path outside the repository's own directory is
/// passed on, in order; what it tells of that directory is not. A watcher that
/// failed asks for everything to be listed again.
pub proof fn law_events_become_news(root: Seq<Part>, paths: Seq<WrittenPath>, path: WrittenPath)
    ensures
        event_signal(root, None) == Some(SignalView::Rescan),
        ({
            let hidden = root.push(Part::Normal(seq![0x2eu8, 0x67u8, 0x69u8, 0x74u8]));
            let told = event_signal(root, Some(paths.push(path)));
            let before = event_signal(root, Some(paths));
            &&& is_under(path.path, hidden) ==> told == before
            &&& !is_under(path.path, hidden) ==> told == Some(
                SignalView::Paths(
                    (match before {
                        Some(SignalView::Paths(kept)) => kept,
                        _ => Seq::empty(),
                    }).push(path),
                ),
            )
        }),
        event_signal(root, Some(Seq::empty())) is None,
{
    let hidden = root.push(Part::Normal(seq![0x2eu8, 0x67u8, 0x69u8, 0x74u8]));
    assert(crate::path::dot_git() =~= seq![0x2eu8, 0x67u8, 0x69u8, 0x74u8]);
    let outside = |path: WrittenPath|
        !is_under(path.path, crate::path::child_path(root, crate::path::dot_git()));
    reveal(Seq::filter);
    assert(paths.push(path).drop_last() =~= paths);
    assert(paths.push(path).last() == path);
    let kept = paths.filter(outside);
    if kept.len() == 0 {
        assert(kept =~= Seq::empty());
    }
    assert(Seq::<WrittenPath>::empty().filter(outside).len() == 0);
}

/// The selection stays where it is as long as its path is known; otherwise it
/// goes to the nearest directory above that is.
pub proof fn law_selection_goes_up(tree: Tree, root: Seq<Part>, path: Seq<Part>)
    ensures
        selection_restored(tree, root, None) is None,
        tree.contains_key(path) ==> selection_restored(tree, root, Some(path)) == Some(path),
        !tree.contains_key(path) && parent_of(path) is Some && tree.contains_key(
            parent_of(path)->0,
        ) ==> selection_restored(tree, root, Some(path)) == parent_of(path),
        !tree.contains_key(path) && parent_of(path) is Some ==> selection_restored(
            tree,
            root,
            Some(path),
        ) == selection_restored(tree, root, parent_of(path)),
{
    reveal_with_fuel(nearest_known, 3);
}

/// A file operation that is asked for is handed to the worker under the next
/// number, with the trust that the workspace is to be asked about; while one is
/// under way, or there is no place, it is turned down.
pub proof fn law_operation_is_asked_for(s: SidebarState, mutation: MutationView)
    ensures
        ({
            let (after, answer) = mutation_requested(s, mutation);
            &&& answer is Ok <==> s.pending_mutation is None && has_place(s)
            &&& answer is Ok ==> {
                &&& after.queue =~= s.queue.push(
                    JobView::Mutation {
                        id: s.next_id,
                        root: WrittenPath { path: s.root, text: s.root_text },
                        trust: s.trust,
                        mutation,
                    },
                )
                &&& after.pending_mutation == Some(s.next_id)
            }
            &&& answer is Err ==> after.queue == s.queue && after.pending_mutation
                == s.pending_mutation
            &&& after.tree == s.tree
        }),
{
}

} // verus!
