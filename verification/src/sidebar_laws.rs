//! What the sidebar promises.

use vstd::prelude::*;

use crate::collections::{with_path, without_path};
use crate::decorate::reconciled;
use crate::decoration_laws::{
    is_strongest, law_decoration_keeps_entries, law_status_is_the_strongest_report,
};
use crate::git::no_decoration;
use crate::jobs::{
    event_signal, watched_paths, ActivationView, MutationView, ResponseView, SignalView,
};
use crate::listing::{
    dropped, entries_of, entry_node, entry_paths, lie_below, listing_applied, node_at, with_entries,
    EntryView, ListingView,
};
use crate::path::{child_path, dot_git, is_under, parent_of, plain_paths, Part, WrittenPath};
use crate::rooted::{lemma_listing_rooted, lemma_node_changed, lemma_reconciled_rooted};
use crate::sidebar::lemma_scheduled_keeps;
use crate::state::{
    activated, all_dirty_handled, all_rows, collapsed, dirty_handled, expand_requested, git_applied,
    git_requested, has_room, id_after, is_known_directory, is_loaded_directory, is_rooted, is_valid,
    listing_entered, load_applied, load_job, loaded_queued, mutation_requested, nearest_known,
    reconciliation_run, reload_requested, reload_resumed, reloads_scheduled, response_applied,
    responses_applied, row_paths, saturating_minus, scroll_restored, scroll_to_show, scrolled,
    selection_restored, spelled_rows, spelled_selection, ticked, tree_settled, watch_collected,
    watch_settled, window, worker_unavailable, SidebarState,
};
use crate::subtree::listed;
use crate::tree::{deepest, row_of, rows_at, rows_below, tree_ok, EntryKind, RowView, Tree};

verus! {

/// Whether a reply answers a job that is still waited for.
pub open spec fn is_awaited(s: SidebarState, response: ResponseView) -> bool {
    match response {
        ResponseView::Load { id, path, .. } => s.pending_loads.contains_key(path)
            && s.pending_loads[path] == id,
        ResponseView::Git { id, .. } => s.pending_git == Some(id),
        ResponseView::Mutation { id, .. } => s.pending_mutation == Some(id),
    }
}

/// A reply that nothing waits for changes nothing.
pub proof fn law_stale_reply_is_ignored(s: SidebarState, response: ResponseView, now: u128)
    requires
        !is_awaited(s, response),
    ensures
        response_applied(s, response, now) == (s, false),
{
}

/// Once a directory is collapsed, no listing of it that was asked for before is
/// taken in.
pub proof fn law_collapse_rejects_listing(
    s: SidebarState,
    path: Seq<Part>,
    text: Seq<u8>,
    id: u64,
    result: Result<ListingView, Seq<char>>,
)
    ensures
        load_applied(collapsed(s, path), id, path, text, result) == (collapsed(s, path), false),
{
}

/// While the queue is full or the worker is gone, requests are turned down and
/// no job is lost or added.
pub proof fn law_full_queue_turns_requests_down(
    s: SidebarState,
    path: Seq<Part>,
    text: Seq<u8>,
    mutation: MutationView,
    now: u128,
)
    requires
        !has_room(s),
    ensures
        !expand_requested(s, path, text).1,
        !git_requested(s, now).1,
        mutation_requested(s, mutation).1 is Err,
        expand_requested(s, path, text).0.queue == s.queue,
        git_requested(s, now).0.queue == s.queue,
        reload_requested(s, path, text).0.queue == s.queue,
        mutation_requested(s, mutation).0.queue == s.queue,
        expand_requested(s, path, text).0.pending_loads == s.pending_loads,
        git_requested(s, now).0.pending_git == s.pending_git,
        reload_requested(s, path, text).0.pending_loads == s.pending_loads,
        mutation_requested(s, mutation).0.pending_mutation == s.pending_mutation,
{
}

/// A job number is never zero and differs from the one before.
pub proof fn law_numbers_are_fresh(id: u64)
    ensures
        id_after(id) > 0,
        id_after(id) != id,
{
}

/// A directory whose listing was asked for is shown expanded and loading, and
/// its listing is awaited under the number of the job.
pub proof fn law_expand_awaits_its_listing(
    s: SidebarState,
    path: Seq<Part>,
    text: Seq<u8>,
    result: Result<ListingView, Seq<char>>,
)
    requires
        is_known_directory(s, path),
        !s.tree[path].loaded,
        has_room(s),
    ensures
        expand_requested(s, path, text).1,
        expand_requested(s, path, text).0.queue.last() == load_job(s, path, text),
        expand_requested(s, path, text).0.tree[path].expanded,
        expand_requested(s, path, text).0.tree[path].loading,
        is_awaited(
            expand_requested(s, path, text).0,
            (ResponseView::Load { id: s.next_id, path, text, result }),
        ),
{
}

proof fn lemma_entry_kept(tree: Tree, entries: Seq<EntryView>, at: int, path: Seq<Part>)
    requires
        0 <= at < entries.len(),
        lie_below(entries, path),
        forall|i: int, j: int|
            0 <= i < j < entries.len() ==> (#[trigger] entries[i]).path != (
            #[trigger] entries[j]).path,
    ensures
        with_entries(tree, entries).contains_key(entries[at].path),
        with_entries(tree, entries)[entries[at].path] == entry_node(
            entries[at],
            node_at(tree, entries[at].path),
        ),
    decreases entries.len(),
{
    let front = entries.drop_last();
    assert forall|i: int| 0 <= i < front.len() implies parent_of((#[trigger] front[i]).path)
        == Some(path) by {
        assert(front[i] == entries[i]);
    }
    if at < front.len() {
        assert(front[at] == entries[at]);
        lemma_entry_kept(tree, front, at, path);
        assert(entries[at].path != entries[entries.len() - 1].path);
    } else {
        lemma_entries_elsewhere(tree, front, entries[at].path);
    }
}

pub proof fn lemma_entries_elsewhere(tree: Tree, entries: Seq<EntryView>, path: Seq<Part>)
    requires
        forall|i: int| 0 <= i < entries.len() ==> (#[trigger] entries[i]).path != path,
    ensures
        node_at(with_entries(tree, entries), path) == node_at(tree, path),
    decreases entries.len(),
{
    if entries.len() > 0 {
        let front = entries.drop_last();
        assert forall|i: int| 0 <= i < front.len() implies (#[trigger] front[i]).path != path by {
            assert(front[i] == entries[i]);
        }
        lemma_entries_elsewhere(tree, front, path);
        assert(entries[entries.len() - 1].path != path);
    }
}

/// A listed child that a new listing still holds is not dropped.
proof fn lemma_kept_not_dropped(tree: Tree, path: Seq<Part>, kept: Seq<Seq<Part>>, child: Seq<Part>)
    requires
        tree_ok(tree),
        tree.contains_key(path),
        kept.contains(child),
        parent_of(child) == Some(path),
    ensures
        !dropped(tree, path, kept).contains(child),
{
    if dropped(tree, path, kept).contains(child) {
        let kids = tree[path].children;
        let i = choose|i: int|
            0 <= i < kids.len() && !kept.contains(kids[i]) && listed(tree, #[trigger] kids[i], child);
        assert(parent_of(tree[path].children[i]) == Some(path));
        assert(kids[i].drop_last().len() == kids[i].len() - 1);
        assert(child.drop_last().len() == child.len() - 1);
        assert(child.take(kids[i].len() as int) =~= child);
        assert(kids[i] == child);
    }
}

/// When a listing comes in, the directory is loaded, each entry has its node,
/// and a directory that is still the same one stays expanded and loaded as it
/// was.
pub proof fn law_listing_is_taken_in(
    tree: Tree,
    path: Seq<Part>,
    listing: ListingView,
    cap: nat,
    at: int,
)
    requires
        tree_ok(tree),
        tree.contains_key(path),
        entries_of(listing.entries, path),
        0 <= at < listing.entries.len(),
    ensures
        listing_applied(tree, path, listing, cap)[path].loaded,
        !listing_applied(tree, path, listing, cap)[path].loading,
        listing_applied(tree, path, listing, cap)[path].children == entry_paths(listing.entries),
        listing_applied(tree, path, listing, cap).contains_key(listing.entries[at].path),
        listing_applied(tree, path, listing, cap)[listing.entries[at].path] == entry_node(
            listing.entries[at],
            node_at(tree, listing.entries[at].path),
        ),
{
    let entries = listing.entries;
    let kept = entry_paths(entries);
    let child = entries[at].path;
    assert(parent_of(entries[at].path) == Some(path));
    assert(kept[at] == child);
    lemma_kept_not_dropped(tree, path, kept, child);
    let rest = tree.remove_keys(dropped(tree, path, kept));
    assert forall|i: int, j: int| 0 <= i < j < entries.len() implies (#[trigger] entries[i]).path != (
    #[trigger] entries[j]).path by {
        assert(kept[i] == entries[i].path && kept[j] == entries[j].path);
    }
    lemma_entry_kept(rest, entries, at, path);
    assert(child.drop_last().len() == child.len() - 1);
    assert(node_at(rest, child) == node_at(tree, child));
}

/// A child that a new listing no longer holds is not waited for any more; what
/// else is being listed still is.
pub proof fn law_vanished_child_is_not_awaited(
    s: SidebarState,
    path: Seq<Part>,
    listing: ListingView,
    child: Seq<Part>,
    other: Seq<Part>,
)
    requires
        s.tree.contains_key(path),
        s.tree.contains_key(child),
        s.tree[path].children.contains(child),
        !entry_paths(listing.entries).contains(child),
        !is_under(other, path),
    ensures
        ({
            let after = listing_entered(s, path, Ok(listing));
            &&& !after.pending_loads.contains_key(child)
            &&& tree_ok(s.tree) && s.pending_loads.contains_key(other)
                ==> after.pending_loads.contains_key(other) && after.pending_loads[other]
                == s.pending_loads[other]
        }),
{
    let kids = s.tree[path].children;
    let kept = entry_paths(listing.entries);
    let i = kids.index_of(child);
    assert(kids[i] == child);
    assert(child.take(child.len() as int) =~= child);
    assert(listed(s.tree, s.tree[path].children[i], child));
    assert(dropped(s.tree, path, kept).contains(child));
    if tree_ok(s.tree) && dropped(s.tree, path, kept).contains(other) {
        let j = choose|j: int|
            0 <= j < kids.len() && !kept.contains(kids[j]) && listed(
                s.tree,
                #[trigger] s.tree[path].children[j],
                other,
            );
        let top = s.tree[path].children[j];
        assert(parent_of(top) == Some(path));
        assert(top.drop_last() =~= path);
        assert(other.take(path.len() as int) =~= other.take(top.len() as int).take(
            path.len() as int,
        ));
        assert(top.take(path.len() as int) =~= path);
        assert(is_under(other, path));
    }
}

/// A child that a new listing no longer holds is gone, and so is everything
/// that was listed below it.
pub proof fn law_vanished_child_is_dropped(
    tree: Tree,
    path: Seq<Part>,
    listing: ListingView,
    cap: nat,
    child: Seq<Part>,
    below: Seq<Part>,
)
    requires
        tree_ok(tree),
        tree.contains_key(path),
        entries_of(listing.entries, path),
        tree[path].children.contains(child),
        !entry_paths(listing.entries).contains(child),
        listed(tree, child, below),
    ensures
        !listing_applied(tree, path, listing, cap).contains_key(below),
{
    let kids = tree[path].children;
    let entries = listing.entries;
    let kept = entry_paths(entries);
    let i = kids.index_of(child);
    assert(kids[i] == child);
    assert(parent_of(tree[path].children[i]) == Some(path));
    assert(child.drop_last().len() == child.len() - 1);
    let gone = dropped(tree, path, kept);
    assert(listed(tree, kids[i], below));
    assert(gone.contains(below));
    assert forall|j: int| 0 <= j < entries.len() implies (#[trigger] entries[j]).path != below by {
        assert(parent_of(entries[j].path) == Some(path));
        assert(entries[j].path.drop_last().len() == entries[j].path.len() - 1);
        if entries[j].path == below {
            assert(below.take(child.len() as int) =~= below);
            assert(kept[j] == child);
        }
    }
    lemma_entries_elsewhere(tree.remove_keys(gone), entries, below);
}

/// A listing that fails leaves a loaded directory loaded, with the error shown,
/// so that it can be listed again.
pub proof fn law_failed_listing_can_be_retried(
    s: SidebarState,
    path: Seq<Part>,
    text: Seq<u8>,
    error: Seq<char>,
)
    requires
        is_valid(s),
        s.tree.contains_key(path),
        !s.tree[path].synthetic_deleted,
        s.pending_loads.contains_key(path),
    ensures
        load_applied(s, s.pending_loads[path], path, text, Err(error)).1,
        load_applied(s, s.pending_loads[path], path, text, Err(error)).0.tree.contains_key(path),
        load_applied(s, s.pending_loads[path], path, text, Err(error)).0.tree[path].loaded
            == s.tree[path].loaded,
        load_applied(s, s.pending_loads[path], path, text, Err(error)).0.tree[path].error == Some(
            error,
        ),
        !load_applied(s, s.pending_loads[path], path, text, Err(error)).0.tree[path].loading,
{
    let taken = SidebarState { pending_loads: s.pending_loads.remove(path), ..s };
    let entered = listing_entered(taken, path, Err(error));
    law_decoration_keeps_entries(entered.tree, s.root, s.root_text, s.git_changes, path);
    let settled = tree_settled(entered, all_rows(s));
    lemma_resumed_keeps(settled, path, text);
}

proof fn lemma_resumed_keeps(s: SidebarState, path: Seq<Part>, text: Seq<u8>)
    ensures
        reload_resumed(s, path, text).tree == s.tree,
        reload_resumed(s, path, text).selected == s.selected,
        reload_resumed(s, path, text).scroll == s.scroll,
        reload_resumed(s, path, text).root == s.root,
{
    let marked = SidebarState {
        reload_after_pending: without_path(s.reload_after_pending, path),
        dirty_dirs: with_path(s.dirty_dirs, WrittenPath { path, text }),
        ..s
    };
    lemma_scheduled_keeps(marked);
    lemma_scheduled_keeps_view(marked);
}

proof fn lemma_dirty_keeps_view(s: SidebarState, dirty: Seq<WrittenPath>)
    ensures
        all_dirty_handled(s, dirty).selected == s.selected,
        all_dirty_handled(s, dirty).scroll == s.scroll,
    decreases dirty.len(),
{
    if dirty.len() > 0 {
        lemma_dirty_keeps_view(s, dirty.drop_last());
    }
}

proof fn lemma_scheduled_keeps_view(s: SidebarState)
    ensures
        reloads_scheduled(s).selected == s.selected,
        reloads_scheduled(s).scroll == s.scroll,
{
    lemma_dirty_keeps_view(SidebarState { dirty_dirs: Seq::empty(), ..s }, s.dirty_dirs);
}

/// The tree as a listing that was awaited leaves it.
pub proof fn lemma_load_result(
    s: SidebarState,
    path: Seq<Part>,
    text: Seq<u8>,
    result: Result<ListingView, Seq<char>>,
)
    requires
        is_valid(s),
        s.tree.contains_key(path),
        s.pending_loads.contains_key(path),
        result is Ok ==> entries_of(result->Ok_0.entries, path),
    ensures
        ({
            let taken = SidebarState { pending_loads: s.pending_loads.remove(path), ..s };
            let entered = listing_entered(taken, path, result);
            let after = load_applied(s, s.pending_loads[path], path, text, result).0;
            &&& after.tree == reconciled(entered.tree, s.root, s.root_text, s.git_changes)
            &&& after.root == s.root
            &&& after.selected == selection_restored(after.tree, s.root, s.selected)
            &&& after.scroll == scroll_restored(all_rows(s), all_rows(after), s.scroll)
            &&& is_rooted(after.tree, s.root)
            &&& tree_ok(entered.tree)
        }),
{
    let taken = SidebarState { pending_loads: s.pending_loads.remove(path), ..s };
    let entered = listing_entered(taken, path, result);
    lemma_resumed_keeps(tree_settled(entered, all_rows(s)), path, text);
    match result {
        Ok(listing) => {
            lemma_listing_rooted(s.tree, s.root, path, listing, s.config.entry_cap as nat);
        },
        Err(error) => {
            lemma_node_changed(s.tree, s.root, path, entered.tree[path]);
        },
    }
    lemma_reconciled_rooted(entered.tree, s.root, s.root_text, s.git_changes);
}

/// A listing that comes in shows the latest Git snapshot at once: every entry
/// has the strongest status that the snapshot reports about it.
pub proof fn law_listing_shows_latest_snapshot(
    s: SidebarState,
    path: Seq<Part>,
    text: Seq<u8>,
    listing: ListingView,
    at: int,
)
    requires
        is_valid(s),
        s.tree.contains_key(path),
        s.pending_loads.contains_key(path),
        entries_of(listing.entries, path),
        0 <= at < listing.entries.len(),
    ensures
        ({
            let after = load_applied(s, s.pending_loads[path], path, text, Ok(listing)).0;
            let child = listing.entries[at].path;
            &&& after.tree.contains_key(child)
            &&& is_strongest(s.root, s.git_changes, child, after.tree[child].git.status)
        }),
{
    lemma_load_result(s, path, text, Ok(listing));
    let taken = SidebarState { pending_loads: s.pending_loads.remove(path), ..s };
    let entered = listing_entered(taken, path, Ok(listing));
    let child = listing.entries[at].path;
    law_listing_is_taken_in(s.tree, path, listing, s.config.entry_cap as nat, at);
    law_status_is_the_strongest_report(entered.tree, s.root, s.root_text, s.git_changes, child);
    law_decoration_keeps_entries(entered.tree, s.root, s.root_text, s.git_changes, child);
}

proof fn lemma_nearest_known(tree: Tree, cursor: Option<Seq<Part>>)
    ensures
        nearest_known(tree, cursor) is Some ==> tree.contains_key(nearest_known(tree, cursor)->0)
            && cursor is Some && is_under(cursor->0, nearest_known(tree, cursor)->0),
    decreases
            match cursor {
                Some(path) => path.len() + 1,
                None => 0,
            },
{
    if let Some(path) = cursor {
        if tree.contains_key(path) {
            assert(path.take(path.len() as int) =~= path);
        } else {
            lemma_nearest_known(tree, parent_of(path));
            if let Some(known) = nearest_known(tree, parent_of(path)) {
                assert(path.take(known.len() as int) =~= path.drop_last().take(known.len() as int));
            }
        }
    }
}

/// After a listing came in, a selection stays where it is if it is still
/// known, and otherwise moves to a known ancestor or to the root.
pub proof fn law_selection_survives_listing(
    s: SidebarState,
    path: Seq<Part>,
    text: Seq<u8>,
    result: Result<ListingView, Seq<char>>,
)
    requires
        is_valid(s),
        s.tree.contains_key(path),
        s.pending_loads.contains_key(path),
        result is Ok ==> entries_of(result->Ok_0.entries, path),
        s.selected is Some,
    ensures
        ({
            let after = load_applied(s, s.pending_loads[path], path, text, result).0;
            &&& after.selected is Some
            &&& after.tree.contains_key(after.selected->0)
            &&& after.tree.contains_key(s.selected->0) ==> after.selected == s.selected
            &&& after.selected->0 == s.root || is_under(s.selected->0, after.selected->0)
        }),
{
    lemma_load_result(s, path, text, result);
    let after = load_applied(s, s.pending_loads[path], path, text, result).0;
    lemma_nearest_known(after.tree, s.selected);
}

/// After a listing came in, the row at the top of the viewport stays there, as
/// long as it is still shown.
pub proof fn law_top_row_survives_listing(
    s: SidebarState,
    path: Seq<Part>,
    text: Seq<u8>,
    result: Result<ListingView, Seq<char>>,
)
    requires
        is_valid(s),
        s.tree.contains_key(path),
        s.pending_loads.contains_key(path),
        result is Ok ==> entries_of(result->Ok_0.entries, path),
        s.scroll < all_rows(s).len(),
    ensures
        ({
            let after = load_applied(s, s.pending_loads[path], path, text, result).0;
            let top = all_rows(s)[s.scroll as int].path;
            row_paths(all_rows(after)).contains(top) ==> after.scroll < all_rows(after).len()
                && all_rows(after)[after.scroll as int].path == top
        }),
{
    lemma_load_result(s, path, text, result);
    let after = load_applied(s, s.pending_loads[path], path, text, result).0;
    let top = all_rows(s)[s.scroll as int].path;
    row_paths(all_rows(after)).index_of_first_ensures(top);
}

proof fn lemma_selection_keeps_rows_at(
    tree: Tree,
    first: Option<Seq<Part>>,
    second: Option<Seq<Part>>,
    path: Seq<Part>,
    depth: nat,
)
    ensures
        spelled_rows(rows_at(tree, first, path, depth)) == spelled_rows(
            rows_at(tree, second, path, depth),
        ),
    decreases deepest(tree) + 1 - path.len(), 0nat,
{
    if tree.contains_key(path) && path.len() <= deepest(tree) && tree[path].expanded {
        let children = tree[path].children;
        lemma_selection_keeps_rows_below(
            tree,
            first,
            second,
            children,
            path.len() + 1,
            depth + 1,
        );
        let below = rows_below(tree, first, children, path.len() + 1, depth + 1);
        let other = rows_below(tree, second, children, path.len() + 1, depth + 1);
        lemma_spelled_sum(seq![row_of(tree[path], path, depth, first == Some(path))], below);
        lemma_spelled_sum(seq![row_of(tree[path], path, depth, second == Some(path))], other);
    }
    assert(spelled_rows(rows_at(tree, first, path, depth)) =~= spelled_rows(
        rows_at(tree, second, path, depth),
    ));
}

proof fn lemma_spelled_sum(first: Seq<RowView>, second: Seq<RowView>)
    ensures
        spelled_rows(first + second) == spelled_rows(first) + spelled_rows(second),
{
    assert(spelled_rows(first + second) =~= spelled_rows(first) + spelled_rows(second));
}

proof fn lemma_selection_keeps_rows_below(
    tree: Tree,
    first: Option<Seq<Part>>,
    second: Option<Seq<Part>>,
    paths: Seq<Seq<Part>>,
    length: nat,
    depth: nat,
)
    ensures
        spelled_rows(rows_below(tree, first, paths, length, depth)) == spelled_rows(
            rows_below(tree, second, paths, length, depth),
        ),
    decreases deepest(tree) + 1 - length, paths.len(),
{
    if paths.len() > 0 {
        let rest = paths.drop_last();
        lemma_selection_keeps_rows_below(tree, first, second, rest, length, depth);
        if paths.last().len() == length {
            lemma_selection_keeps_rows_at(tree, first, second, paths.last(), depth);
            lemma_spelled_sum(
                rows_below(tree, first, rest, length, depth),
                rows_at(tree, first, paths.last(), depth),
            );
            lemma_spelled_sum(
                rows_below(tree, second, rest, length, depth),
                rows_at(tree, second, paths.last(), depth),
            );
        }
    }
}

/// Selecting a row moves no row.
pub proof fn law_selection_moves_no_rows(s: SidebarState, selected: Option<Seq<Part>>)
    ensures
        spelled_rows(all_rows(SidebarState { selected, ..s })) == spelled_rows(all_rows(s)),
{
    lemma_selection_keeps_rows_at(s.tree, selected, s.selected, s.root, 0);
}

/// A viewport shows at most as many rows as it is high, from the scroll
/// position on.
pub proof fn law_viewport_is_a_window(s: SidebarState, height: nat)
    ensures
        window(all_rows(s), s.scroll, height).len() <= height,
        forall|i: int|
            0 <= i < window(all_rows(s), s.scroll, height).len() ==> #[trigger] window(
                all_rows(s),
                s.scroll,
                height,
            )[i] == all_rows(s)[s.scroll + i],
        window(all_rows(s), s.scroll, height).len() < height ==> s.scroll + window(
            all_rows(s),
            s.scroll,
            height,
        ).len() >= all_rows(s).len(),
{
}

/// Scrolling keeps the viewport filled as far as there are rows.
pub proof fn law_scroll_stays_in_range(s: SidebarState, delta: int, height: nat)
    ensures
        scrolled(s, delta, height) <= saturating_minus(all_rows(s).len(), height),
{
}

/// A row that is brought into view is in view, and so are the rows behind it
/// that were asked for, if the viewport is high enough.
pub proof fn law_path_is_brought_into_view(
    scroll: nat,
    total: nat,
    position: nat,
    height: nat,
    trailing: nat,
)
    requires
        position < total,
        trailing < height,
        position + trailing < usize::MAX,
    ensures
        ({
            let after = scroll_to_show(scroll, total, position, height, trailing);
            after <= position && position + trailing < after + height
        }),
{
}

/// Only a file or a link that resolves is ever opened.
pub proof fn law_only_files_are_opened(s: SidebarState, path: WrittenPath)
    requires
        activated(s).1 == Some(ActivationView::OpenFile(path)),
    ensures
        spelled_selection(s) == Some(path),
        s.tree.contains_key(path.path),
        s.tree[path.path].kind == EntryKind::File || s.tree[path.path].kind == EntryKind::Symlink,
        s.tree[path.path].error is None,
        activated(s).0 == s,
{
}

/// Activating a loaded directory twice gives back the tree.
pub proof fn law_activation_toggles_directories(s: SidebarState)
    requires
        s.selected is Some,
        is_known_directory(s, s.selected->0),
        s.tree[s.selected->0].loaded,
        !s.tree[s.selected->0].loading,
    ensures
        activated(s).0.tree[s.selected->0].expanded == !s.tree[s.selected->0].expanded,
        activated(activated(s).0).0.tree == s.tree,
{
    let path = s.selected->0;
    assert(activated(activated(s).0).0.tree[path] == s.tree[path]);
    assert(activated(activated(s).0).0.tree =~= s.tree);
}

/// Only one file operation is under way at a time.
pub proof fn law_one_mutation_at_a_time(
    s: SidebarState,
    first: MutationView,
    second: MutationView,
)
    requires
        mutation_requested(s, first).1 is Ok,
    ensures
        mutation_requested(mutation_requested(s, first).0, second) == (
            mutation_requested(s, first).0,
            Err::<(), Seq<char>>("a sidebar file operation is already pending"@),
        ),
{
}

/// Whether a directory will be listed again.
pub open spec fn is_taken_up(s: SidebarState, path: Seq<Part>) -> bool {
    s.pending_loads.contains_key(path) || plain_paths(s.reload_after_pending).contains(path)
        || plain_paths(s.dirty_dirs).contains(path)
}

proof fn lemma_taken_up_stays(s: SidebarState, path: Seq<Part>, other: WrittenPath)
    requires
        is_taken_up(s, path),
    ensures
        is_taken_up(dirty_handled(s, other), path),
{
    let (after, settled) = reload_requested(s, other.path, other.text);
    lemma_with_path_holds(s.reload_after_pending, other, path);
    lemma_with_path_holds(after.dirty_dirs, other, path);
}

pub proof fn lemma_with_path_holds(paths: Seq<WrittenPath>, added: WrittenPath, path: Seq<Part>)
    ensures
        plain_paths(with_path(paths, added)).contains(added.path),
        plain_paths(paths).contains(path) ==> plain_paths(with_path(paths, added)).contains(path),
{
    let before = plain_paths(paths);
    if !before.contains(added.path) {
        let after = plain_paths(paths.push(added));
        assert(after[paths.len() as int] == added.path);
        if before.contains(path) {
            let i = before.index_of(path);
            assert(after[i] == path);
        }
    }
}

proof fn lemma_all_taken_up(s: SidebarState, dirty: Seq<WrittenPath>, path: Seq<Part>)
    requires
        !s.worker_lost,
        is_loaded_directory(s.tree, path),
        plain_paths(dirty).contains(path),
    ensures
        is_taken_up(all_dirty_handled(s, dirty), path),
        !all_dirty_handled(s, dirty).worker_lost,
        all_dirty_handled(s, dirty).tree == s.tree,
    decreases dirty.len(),
{
    let front = dirty.drop_last();
    let last = dirty.last();
    let before = all_dirty_handled(s, front);
    lemma_all_dirty_keeps_worker(s, front);
    let i = plain_paths(dirty).index_of(path);
    assert(dirty[i].path == path);
    if last.path == path {
        let (after, settled) = reload_requested(before, last.path, last.text);
        lemma_with_path_holds(before.reload_after_pending, last, path);
        lemma_with_path_holds(after.dirty_dirs, last, path);
    } else {
        assert(plain_paths(front)[i] == path);
        lemma_all_taken_up(s, front, path);
        lemma_taken_up_stays(before, path, last);
    }
}

proof fn lemma_all_dirty_keeps_worker(s: SidebarState, dirty: Seq<WrittenPath>)
    ensures
        all_dirty_handled(s, dirty).worker_lost == s.worker_lost,
        all_dirty_handled(s, dirty).tree == s.tree,
    decreases dirty.len(),
{
    if dirty.len() > 0 {
        lemma_all_dirty_keeps_worker(s, dirty.drop_last());
    }
}

/// A directory that changed is listed again sooner or later, however full the
/// queue is: its listing is awaited, or it is kept for the next round.
pub proof fn law_no_change_is_forgotten(s: SidebarState, path: Seq<Part>)
    requires
        !s.worker_lost,
        is_loaded_directory(s.tree, path),
        plain_paths(s.dirty_dirs).contains(path),
    ensures
        is_taken_up(reloads_scheduled(s), path),
{
    lemma_all_taken_up(SidebarState { dirty_dirs: Seq::empty(), ..s }, s.dirty_dirs, path);
}

/// A directory that changed while it was being listed is listed once more when
/// the listing comes in.
pub proof fn law_change_during_listing_is_kept(s: SidebarState, path: Seq<Part>, text: Seq<u8>)
    requires
        !s.worker_lost,
        is_loaded_directory(s.tree, path),
        plain_paths(s.reload_after_pending).contains(path),
    ensures
        is_taken_up(reload_resumed(s, path, text), path),
{
    let marked = SidebarState {
        reload_after_pending: without_path(s.reload_after_pending, path),
        dirty_dirs: with_path(s.dirty_dirs, WrittenPath { path, text }),
        ..s
    };
    lemma_with_path_holds(s.dirty_dirs, WrittenPath { path, text }, path);
    law_no_change_is_forgotten(marked, path);
}

/// The watcher's news about the repository directory are dropped.
pub proof fn law_repository_events_are_dropped(root: Seq<Part>, paths: Seq<WrittenPath>)
    requires
        forall|i: int|
            0 <= i < paths.len() ==> is_under(
                (#[trigger] paths[i]).path,
                child_path(root, dot_git()),
            ),
    ensures
        event_signal(root, Some(paths)) is None,
{
    let outside = |path: WrittenPath| !is_under(path.path, child_path(root, dot_git()));
    if watched_paths(root, paths).len() > 0 {
        let path = watched_paths(root, paths)[0];
        assert(paths.filter(outside).contains(path));
        paths.lemma_filter_contains_rev(outside, path);
        paths.lemma_filter_pred(outside, 0);
        let i = paths.index_of(path);
        assert(paths[i] == path);
    }
}

/// Whether two states show the same: the tree and its decorations, the
/// selection, the scroll position, the trouble with the repository and the end
/// of a file operation.
pub open spec fn shows_the_same(after: SidebarState, before: SidebarState) -> bool {
    &&& after.root == before.root
    &&& after.tree == before.tree
    &&& after.selected == before.selected
    &&& after.selected_text == before.selected_text
    &&& after.scroll == before.scroll
    &&& after.git_changes == before.git_changes
    &&& after.mutation_completion == before.mutation_completion
    &&& after.worker_lost == before.worker_lost
    &&& after.git_error == before.git_error
}

/// Whether two states show the same, or the second lacks only the news that the
/// worker is gone.
spec fn shows_at_most_a_lost_worker(after: SidebarState, before: SidebarState) -> bool {
    ||| shows_the_same(after, before)
    ||| {
        &&& before.worker_lost
        &&& after.git_error == Some(worker_unavailable())
        &&& shows_the_same(SidebarState { git_error: before.git_error, ..after }, before)
    }
}

proof fn lemma_dirty_shows_the_same(s: SidebarState, dirty: Seq<WrittenPath>)
    ensures
        shows_at_most_a_lost_worker(all_dirty_handled(s, dirty), s),
    decreases dirty.len(),
{
    if dirty.len() > 0 {
        lemma_dirty_shows_the_same(s, dirty.drop_last());
    }
}

proof fn lemma_ignored_shows_the_same(
    s: SidebarState,
    responses: Seq<ResponseView>,
    now: u128,
)
    requires
        !responses_applied(s, responses, now).1,
    ensures
        shows_the_same(responses_applied(s, responses, now).0, s),
    decreases responses.len(),
{
    if responses.len() > 0 {
        lemma_ignored_shows_the_same(s, responses.drop_last(), now);
    }
}

/// Whether a round reports that something changed.
pub open spec fn tick_changed(
    s: SidebarState,
    now: u128,
    responses: Seq<ResponseView>,
    signals: Seq<SignalView>,
    first: Seq<Seq<Part>>,
    second: Seq<Seq<Part>>,
) -> bool {
    ||| responses_applied(s, responses, now).1
    ||| ticked(s, now, responses, signals, first, second).git_error != s.git_error
}

proof fn lemma_round_shows_at_most_a_lost_worker(
    s: SidebarState,
    now: u128,
    responses: Seq<ResponseView>,
    signals: Seq<SignalView>,
    first: Seq<Seq<Part>>,
    second: Seq<Seq<Part>>,
)
    requires
        !responses_applied(s, responses, now).1,
    ensures
        shows_at_most_a_lost_worker(ticked(s, now, responses, signals, first, second), s),
{
    lemma_ignored_shows_the_same(s, responses, now);
    let replied = responses_applied(s, responses, now).0;
    let collected = watch_collected(replied, signals, now, first);
    lemma_dirty_shows_the_same(
        SidebarState { watch_dirty_since: None, dirty_dirs: Seq::empty(), ..collected },
        collected.dirty_dirs,
    );
    let watched = watch_settled(collected, now);
    assert(shows_at_most_a_lost_worker(watched, s));
    let queued = loaded_queued(watched.tree, watched.dirty_dirs, second);
    lemma_dirty_shows_the_same(
        SidebarState {
            next_fs_reconcile: (now + watched.config.fs_reconcile_interval) as u128,
            dirty_dirs: Seq::empty(),
            ..watched
        },
        queued,
    );
    assert(shows_at_most_a_lost_worker(reconciliation_run(watched, now, second), s));
}

/// A round that reports no change shows what was shown before: what it heard of
/// the disk and what was due led to requests alone.
pub proof fn law_quiet_tick_shows_the_same(
    s: SidebarState,
    now: u128,
    responses: Seq<ResponseView>,
    signals: Seq<SignalView>,
    first: Seq<Seq<Part>>,
    second: Seq<Seq<Part>>,
)
    requires
        !tick_changed(s, now, responses, signals, first, second),
    ensures
        shows_the_same(ticked(s, now, responses, signals, first, second), s),
{
    lemma_round_shows_at_most_a_lost_worker(s, now, responses, signals, first, second);
}

/// A round without an awaited reply reports a change only when it found the
/// worker gone, and then that is the trouble it shows.
pub proof fn law_only_a_lost_worker_is_news_without_a_reply(
    s: SidebarState,
    now: u128,
    responses: Seq<ResponseView>,
    signals: Seq<SignalView>,
    first: Seq<Seq<Part>>,
    second: Seq<Seq<Part>>,
)
    requires
        !responses_applied(s, responses, now).1,
        tick_changed(s, now, responses, signals, first, second),
    ensures
        s.worker_lost,
        ticked(s, now, responses, signals, first, second).git_error == Some(
            worker_unavailable(),
        ),
{
    lemma_round_shows_at_most_a_lost_worker(s, now, responses, signals, first, second);
}

/// A directory that is loaded is expanded at once, and nothing is asked for.
pub proof fn law_loaded_directory_expands_at_once(s: SidebarState, path: Seq<Part>, text: Seq<u8>)
    requires
        is_known_directory(s, path),
        s.tree[path].loaded,
    ensures
        !expand_requested(s, path, text).1,
        expand_requested(s, path, text).0.tree[path].expanded,
        expand_requested(s, path, text).0.queue == s.queue,
{
}

/// A repository that cannot be asked leaves a tree without decorations, and
/// every entry of the disk in its place.
pub proof fn law_failed_git_leaves_the_tree(s: SidebarState, error: Seq<char>, path: Seq<Part>)
    requires
        s.pending_git is Some,
        s.tree.contains_key(path),
        !s.tree[path].synthetic_deleted,
    ensures
        ({
            let after = git_applied(s, s.pending_git->0, Err(error)).0;
            &&& after.git_error == Some(error)
            &&& after.git_changes.len() == 0
            &&& after.tree.contains_key(path)
            &&& after.tree[path].git == no_decoration()
            &&& after.tree[path].kind == s.tree[path].kind
            &&& after.tree[path].expanded == s.tree[path].expanded
            &&& after.tree[path].loaded == s.tree[path].loaded
            &&& after.selected == s.selected
            &&& after.scroll == s.scroll
        }),
{
}

} // verus!
