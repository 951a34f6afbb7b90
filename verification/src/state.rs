//! The state of the sidebar as a value, and what each operation makes of it.

use vstd::prelude::*;

use crate::collections::{with_path, without_path};
use crate::decorate::{cleared, reconciled};
use crate::git::Change;
use crate::jobs::{ActivationView, JobView, MutationView, OutcomeView, ResponseView, SignalView};
use crate::listing::{dropped, entry_paths, listing_applied, ListingView};
use crate::path::{
    is_under, parent_bytes, parent_of, plain_paths, written_parent, Part, WrittenPath,
};
use crate::tree::{children_known, lists_once, rows_at, tree_ok, EntryKind, NodeView, RowView, Tree};

verus! {

/// Limits and intervals. Times are in nanoseconds.
#[derive(Debug, Clone, Copy, PartialEq, Eq, Structural)]
pub struct SidebarConfig {
    pub entry_cap: usize,
    pub channel_capacity: usize,
    pub git_refresh_interval: u128,
    pub fs_debounce_interval: u128,
    pub fs_reconcile_interval: u128,
}

/// The limits and intervals of a sidebar that was given none.
pub open spec fn default_config() -> SidebarConfig {
    SidebarConfig {
        entry_cap: 10_000,
        channel_capacity: 8,
        git_refresh_interval: 3_000_000_000,
        fs_debounce_interval: 150_000_000,
        fs_reconcile_interval: 5_000_000_000,
    }
}

/// Everything that the sidebar knows.
#[verifier::ext_equal]
pub struct SidebarState {
    pub root: Seq<Part>,
    /// The bytes that the root is written with.
    pub root_text: Seq<u8>,
    pub config: SidebarConfig,
    pub tree: Tree,
    pub selected: Option<Seq<Part>>,
    /// The bytes that the selected path is written with.
    pub selected_text: Option<Seq<u8>>,
    pub scroll: nat,
    /// Jobs that the worker has not taken yet, oldest first.
    pub queue: Seq<JobView>,
    /// Whether the worker is gone.
    pub worker_lost: bool,
    pub next_id: u64,
    /// The job that each directory being listed waits for.
    pub pending_loads: Map<Seq<Part>, u64>,
    pub pending_git: Option<u64>,
    pub git_refresh_due: bool,
    pub last_git_request: u128,
    pub git_error: Option<Seq<char>>,
    pub git_changes: Seq<Change>,
    /// Directories to list again, oldest first.
    pub dirty_dirs: Seq<WrittenPath>,
    pub watch_dirty_since: Option<u128>,
    /// Directories to list again once the listing under way is in.
    pub reload_after_pending: Seq<WrittenPath>,
    pub next_fs_reconcile: u128,
    /// Whether there is a store to ask for the workspace's trust.
    pub trust: bool,
    pub pending_mutation: Option<u64>,
    pub mutation_completion: Option<Result<(), Seq<char>>>,
}

/// The root is a directory with a node, and every node lies under it.
pub open spec fn is_rooted(tree: Tree, root: Seq<Part>) -> bool {
    &&& tree.contains_key(root)
    &&& tree[root].kind == EntryKind::Directory
    &&& !tree[root].synthetic_deleted
    &&& forall|path: Seq<Part>| #[trigger] tree.contains_key(path) ==> is_under(path, root)
}

/// What holds of the sidebar at all times.
pub open spec fn is_valid(s: SidebarState) -> bool {
    &&& tree_ok(s.tree)
    &&& is_rooted(s.tree, s.root)
    &&& children_known(s.tree)
    &&& lists_once(s.tree)
    &&& s.config.entry_cap > 0
    &&& s.config.channel_capacity > 0
    &&& s.queue.len() <= s.config.channel_capacity
    &&& s.next_id > 0
    &&& plain_paths(s.dirty_dirs).no_duplicates()
    &&& plain_paths(s.reload_after_pending).no_duplicates()
}

/// The number that follows `id`. Zero is no number of a job.
pub open spec fn id_after(id: u64) -> u64 {
    if id == u64::MAX {
        1
    } else {
        (id + 1) as u64
    }
}

/// The state after the next number was taken.
pub open spec fn id_taken(s: SidebarState) -> SidebarState {
    SidebarState { next_id: id_after(s.next_id), ..s }
}

/// Whether the worker accepts another job.
pub open spec fn has_room(s: SidebarState) -> bool {
    !s.worker_lost && s.queue.len() < s.config.channel_capacity
}

/// The resolved directories from `cursor` up to the root, nearest first.
pub open spec fn targets_from(tree: Tree, root: Seq<Part>, cursor: Option<Seq<Part>>) -> Seq<
    WrittenPath,
>
    decreases
            match cursor {
                Some(path) => path.len() + 1,
                None => 0,
            },
{
    match cursor {
        None => seq![],
        Some(path) => {
            let here = if tree.contains_key(path) && tree[path].canonical_dir is Some {
                seq![tree[path].canonical_dir->0]
            } else {
                seq![]
            };
            if path == root {
                here
            } else {
                here + targets_from(tree, root, parent_of(path))
            }
        },
    }
}

/// The root, with its bytes.
pub open spec fn spelled_root(s: SidebarState) -> WrittenPath {
    WrittenPath { path: s.root, text: s.root_text }
}

/// The selected path, with its bytes.
pub open spec fn spelled_selection(s: SidebarState) -> Option<WrittenPath> {
    match s.selected {
        Some(path) => Some(WrittenPath { path, text: s.selected_text->0 }),
        None => None,
    }
}

/// The job that lists `path`, which is written as `text`.
pub open spec fn load_job(s: SidebarState, path: Seq<Part>, text: Seq<u8>) -> JobView {
    JobView::Load {
        id: s.next_id,
        path: WrittenPath { path, text },
        root: spelled_root(s),
        ancestor_targets: targets_from(s.tree, s.root, parent_of(path)),
        cap: s.config.entry_cap as nat,
    }
}

/// A directory with a node.
pub open spec fn is_known_directory(s: SidebarState, path: Seq<Part>) -> bool {
    s.tree.contains_key(path) && s.tree[path].kind.is_directory()
}

/// Expanding a path: the state afterwards, and whether a listing was asked for.
pub open spec fn expand_requested(s: SidebarState, path: Seq<Part>, text: Seq<u8>) -> (
    SidebarState,
    bool,
) {
    if !is_known_directory(s, path) {
        (s, false)
    } else {
        let node = s.tree[path];
        if node.loaded {
            let shown = NodeView { expanded: true, ..node };
            (SidebarState { tree: s.tree.insert(path, shown), ..s }, false)
        } else if has_room(s) {
            let shown = NodeView { expanded: true, loading: true, error: None, ..node };
            (
                SidebarState {
                    tree: s.tree.insert(path, shown),
                    queue: s.queue.push(load_job(s, path, text)),
                    pending_loads: s.pending_loads.insert(path, s.next_id),
                    ..id_taken(s)
                },
                true,
            )
        } else {
            (id_taken(s), false)
        }
    }
}

/// Collapsing a path.
pub open spec fn collapsed(s: SidebarState, path: Seq<Part>) -> SidebarState {
    SidebarState {
        tree: if s.tree.contains_key(path) {
            s.tree.insert(
                path,
                NodeView { expanded: false, loading: false, ..s.tree[path] },
            )
        } else {
            s.tree
        },
        pending_loads: s.pending_loads.remove(path),
        ..s
    }
}

pub open spec fn worker_unavailable() -> Seq<char> {
    "sidebar worker is unavailable"@
}

/// Asking for a Git snapshot: the state afterwards, and whether it was asked
/// for.
pub open spec fn git_requested(s: SidebarState, now: u128) -> (SidebarState, bool) {
    if s.pending_git is Some {
        (s, false)
    } else if has_room(s) {
        let job = JobView::Git {
            id: s.next_id,
            root: spelled_root(s),
            cap: s.config.entry_cap as nat,
        };
        (
            SidebarState {
                queue: s.queue.push(job),
                pending_git: Some(s.next_id),
                git_refresh_due: false,
                last_git_request: now,
                ..id_taken(s)
            },
            true,
        )
    } else if s.worker_lost {
        (
            SidebarState {
                git_error: Some(worker_unavailable()),
                git_refresh_due: false,
                ..id_taken(s)
            },
            false,
        )
    } else {
        (SidebarState { git_refresh_due: true, ..id_taken(s) }, false)
    }
}

/// Expanding the root and asking for a Git snapshot.
pub open spec fn initial_requested(s: SidebarState, now: u128) -> SidebarState {
    git_requested(expand_requested(s, s.root, s.root_text).0, now).0
}

/// Asking for a fresh listing of a directory: the state afterwards, and whether
/// the directory is settled. One that the worker has no room for is not.
pub open spec fn reload_requested(s: SidebarState, path: Seq<Part>, text: Seq<u8>) -> (
    SidebarState,
    bool,
) {
    if !is_known_directory(s, path) || !s.tree[path].loaded {
        (s, true)
    } else if has_room(s) {
        (
            SidebarState {
                queue: s.queue.push(load_job(s, path, text)),
                pending_loads: s.pending_loads.insert(path, s.next_id),
                ..id_taken(s)
            },
            true,
        )
    } else if s.worker_lost {
        (SidebarState { git_error: Some(worker_unavailable()), ..id_taken(s) }, true)
    } else {
        (id_taken(s), false)
    }
}

/// What becomes of one dirty directory.
pub open spec fn dirty_handled(s: SidebarState, path: WrittenPath) -> SidebarState {
    if s.pending_loads.contains_key(path.path) {
        SidebarState { reload_after_pending: with_path(s.reload_after_pending, path), ..s }
    } else {
        let (after, settled) = reload_requested(s, path.path, path.text);
        if settled {
            after
        } else {
            SidebarState { dirty_dirs: with_path(after.dirty_dirs, path), ..after }
        }
    }
}

/// What becomes of dirty directories, one by one.
pub open spec fn all_dirty_handled(s: SidebarState, dirty: Seq<WrittenPath>) -> SidebarState
    decreases dirty.len(),
{
    if dirty.len() == 0 {
        s
    } else {
        dirty_handled(all_dirty_handled(s, dirty.drop_last()), dirty.last())
    }
}

/// Asking for fresh listings of all dirty directories.
pub open spec fn reloads_scheduled(s: SidebarState) -> SidebarState {
    all_dirty_handled(SidebarState { dirty_dirs: Seq::empty(), ..s }, s.dirty_dirs)
}

pub open spec fn is_loaded(tree: Tree, path: Seq<Part>) -> bool {
    tree.contains_key(path) && tree[path].loaded
}

/// The nearest loaded path from `cursor` up to the root.
pub open spec fn nearest_loaded(
    tree: Tree,
    root: Seq<Part>,
    cursor: Option<WrittenPath>,
) -> Option<WrittenPath>
    decreases
            match cursor {
                Some(path) => path.path.len() + 1,
                None => 0,
            },
{
    match cursor {
        None => None,
        Some(path) => if is_loaded(tree, path.path) {
            Some(path)
        } else if path.path == root {
            None
        } else {
            nearest_loaded(tree, root, written_parent(path))
        },
    }
}

/// The directory to list again when something happened at `path`.
pub open spec fn affected_directory(tree: Tree, root: WrittenPath, path: WrittenPath) -> Option<
    WrittenPath,
> {
    let candidate = if path.path == root.path {
        root
    } else {
        match written_parent(path) {
            Some(parent) => parent,
            None => root,
        }
    };
    match nearest_loaded(tree, root.path, Some(candidate)) {
        Some(directory) => Some(directory),
        None => if is_loaded(tree, root.path) {
            Some(root)
        } else {
            None
        },
    }
}

/// The dirty directories after something happened at `path`.
pub open spec fn path_marked(
    tree: Tree,
    root: WrittenPath,
    dirty: Seq<WrittenPath>,
    path: WrittenPath,
) -> Seq<WrittenPath> {
    match affected_directory(tree, root, path) {
        Some(directory) => with_path(dirty, directory),
        None => dirty,
    }
}

pub open spec fn paths_marked(
    tree: Tree,
    root: WrittenPath,
    dirty: Seq<WrittenPath>,
    paths: Seq<WrittenPath>,
) -> Seq<WrittenPath>
    decreases paths.len(),
{
    if paths.len() == 0 {
        dirty
    } else {
        path_marked(tree, root, paths_marked(tree, root, dirty, paths.drop_last()), paths.last())
    }
}

pub open spec fn is_loaded_directory(tree: Tree, path: Seq<Part>) -> bool {
    is_loaded(tree, path) && tree[path].kind.is_directory()
}

/// Whether `order` names every node once.
pub open spec fn is_walk(order: Seq<Seq<Part>>, tree: Tree) -> bool {
    &&& order.no_duplicates()
    &&& forall|path: Seq<Part>| #[trigger] order.contains(path) <==> tree.contains_key(path)
}

/// The dirty directories and all loaded ones, in the order of a walk over the
/// nodes.
pub open spec fn loaded_queued(
    tree: Tree,
    dirty: Seq<WrittenPath>,
    order: Seq<Seq<Part>>,
) -> Seq<WrittenPath>
    decreases order.len(),
{
    if order.len() == 0 {
        dirty
    } else {
        let before = loaded_queued(tree, dirty, order.drop_last());
        if is_loaded_directory(tree, order.last()) {
            with_path(
                before,
                WrittenPath { path: order.last(), text: tree[order.last()].text },
            )
        } else {
            before
        }
    }
}

/// The dirty directories after one signal of the watcher.
pub open spec fn signal_marked(
    tree: Tree,
    root: WrittenPath,
    dirty: Seq<WrittenPath>,
    signal: SignalView,
    order: Seq<Seq<Part>>,
) -> Seq<WrittenPath> {
    match signal {
        SignalView::Paths(paths) => paths_marked(tree, root, dirty, paths),
        SignalView::Rescan => loaded_queued(tree, dirty, order),
    }
}

pub open spec fn signals_marked(
    tree: Tree,
    root: WrittenPath,
    dirty: Seq<WrittenPath>,
    signals: Seq<SignalView>,
    order: Seq<Seq<Part>>,
) -> Seq<WrittenPath>
    decreases signals.len(),
{
    if signals.len() == 0 {
        dirty
    } else {
        signal_marked(
            tree,
            root,
            signals_marked(tree, root, dirty, signals.drop_last(), order),
            signals.last(),
            order,
        )
    }
}

/// Taking in the signals of the watcher. Each batch starts the wait anew.
pub open spec fn watch_collected(
    s: SidebarState,
    signals: Seq<SignalView>,
    now: u128,
    order: Seq<Seq<Part>>,
) -> SidebarState {
    SidebarState {
        dirty_dirs: signals_marked(s.tree, spelled_root(s), s.dirty_dirs, signals, order),
        watch_dirty_since: if signals.len() > 0 {
            Some(now)
        } else {
            s.watch_dirty_since
        },
        ..s
    }
}

/// All rows, before scrolling.
pub open spec fn all_rows(s: SidebarState) -> Seq<RowView> {
    rows_at(s.tree, s.selected, s.root, 0)
}

pub open spec fn row_paths(rows: Seq<RowView>) -> Seq<Seq<Part>> {
    rows.map_values(|row: RowView| row.path)
}

/// The paths of rows, with their bytes.
pub open spec fn spelled_rows(rows: Seq<RowView>) -> Seq<WrittenPath> {
    rows.map_values(|row: RowView| WrittenPath { path: row.path, text: row.text })
}

/// The rows in a viewport.
pub open spec fn window(rows: Seq<RowView>, scroll: nat, height: nat) -> Seq<RowView> {
    let from = if scroll <= rows.len() {
        scroll
    } else {
        rows.len()
    };
    let to = if from + height <= rows.len() {
        from + height
    } else {
        rows.len()
    };
    rows.subrange(from as int, to as int)
}

/// Selecting a row of the viewport: the state afterwards, and the path.
pub open spec fn row_selected(s: SidebarState, row: nat, height: nat) -> (
    SidebarState,
    Option<WrittenPath>,
) {
    if row < height && s.scroll + row < all_rows(s).len() {
        let shown = all_rows(s)[(s.scroll + row) as int];
        (
            SidebarState { selected: Some(shown.path), selected_text: Some(shown.text), ..s },
            Some(WrittenPath { path: shown.path, text: shown.text }),
        )
    } else {
        (s, None)
    }
}

/// Activating the selected row: the state afterwards, and what is asked for.
pub open spec fn activated(s: SidebarState) -> (SidebarState, Option<ActivationView>) {
    if s.selected is Some && s.tree.contains_key(s.selected->0) {
        let path = s.selected->0;
        let node = s.tree[path];
        let after = if !node.kind.is_directory() {
            s
        } else if node.expanded {
            collapsed(s, path)
        } else {
            expand_requested(s, path, s.selected_text->0).0
        };
        let opens = (node.kind == EntryKind::File || node.kind == EntryKind::Symlink)
            && node.error is None;
        (
            after,
            Some(
                if opens {
                    ActivationView::OpenFile(spelled_selection(s)->0)
                } else {
                    ActivationView::SelectOnly
                },
            ),
        )
    } else {
        (s, None)
    }
}

pub open spec fn saturating_minus(left: nat, right: nat) -> nat {
    if left >= right {
        (left - right) as nat
    } else {
        0
    }
}

pub open spec fn smaller(left: nat, right: nat) -> nat {
    if left <= right {
        left
    } else {
        right
    }
}

/// The scroll position moved by `delta` and kept between the first row and the
/// last full viewport.
pub open spec fn scrolled(s: SidebarState, delta: int, height: nat) -> nat {
    let moved = s.scroll + delta;
    smaller(
        if moved < 0 {
            0
        } else {
            moved as nat
        },
        saturating_minus(all_rows(s).len(), height),
    )
}

/// The scroll position that shows the row at `position` and `trailing` rows
/// behind it. Row numbers stop at the largest machine number.
pub open spec fn scroll_to_show(
    scroll: nat,
    total: nat,
    position: nat,
    height: nat,
    trailing: nat,
) -> nat {
    let limit = usize::MAX as nat;
    let end = smaller(position + trailing, limit);
    if position < scroll {
        position
    } else if end >= smaller(scroll + height, limit) {
        smaller(saturating_minus(smaller(end + 1, limit), height), saturating_minus(total, 1))
    } else {
        scroll
    }
}

/// The scroll position after a path was brought into view.
pub open spec fn scroll_showing(
    s: SidebarState,
    path: Seq<Part>,
    height: nat,
    trailing: nat,
) -> nat {
    match row_paths(all_rows(s)).index_of_first(path) {
        Some(position) => if height == 0 {
            s.scroll
        } else {
            scroll_to_show(s.scroll, all_rows(s).len(), position as nat, height, trailing)
        },
        None => s.scroll,
    }
}

/// Asking for a file operation: the state afterwards, and the answer.
pub open spec fn mutation_requested(s: SidebarState, mutation: MutationView) -> (
    SidebarState,
    Result<(), Seq<char>>,
) {
    if s.pending_mutation is Some {
        (s, Err("a sidebar file operation is already pending"@))
    } else if has_room(s) {
        let job = JobView::Mutation {
            id: s.next_id,
            root: spelled_root(s),
            trust: s.trust,
            mutation,
        };
        (
            SidebarState {
                queue: s.queue.push(job),
                pending_mutation: Some(s.next_id),
                ..id_taken(s)
            },
            Ok(()),
        )
    } else if s.worker_lost {
        (id_taken(s), Err(worker_unavailable()))
    } else {
        (id_taken(s), Err("sidebar worker is busy"@))
    }
}

/// The nearest path with a node, from `cursor` up.
pub open spec fn nearest_known(tree: Tree, cursor: Option<Seq<Part>>) -> Option<Seq<Part>>
    decreases
            match cursor {
                Some(path) => path.len() + 1,
                None => 0,
            },
{
    match cursor {
        None => None,
        Some(path) => if tree.contains_key(path) {
            Some(path)
        } else {
            nearest_known(tree, parent_of(path))
        },
    }
}

/// The selection, moved to the nearest known ancestor, or else the root, when
/// its node is gone.
pub open spec fn selection_restored(
    tree: Tree,
    root: Seq<Part>,
    selected: Option<Seq<Part>>,
) -> Option<Seq<Part>> {
    match selected {
        None => None,
        Some(path) => match nearest_known(tree, Some(path)) {
            Some(known) => Some(known),
            None => Some(root),
        },
    }
}

/// The bytes of the nearest path with a node, from `path` up.
pub open spec fn nearest_text(tree: Tree, path: Seq<Part>, text: Seq<u8>) -> Seq<u8>
    decreases path.len(),
{
    if tree.contains_key(path) || parent_of(path) is None {
        text
    } else {
        nearest_text(tree, parent_of(path)->0, parent_bytes(text))
    }
}

/// The bytes of the selection once it was restored in a tree.
pub open spec fn selection_text_restored(tree: Tree, s: SidebarState) -> Option<Seq<u8>> {
    match s.selected {
        None => s.selected_text,
        Some(path) => match nearest_known(tree, Some(path)) {
            Some(_) => Some(nearest_text(tree, path, s.selected_text->0)),
            None => Some(s.root_text),
        },
    }
}

/// The scroll position that keeps the row at the top where it is, as far as it
/// is still there.
pub open spec fn scroll_restored(
    before: Seq<RowView>,
    after: Seq<RowView>,
    scroll: nat,
) -> nat {
    let kept = smaller(scroll, saturating_minus(after.len(), 1));
    if scroll < before.len() {
        match row_paths(after).index_of_first(before[scroll as int].path) {
            Some(position) => position as nat,
            None => kept,
        }
    } else {
        kept
    }
}

/// The tree and the pending listings after the listing of `path` came in.
pub open spec fn listing_entered(
    s: SidebarState,
    path: Seq<Part>,
    result: Result<ListingView, Seq<char>>,
) -> SidebarState {
    match result {
        Ok(listing) => SidebarState {
            tree: listing_applied(s.tree, path, listing, s.config.entry_cap as nat),
            pending_loads: s.pending_loads.remove_keys(
                dropped(s.tree, path, entry_paths(listing.entries)),
            ),
            ..s
        },
        Err(error) => SidebarState {
            tree: s.tree.insert(
                path,
                NodeView { loading: false, error: Some(error), ..s.tree[path] },
            ),
            ..s
        },
    }
}

/// Decorations, selection and scroll position brought in line with the tree.
/// `before` are the rows that were shown.
pub open spec fn tree_settled(s: SidebarState, before: Seq<RowView>) -> SidebarState {
    let tree = reconciled(s.tree, s.root, s.root_text, s.git_changes);
    let selected = selection_restored(tree, s.root, s.selected);
    SidebarState {
        tree,
        selected,
        selected_text: selection_text_restored(tree, s),
        scroll: scroll_restored(before, rows_at(tree, selected, s.root, 0), s.scroll),
        ..s
    }
}

/// Listing a directory again that changed while it was being listed.
pub open spec fn reload_resumed(
    s: SidebarState,
    path: Seq<Part>,
    text: Seq<u8>,
) -> SidebarState {
    if plain_paths(s.reload_after_pending).contains(path) {
        reloads_scheduled(
            SidebarState {
                reload_after_pending: without_path(s.reload_after_pending, path),
                dirty_dirs: with_path(s.dirty_dirs, WrittenPath { path, text }),
                ..s
            },
        )
    } else {
        s
    }
}

/// A listing came in: the state afterwards, and whether it was awaited.
pub open spec fn load_applied(
    s: SidebarState,
    id: u64,
    path: Seq<Part>,
    text: Seq<u8>,
    result: Result<ListingView, Seq<char>>,
) -> (SidebarState, bool) {
    if !(s.pending_loads.contains_key(path) && s.pending_loads[path] == id) {
        (s, false)
    } else {
        let taken = SidebarState { pending_loads: s.pending_loads.remove(path), ..s };
        if !s.tree.contains_key(path) {
            (taken, false)
        } else {
            let entered = listing_entered(taken, path, result);
            (reload_resumed(tree_settled(entered, all_rows(s)), path, text), true)
        }
    }
}

/// A Git snapshot came in.
pub open spec fn git_applied(
    s: SidebarState,
    id: u64,
    result: Result<Seq<Change>, Seq<char>>,
) -> (SidebarState, bool) {
    if s.pending_git != Some(id) {
        (s, false)
    } else {
        match result {
            Ok(changes) => (
                SidebarState {
                    pending_git: None,
                    git_error: None,
                    git_changes: changes,
                    tree: reconciled(s.tree, s.root, s.root_text, changes),
                    ..s
                },
                true,
            ),
            Err(error) => (
                SidebarState {
                    pending_git: None,
                    git_error: Some(error),
                    git_changes: Seq::empty(),
                    tree: cleared(s.tree),
                    ..s
                },
                true,
            ),
        }
    }
}

/// A file operation ended.
pub open spec fn mutation_applied(
    s: SidebarState,
    id: u64,
    result: Result<OutcomeView, Seq<char>>,
    now: u128,
) -> (SidebarState, bool) {
    if s.pending_mutation != Some(id) {
        (s, false)
    } else {
        match result {
            Ok(outcome) => {
                let marked = SidebarState {
                    pending_mutation: None,
                    selected: Some(outcome.selected.path),
                    selected_text: Some(outcome.selected.text),
                    dirty_dirs: with_path(s.dirty_dirs, outcome.affected_parent),
                    ..s
                };
                let asked = git_requested(reloads_scheduled(marked), now).0;
                (SidebarState { mutation_completion: Some(Ok(())), ..asked }, true)
            },
            Err(error) => (
                SidebarState {
                    pending_mutation: None,
                    mutation_completion: Some(Err(error)),
                    ..s
                },
                true,
            ),
        }
    }
}

/// A reply came in: the state afterwards, and whether it was awaited.
pub open spec fn response_applied(s: SidebarState, response: ResponseView, now: u128) -> (
    SidebarState,
    bool,
) {
    match response {
        ResponseView::Load { id, path, text, result } => load_applied(s, id, path, text, result),
        ResponseView::Git { id, result } => git_applied(s, id, result),
        ResponseView::Mutation { id, result } => mutation_applied(s, id, result, now),
    }
}

/// Replies came in, one by one.
pub open spec fn responses_applied(s: SidebarState, responses: Seq<ResponseView>, now: u128) -> (
    SidebarState,
    bool,
)
    decreases responses.len(),
{
    if responses.len() == 0 {
        (s, false)
    } else {
        let (before, changed) = responses_applied(s, responses.drop_last(), now);
        let (after, awaited) = response_applied(before, responses.last(), now);
        (after, changed || awaited)
    }
}

/// Whether `interval` has passed since `since`.
pub open spec fn has_passed(now: u128, since: u128, interval: u128) -> bool {
    now - since >= interval || interval == 0
}

/// Listing dirty directories again once the watcher has been quiet.
pub open spec fn watch_settled(s: SidebarState, now: u128) -> SidebarState {
    match s.watch_dirty_since {
        Some(since) => if has_passed(now, since, s.config.fs_debounce_interval) {
            reloads_scheduled(SidebarState { watch_dirty_since: None, ..s })
        } else {
            s
        },
        None => s,
    }
}

/// Listing all loaded directories again when it is time.
pub open spec fn reconciliation_run(
    s: SidebarState,
    now: u128,
    order: Seq<Seq<Part>>,
) -> SidebarState {
    if now >= s.next_fs_reconcile {
        reloads_scheduled(
            SidebarState {
                next_fs_reconcile: (now + s.config.fs_reconcile_interval) as u128,
                dirty_dirs: loaded_queued(s.tree, s.dirty_dirs, order),
                ..s
            },
        )
    } else {
        s
    }
}

/// Asking for a Git snapshot when one is due.
pub open spec fn git_refreshed(s: SidebarState, now: u128) -> SidebarState {
    if s.pending_git is None && (s.git_refresh_due || has_passed(
        now,
        s.last_git_request,
        s.config.git_refresh_interval,
    )) {
        git_requested(s, now).0
    } else {
        s
    }
}

/// One round of replies, signals and periodic work. `first` and `second` are
/// walks over the nodes once the replies are in.
pub open spec fn ticked(
    s: SidebarState,
    now: u128,
    responses: Seq<ResponseView>,
    signals: Seq<SignalView>,
    first: Seq<Seq<Part>>,
    second: Seq<Seq<Part>>,
) -> SidebarState {
    let replied = responses_applied(s, responses, now).0;
    let watched = watch_settled(watch_collected(replied, signals, now, first), now);
    git_refreshed(reconciliation_run(watched, now, second), now)
}

/// The state of a new sidebar. `root_text` are the bytes that the root is
/// written with.
pub open spec fn fresh(
    root: Seq<Part>,
    root_text: Seq<u8>,
    config: SidebarConfig,
    trust: bool,
    now: u128,
) -> SidebarState {
    SidebarState {
        root,
        root_text,
        config,
        tree: Map::empty().insert(
            root,
            NodeView {
                text: root_text,
                name: match crate::path::file_name_of(root) {
                    Some(name) => name,
                    None => root_text,
                },
                kind: EntryKind::Directory,
                expanded: false,
                loading: false,
                loaded: false,
                error: None,
                children: Seq::empty(),
                canonical_dir: Some(WrittenPath { path: root, text: root_text }),
                synthetic_deleted: false,
                git: crate::git::no_decoration(),
            },
        ),
        selected: None,
        selected_text: None,
        scroll: 0,
        queue: Seq::empty(),
        worker_lost: false,
        next_id: 1,
        pending_loads: Map::empty(),
        pending_git: None,
        git_refresh_due: false,
        last_git_request: now,
        git_error: None,
        git_changes: Seq::empty(),
        dirty_dirs: Seq::empty(),
        watch_dirty_since: None,
        reload_after_pending: Seq::empty(),
        next_fs_reconcile: (now + config.fs_reconcile_interval) as u128,
        trust,
        pending_mutation: None,
        mutation_completion: None,
    }
}

} // verus!
