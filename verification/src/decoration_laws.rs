//! What Git decorations promise.

use vstd::prelude::*;

use crate::decorate::{
    change_applied, changes_applied, children_sorted, cleared, decorated, deleted_node, dirtied,
    is_ancestor, is_materialized, lemma_children_sorted, materialized, reconciled,
};
use crate::git::{merged, no_decoration, priority_of, safe_joined, Change, GitStatus};
use crate::path::{joined_bytes, parent_of, Part};
use crate::tree::{EntryKind, NodeView, Tree};

verus! {

/// Whether a change is about `path` itself.
pub open spec fn reports(root: Seq<Part>, change: Change, path: Seq<Part>) -> bool {
    safe_joined(root, change.path) == Some(path)
}

/// Whether a change is about something strictly below `path`.
pub open spec fn reports_below(root: Seq<Part>, change: Change, path: Seq<Part>) -> bool {
    match safe_joined(root, change.path) {
        Some(changed) => is_ancestor(root, path, changed),
        None => false,
    }
}

/// Whether `status` is the strongest among the changes about `path`, and `None`
/// when there is none.
pub open spec fn is_strongest(
    root: Seq<Part>,
    changes: Seq<Change>,
    path: Seq<Part>,
    status: Option<GitStatus>,
) -> bool {
    match status {
        None => forall|i: int|
            0 <= i < changes.len() ==> !reports(root, #[trigger] changes[i], path),
        Some(status) => {
            &&& exists|i: int|
                0 <= i < changes.len() && reports(root, #[trigger] changes[i], path)
                    && changes[i].status == status
            &&& forall|i: int|
                0 <= i < changes.len() && reports(root, #[trigger] changes[i], path)
                    ==> priority_of(changes[i].status) <= priority_of(status)
        },
    }
}

/// What a node has apart from its decoration and its children.
pub open spec fn same_entry(left: NodeView, right: NodeView) -> bool {
    left == (NodeView { git: left.git, children: left.children, ..right })
}

pub proof fn lemma_change_at(
    tree: Tree,
    root: Seq<Part>,
    root_text: Seq<u8>,
    change: Change,
    path: Seq<Part>,
)
    requires
        tree.contains_key(path),
    ensures
        change_applied(tree, root, root_text, change).contains_key(path),
        same_entry(change_applied(tree, root, root_text, change)[path], tree[path]),
        change_applied(tree, root, root_text, change)[path].git.dirty_descendant == (
        tree[path].git.dirty_descendant || reports_below(root, change, path)),
        change_applied(tree, root, root_text, change)[path].git.status == (if reports(
            root,
            change,
            path,
        ) {
            Some(merged(tree[path].git.status, change.status))
        } else {
            tree[path].git.status
        }),
        forall|child: Seq<Part>|
            tree[path].children.contains(child) ==> #[trigger] change_applied(
                tree,
                root,
                root_text,
                change,
            )[path].children.contains(child),
{
    if let Some(changed) = safe_joined(root, change.path) {
        let text = joined_bytes(root_text, change.text);
        let grown = materialized(tree, changed, text, change.status);
        if is_materialized(tree, changed, change.status) {
            let parent = parent_of(changed)->0;
            let more = tree.insert(changed, deleted_node(changed, text));
            let kids = tree[parent].children.push(changed);
            lemma_children_sorted(more, kids);
            if path == parent {
                assert forall|child: Seq<Part>| tree[path].children.contains(
                    child,
                ) implies #[trigger] grown[path].children.contains(child) by {
                    let i = tree[path].children.index_of(child);
                    assert(kids[i] == child);
                    assert(children_sorted(more, kids).contains(child));
                }
            }
        }
        assert(same_entry(grown[path], tree[path]));
        assert(grown[path].git == tree[path].git);
        let marked = decorated(grown, changed, change.status);
        let after = dirtied(marked, root, changed);
        assert(after.contains_key(path) == marked.contains_key(path));
    }
}

proof fn lemma_changes_at(
    tree: Tree,
    root: Seq<Part>,
    root_text: Seq<u8>,
    changes: Seq<Change>,
    path: Seq<Part>,
)
    requires
        tree.contains_key(path),
        tree[path].git == no_decoration(),
    ensures
        changes_applied(tree, root, root_text, changes).contains_key(path),
        same_entry(changes_applied(tree, root, root_text, changes)[path], tree[path]),
        changes_applied(tree, root, root_text, changes)[path].git.dirty_descendant <==> exists|i: int|
            0 <= i < changes.len() && reports_below(root, #[trigger] changes[i], path),
        is_strongest(
            root,
            changes,
            path,
            changes_applied(tree, root, root_text, changes)[path].git.status,
        ),
    decreases changes.len(),
{
    if changes.len() > 0 {
        let front = changes.drop_last();
        let last = changes.last();
        lemma_changes_at(tree, root, root_text, front, path);
        let before = changes_applied(tree, root, root_text, front);
        lemma_change_at(before, root, root_text, last, path);
        let n = front.len() as int;
        assert(changes[n] == last);
        assert forall|i: int| 0 <= i < n implies #[trigger] changes[i] == front[i] by {}
        let after = changes_applied(tree, root, root_text, changes);
        if before[path].git.dirty_descendant {
            let i = choose|i: int|
                0 <= i < front.len() && reports_below(root, #[trigger] front[i], path);
            assert(reports_below(root, changes[i], path));
        }
        if exists|i: int| 0 <= i < changes.len() && reports_below(root, #[trigger] changes[i], path) {
            let i = choose|i: int|
                0 <= i < changes.len() && reports_below(root, #[trigger] changes[i], path);
            if i < n {
                assert(reports_below(root, front[i], path));
            }
        }
        let status = after[path].git.status;
        if before[path].git.status is Some {
            let i = choose|i: int|
                0 <= i < front.len() && reports(root, #[trigger] front[i], path)
                    && front[i].status == before[path].git.status->0;
            assert(reports(root, changes[i], path));
        }
        assert(is_strongest(root, changes, path, status));
    }
}

/// A directory is marked as holding changes exactly when the snapshot reports
/// a change strictly below it.
pub proof fn law_dirty_marks_exactly_ancestors(
    tree: Tree,
    root: Seq<Part>,
    root_text: Seq<u8>,
    changes: Seq<Change>,
    path: Seq<Part>,
)
    requires
        tree.contains_key(path),
        !tree[path].synthetic_deleted,
    ensures
        reconciled(tree, root, root_text, changes).contains_key(path),
        reconciled(tree, root, root_text, changes)[path].git.dirty_descendant <==> exists|i: int|
            0 <= i < changes.len() && reports_below(root, #[trigger] changes[i], path),
{
    lemma_changes_at(cleared(tree), root, root_text, changes, path);
}

/// A file shows the strongest status that the snapshot reports about it, and
/// none when it reports none. What was shown before does not matter.
pub proof fn law_status_is_the_strongest_report(
    tree: Tree,
    root: Seq<Part>,
    root_text: Seq<u8>,
    changes: Seq<Change>,
    path: Seq<Part>,
)
    requires
        tree.contains_key(path),
        !tree[path].synthetic_deleted,
    ensures
        is_strongest(
            root,
            changes,
            path,
            reconciled(tree, root, root_text, changes)[path].git.status,
        ),
{
    lemma_changes_at(cleared(tree), root, root_text, changes, path);
}

/// Decorating changes nothing else about a file or directory.
pub proof fn law_decoration_keeps_entries(
    tree: Tree,
    root: Seq<Part>,
    root_text: Seq<u8>,
    changes: Seq<Change>,
    path: Seq<Part>,
)
    requires
        tree.contains_key(path),
        !tree[path].synthetic_deleted,
    ensures
        reconciled(tree, root, root_text, changes).contains_key(path),
        same_entry(reconciled(tree, root, root_text, changes)[path], tree[path]),
{
    lemma_changes_at(cleared(tree), root, root_text, changes, path);
}

/// Clearing leaves no decoration and no row that only Git knew of.
pub proof fn law_cleared_tree_is_plain(tree: Tree, path: Seq<Part>)
    requires
        cleared(tree).contains_key(path),
    ensures
        tree.contains_key(path),
        cleared(tree)[path].git == no_decoration(),
        !cleared(tree)[path].synthetic_deleted,
{
}

pub proof fn lemma_added(
    tree: Tree,
    root: Seq<Part>,
    root_text: Seq<u8>,
    changes: Seq<Change>,
    path: Seq<Part>,
)
    requires
        !tree.contains_key(path),
        changes_applied(tree, root, root_text, changes).contains_key(path),
    ensures
        exists|i: int|
            0 <= i < changes.len() && reports(root, #[trigger] changes[i], path)
                && changes[i].status == GitStatus::Deleted,
        changes_applied(tree, root, root_text, changes)[path].kind == EntryKind::Deleted,
        changes_applied(tree, root, root_text, changes)[path].synthetic_deleted,
    decreases changes.len(),
{
    if changes.len() > 0 {
        let front = changes.drop_last();
        let last = changes.last();
        let before = changes_applied(tree, root, root_text, front);
        assert(changes[front.len() as int] == last);
        if before.contains_key(path) {
            lemma_added(tree, root, root_text, front, path);
            lemma_change_at(before, root, root_text, last, path);
            let i = choose|i: int|
                0 <= i < front.len() && reports(root, #[trigger] front[i], path)
                    && front[i].status == GitStatus::Deleted;
            assert(changes[i] == front[i]);
        } else {
            let changed = safe_joined(root, last.path)->0;
            let text = joined_bytes(root_text, last.text);
            let grown = materialized(before, changed, text, last.status);
            let marked = decorated(grown, changed, last.status);
            assert(dirtied(marked, root, changed).contains_key(path) == marked.contains_key(path));
            assert(grown.contains_key(path));
            assert(reports(root, changes[front.len() as int], path));
            let after = changes_applied(tree, root, root_text, changes);
            assert(after[path].kind == EntryKind::Deleted);
        }
    }
}

/// A row that only Git knows of stands for a path that the snapshot reports
/// deleted.
pub proof fn law_only_deleted_paths_are_added(
    tree: Tree,
    root: Seq<Part>,
    root_text: Seq<u8>,
    changes: Seq<Change>,
    path: Seq<Part>,
)
    requires
        !cleared(tree).contains_key(path),
        reconciled(tree, root, root_text, changes).contains_key(path),
    ensures
        exists|i: int|
            0 <= i < changes.len() && reports(root, #[trigger] changes[i], path)
                && changes[i].status == GitStatus::Deleted,
        reconciled(tree, root, root_text, changes)[path].kind == EntryKind::Deleted,
        reconciled(tree, root, root_text, changes)[path].synthetic_deleted,
{
    lemma_added(cleared(tree), root, root_text, changes, path);
}

/// Since which change a path has its row: zero for a path that was there before
/// the changes, and otherwise the change that made the row.
pub open spec fn there_since(
    tree: Tree,
    root: Seq<Part>,
    root_text: Seq<u8>,
    changes: Seq<Change>,
    path: Seq<Part>,
) -> nat
    decreases changes.len(),
{
    if changes.len() == 0 {
        0
    } else if changes_applied(tree, root, root_text, changes.drop_last()).contains_key(path) {
        there_since(tree, root, root_text, changes.drop_last(), path)
    } else {
        (changes.len() - 1) as nat
    }
}

proof fn lemma_there_since(
    tree: Tree,
    root: Seq<Part>,
    root_text: Seq<u8>,
    changes: Seq<Change>,
    path: Seq<Part>,
)
    requires
        !tree.contains_key(path),
        changes_applied(tree, root, root_text, changes).contains_key(path),
    ensures
        ({
            let since = there_since(tree, root, root_text, changes, path) as int;
            let git = changes_applied(tree, root, root_text, changes)[path].git;
            &&& 0 <= since < changes.len()
            &&& reports(root, changes[since], path)
            &&& changes[since].status == GitStatus::Deleted
            &&& !changes_applied(tree, root, root_text, changes.take(since)).contains_key(path)
            &&& is_strongest(root, changes.skip(since), path, git.status)
            &&& git.dirty_descendant <==> exists|i: int|
                since < i < changes.len() && reports_below(root, #[trigger] changes[i], path)
        }),
    decreases changes.len(),
{
    if changes.len() > 0 {
        let front = changes.drop_last();
        let last = changes.last();
        let before = changes_applied(tree, root, root_text, front);
        let after = changes_applied(tree, root, root_text, changes);
        let n = front.len() as int;
        let since = there_since(tree, root, root_text, changes, path) as int;
        assert(changes[n] == last);
        if before.contains_key(path) {
            lemma_there_since(tree, root, root_text, front, path);
            lemma_change_at(before, root, root_text, last, path);
            assert(front.take(since) =~= changes.take(since));
            let later = changes.skip(since);
            let earlier = front.skip(since);
            assert(later.drop_last() =~= earlier);
            assert(later.last() == last);
            lemma_strongest_extended(root, later, path, before[path].git.status);
            assert forall|i: int| 0 <= i < n implies #[trigger] changes[i] == front[i] by {}
            if before[path].git.dirty_descendant {
                let i = choose|i: int|
                    since < i < front.len() && reports_below(root, #[trigger] front[i], path);
                assert(reports_below(root, changes[i], path));
            }
            if exists|i: int|
                since < i < changes.len() && reports_below(root, #[trigger] changes[i], path) {
                let i = choose|i: int|
                    since < i < changes.len() && reports_below(root, #[trigger] changes[i], path);
                if i < n {
                    assert(reports_below(root, front[i], path));
                }
            }
        } else {
            let changed = safe_joined(root, last.path)->0;
            let text = joined_bytes(root_text, last.text);
            let grown = materialized(before, changed, text, last.status);
            let marked = decorated(grown, changed, last.status);
            assert(dirtied(marked, root, changed).contains_key(path) == marked.contains_key(path));
            assert(grown.contains_key(path));
            assert(path == changed);
            assert(changes.take(n) =~= front);
            let later = changes.skip(n);
            assert(later.len() == 1 && later[0] == last);
            assert(reports(root, later[0], path));
        }
    }
}

/// One more report makes the strongest status what merging makes it.
proof fn lemma_strongest_extended(
    root: Seq<Part>,
    changes: Seq<Change>,
    path: Seq<Part>,
    status: Option<GitStatus>,
)
    requires
        changes.len() > 0,
        is_strongest(root, changes.drop_last(), path, status),
    ensures
        is_strongest(
            root,
            changes,
            path,
            if reports(root, changes.last(), path) {
                Some(merged(status, changes.last().status))
            } else {
                status
            },
        ),
{
    let front = changes.drop_last();
    let n = front.len() as int;
    assert(changes[n] == changes.last());
    assert forall|i: int| 0 <= i < n implies #[trigger] changes[i] == front[i] by {}
    if status is Some {
        let i = choose|i: int|
            0 <= i < front.len() && reports(root, #[trigger] front[i], path) && front[i].status
                == status->0;
        assert(reports(root, changes[i], path));
    }
}

proof fn lemma_always_there(
    tree: Tree,
    root: Seq<Part>,
    root_text: Seq<u8>,
    changes: Seq<Change>,
    path: Seq<Part>,
)
    requires
        tree.contains_key(path),
    ensures
        there_since(tree, root, root_text, changes, path) == 0,
    decreases changes.len(),
{
    if changes.len() > 0 {
        lemma_always_there(tree, root, root_text, changes.drop_last(), path);
        lemma_changes_loaded(tree, root, root_text, changes.drop_last(), path);
    }
}

/// Every row shows the strongest status that was reported about its path since
/// the row is there, and is marked as holding changes exactly when since then a
/// change strictly below it was reported. A row of the disk is there from the
/// start. A row that only Git knows of is there since a report that its path was
/// deleted.
pub proof fn law_rows_show_what_is_reported_of_them(
    tree: Tree,
    root: Seq<Part>,
    root_text: Seq<u8>,
    changes: Seq<Change>,
    path: Seq<Part>,
)
    requires
        reconciled(tree, root, root_text, changes).contains_key(path),
    ensures
        ({
            let git = reconciled(tree, root, root_text, changes)[path].git;
            let since = there_since(cleared(tree), root, root_text, changes, path) as int;
            &&& is_strongest(root, changes.skip(since), path, git.status)
            &&& git.dirty_descendant <==> exists|i: int|
                since <= i < changes.len() && reports_below(root, #[trigger] changes[i], path)
            &&& cleared(tree).contains_key(path) ==> since == 0
            &&& !cleared(tree).contains_key(path) ==> {
                &&& since < changes.len()
                &&& reports(root, changes[since], path)
                &&& changes[since].status == GitStatus::Deleted
                &&& !reconciled(tree, root, root_text, changes.take(since)).contains_key(path)
            }
        }),
{
    let since = there_since(cleared(tree), root, root_text, changes, path) as int;
    let git = reconciled(tree, root, root_text, changes)[path].git;
    if cleared(tree).contains_key(path) {
        lemma_always_there(cleared(tree), root, root_text, changes, path);
        lemma_changes_at(cleared(tree), root, root_text, changes, path);
        assert(changes.skip(0) =~= changes);
    } else {
        lemma_there_since(cleared(tree), root, root_text, changes, path);
        if reports_below(root, changes[since], path) {
            assert(false);
        }
        if git.dirty_descendant {
            let i = choose|i: int|
                since < i < changes.len() && reports_below(root, #[trigger] changes[i], path);
            assert(since <= i);
        }
    }
}

/// In a directory of the disk whose children are known, a path that is not on
/// disk has its row since the first report that it was deleted.
pub proof fn law_first_deletion_makes_the_row(
    tree: Tree,
    root: Seq<Part>,
    root_text: Seq<u8>,
    changes: Seq<Change>,
    at: int,
    path: Seq<Part>,
    parent: Seq<Part>,
)
    requires
        0 <= at < changes.len(),
        reports(root, changes[at], path),
        changes[at].status == GitStatus::Deleted,
        forall|i: int|
            0 <= i < at && reports(root, #[trigger] changes[i], path) ==> changes[i].status
                != GitStatus::Deleted,
        !cleared(tree).contains_key(path),
        parent_of(path) == Some(parent),
        tree.contains_key(parent),
        !tree[parent].synthetic_deleted,
        tree[parent].loaded,
    ensures
        reconciled(tree, root, root_text, changes).contains_key(path),
        there_since(cleared(tree), root, root_text, changes, path) == at,
{
    let plain = cleared(tree);
    lemma_deleted_shown(plain, root, root_text, changes, at, path, parent);
    lemma_there_since(plain, root, root_text, changes, path);
    let since = there_since(plain, root, root_text, changes, path) as int;
    if since > at {
        let front = changes.take(since);
        assert(front[at] == changes[at]);
        lemma_deleted_shown(plain, root, root_text, front, at, path, parent);
    }
}

/// A row that only Git knows of shows that its path was deleted, and nothing
/// stronger unless the snapshot reports a conflict there later.
pub proof fn law_added_row_shows_the_deletion(
    tree: Tree,
    root: Seq<Part>,
    root_text: Seq<u8>,
    changes: Seq<Change>,
    path: Seq<Part>,
)
    requires
        !cleared(tree).contains_key(path),
        reconciled(tree, root, root_text, changes).contains_key(path),
    ensures
        reconciled(tree, root, root_text, changes)[path].git.status == Some(
            if exists|i: int|
                there_since(cleared(tree), root, root_text, changes, path) < i < changes.len() && reports(
                    root,
                    #[trigger] changes[i],
                    path,
                ) && changes[i].status == GitStatus::Conflict {
                GitStatus::Conflict
            } else {
                GitStatus::Deleted
            },
        ),
{
    lemma_there_since(cleared(tree), root, root_text, changes, path);
    let since = there_since(cleared(tree), root, root_text, changes, path) as int;
    let later = changes.skip(since);
    let status = reconciled(tree, root, root_text, changes)[path].git.status;
    assert(later[0] == changes[since]);
    assert(reports(root, later[0], path));
    let i = choose|i: int|
        0 <= i < later.len() && reports(root, #[trigger] later[i], path) && later[i].status
            == status->0;
    assert(later[i] == changes[since + i]);
    if exists|j: int|
        since < j < changes.len() && reports(root, #[trigger] changes[j], path)
            && changes[j].status == GitStatus::Conflict {
        let j = choose|j: int|
            since < j < changes.len() && reports(root, #[trigger] changes[j], path)
                && changes[j].status == GitStatus::Conflict;
        assert(later[j - since] == changes[j]);
        assert(reports(root, later[j - since], path));
    } else if i > 0 {
        assert(reports(root, changes[since + i], path));
    }
}

proof fn lemma_deleted_shown(
    tree: Tree,
    root: Seq<Part>,
    root_text: Seq<u8>,
    changes: Seq<Change>,
    at: int,
    path: Seq<Part>,
    parent: Seq<Part>,
)
    requires
        0 <= at < changes.len(),
        reports(root, changes[at], path),
        changes[at].status == GitStatus::Deleted,
        !tree.contains_key(path),
        parent_of(path) == Some(parent),
        tree.contains_key(parent),
        tree[parent].loaded,
    ensures
        changes_applied(tree, root, root_text, changes).contains_key(path),
        changes_applied(tree, root, root_text, changes).contains_key(parent),
        changes_applied(tree, root, root_text, changes)[parent].loaded,
        changes_applied(tree, root, root_text, changes)[parent].children.contains(path),
    decreases changes.len(), 0nat,
{
    let front = changes.drop_last();
    let last = changes.last();
    let before = changes_applied(tree, root, root_text, front);
    if at < front.len() {
        assert(front[at] == changes[at]);
        lemma_deleted_shown(tree, root, root_text, front, at, path, parent);
        lemma_change_at(before, root, root_text, last, path);
        lemma_change_at(before, root, root_text, last, parent);
    } else {
        lemma_changes_loaded(tree, root, root_text, front, parent);
        if before.contains_key(path) {
            lemma_listed_when_added(tree, root, root_text, front, path, parent);
            lemma_change_at(before, root, root_text, last, path);
            lemma_change_at(before, root, root_text, last, parent);
        } else {
            let grown = materialized(before, path, joined_bytes(root_text, last.text), last.status);
            let more = before.insert(path, deleted_node(path, joined_bytes(root_text, last.text)));
            let kids = before[parent].children.push(path);
            lemma_children_sorted(more, kids);
            assert(kids[kids.len() - 1] == path);
            assert(children_sorted(more, kids).contains(path));
            let marked = decorated(grown, path, last.status);
            let after = dirtied(marked, root, path);
            assert(after.contains_key(path) && after.contains_key(parent));
            assert(path.drop_last().len() == path.len() - 1);
            assert(marked[parent] == grown[parent]);
        }
    }
}

pub proof fn lemma_changes_loaded(
    tree: Tree,
    root: Seq<Part>,
    root_text: Seq<u8>,
    changes: Seq<Change>,
    path: Seq<Part>,
)
    requires
        tree.contains_key(path),
    ensures
        changes_applied(tree, root, root_text, changes).contains_key(path),
        same_entry(changes_applied(tree, root, root_text, changes)[path], tree[path]),
    decreases changes.len(),
{
    if changes.len() > 0 {
        lemma_changes_loaded(tree, root, root_text, changes.drop_last(), path);
        lemma_change_at(
            changes_applied(tree, root, root_text, changes.drop_last()),
            root,
            root_text,
            changes.last(),
            path,
        );
    }
}

proof fn lemma_listed_when_added(
    tree: Tree,
    root: Seq<Part>,
    root_text: Seq<u8>,
    changes: Seq<Change>,
    path: Seq<Part>,
    parent: Seq<Part>,
)
    requires
        !tree.contains_key(path),
        parent_of(path) == Some(parent),
        tree.contains_key(parent),
        tree[parent].loaded,
        changes_applied(tree, root, root_text, changes).contains_key(path),
    ensures
        changes_applied(tree, root, root_text, changes).contains_key(parent),
        changes_applied(tree, root, root_text, changes)[parent].children.contains(path),
    decreases changes.len(), 1nat,
{
    lemma_added(tree, root, root_text, changes, path);
    let at = choose|i: int|
        0 <= i < changes.len() && reports(root, #[trigger] changes[i], path) && changes[i].status
            == GitStatus::Deleted;
    lemma_deleted_shown(tree, root, root_text, changes, at, path, parent);
}

/// A path that the snapshot reports deleted and that is not on disk is shown
/// among the children of its directory, once these are known.
pub proof fn law_deleted_child_is_shown(
    tree: Tree,
    root: Seq<Part>,
    root_text: Seq<u8>,
    changes: Seq<Change>,
    at: int,
    path: Seq<Part>,
    parent: Seq<Part>,
)
    requires
        0 <= at < changes.len(),
        reports(root, changes[at], path),
        changes[at].status == GitStatus::Deleted,
        !cleared(tree).contains_key(path),
        parent_of(path) == Some(parent),
        tree.contains_key(parent),
        !tree[parent].synthetic_deleted,
        tree[parent].loaded,
    ensures
        reconciled(tree, root, root_text, changes).contains_key(path),
        reconciled(tree, root, root_text, changes)[path].kind == EntryKind::Deleted,
        reconciled(tree, root, root_text, changes)[parent].children.contains(path),
{
    lemma_deleted_shown(cleared(tree), root, root_text, changes, at, path, parent);
    lemma_added(cleared(tree), root, root_text, changes, path);
}

} // verus!
