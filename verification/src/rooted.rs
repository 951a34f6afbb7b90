//! The root of the tree stays, everything stays under it, and what is listed has
//! its node and is listed once.

use vstd::prelude::*;

use crate::decorate::{
    change_applied, changes_applied, children_sorted, cleared, decorated, deleted_node, dirtied,
    is_materialized, is_synthetic, lemma_children_sorted, lemma_cleared_ok, lemma_insert_ok,
    materialized, reconciled,
};
use crate::git::{law_safe_join_stays_under_root, safe_joined, Change};
use crate::listing::{
    dropped, entries_of, entry_paths, lemma_listing_ok, lie_below, listing_applied, with_entries,
    EntryView, ListingView,
};
use crate::path::{is_under, joined_bytes, parent_of, Part};
use crate::state::is_rooted;
use crate::subtree::listed;
use crate::tree::{children_known, lists_once, tree_ok, EntryKind, NodeView, Tree};

verus! {

/// A path directly below one under the root is under the root, and is not the
/// root.
proof fn lemma_child_under(root: Seq<Part>, path: Seq<Part>, child: Seq<Part>)
    requires
        is_under(path, root),
        parent_of(child) == Some(path),
    ensures
        is_under(child, root),
        child != root,
{
    assert(child.drop_last() == path);
    assert(child.take(root.len() as int) =~= path.take(root.len() as int));
}

/// Changing a node without touching what it lists keeps the tree in order and
/// rooted.
pub proof fn lemma_node_changed(tree: Tree, root: Seq<Part>, path: Seq<Part>, node: NodeView)
    requires
        tree_ok(tree),
        is_rooted(tree, root),
        children_known(tree),
        lists_once(tree),
        tree.contains_key(path),
        node.children == tree[path].children,
        node.kind == tree[path].kind,
        node.synthetic_deleted == tree[path].synthetic_deleted,
    ensures
        tree_ok(tree.insert(path, node)),
        is_rooted(tree.insert(path, node), root),
        children_known(tree.insert(path, node)),
        lists_once(tree.insert(path, node)),
{
    let changed = tree.insert(path, node);
    assert forall|p: Seq<Part>, i: int|
        changed.contains_key(p) && 0 <= i < changed[p].children.len() implies changed.contains_key(
        #[trigger] changed[p].children[i],
    ) by {
        assert(tree.contains_key(tree[p].children[i]));
    }
    assert forall|i: int| 0 <= i < node.children.len() implies parent_of(
        #[trigger] node.children[i],
    ) == Some(path) by {
        assert(parent_of(tree[path].children[i]) == Some(path));
    }
    lemma_insert_ok(tree, path, node);
}

/// Clearing the decorations keeps the tree rooted.
pub proof fn lemma_cleared_rooted(tree: Tree, root: Seq<Part>)
    requires
        tree_ok(tree),
        is_rooted(tree, root),
        children_known(tree),
        lists_once(tree),
    ensures
        tree_ok(cleared(tree)),
        is_rooted(cleared(tree), root),
        children_known(cleared(tree)),
        lists_once(cleared(tree)),
{
    lemma_cleared_ok(tree);
    lemma_cleared_known(tree);
    lemma_cleared_once(tree);
}

/// Clearing the decorations takes every node that it takes out off the lists.
pub proof fn lemma_cleared_known(tree: Tree)
    requires
        children_known(tree),
    ensures
        children_known(cleared(tree)),
{
    let clear = cleared(tree);
    let keep = |child: Seq<Part>| !is_synthetic(tree, child);
    assert forall|p: Seq<Part>, i: int|
        clear.contains_key(p) && 0 <= i < clear[p].children.len() implies clear.contains_key(
        #[trigger] clear[p].children[i],
    ) by {
        let kids = tree[p].children;
        let child = clear[p].children[i];
        kids.lemma_filter_pred(keep, i);
        assert(kids.filter(keep).contains(child));
        kids.lemma_filter_contains_rev(keep, child);
        let j = kids.index_of(child);
        assert(tree.contains_key(tree[p].children[j]));
    }
}

/// A node that is made for a deleted path is there before it is listed.
pub proof fn lemma_change_known(tree: Tree, root: Seq<Part>, root_text: Seq<u8>, change: Change)
    requires
        children_known(tree),
    ensures
        children_known(change_applied(tree, root, root_text, change)),
{
    if let Some(path) = safe_joined(root, change.path) {
        let grown = materialized(tree, path, joined_bytes(root_text, change.text), change.status);
        let marked = decorated(grown, path, change.status);
        let after = dirtied(marked, root, path);
        assert(after.dom() =~= marked.dom());
        assert forall|p: Seq<Part>, i: int|
            after.contains_key(p) && 0 <= i < after[p].children.len() implies after.contains_key(
            #[trigger] after[p].children[i],
        ) by {
            assert(after[p].children == grown[p].children);
            let child = grown[p].children[i];
            if is_materialized(tree, path, change.status) {
                let parent = parent_of(path)->0;
                let text = joined_bytes(root_text, change.text);
                let more = tree.insert(path, deleted_node(path, text));
                let kids = tree[parent].children.push(path);
                lemma_children_sorted(more, kids);
                if p == parent {
                    assert(children_sorted(more, kids).contains(child));
                    let j = kids.index_of(child);
                    if j < tree[parent].children.len() {
                        assert(tree.contains_key(tree[parent].children[j]));
                    }
                } else if p != path {
                    assert(tree.contains_key(tree[p].children[i]));
                }
            } else {
                assert(tree.contains_key(tree[p].children[i]));
            }
        }
    }
}

/// Reporting changes keeps every listed child a node.
pub proof fn lemma_changes_known(
    tree: Tree,
    root: Seq<Part>,
    root_text: Seq<u8>,
    changes: Seq<Change>,
)
    requires
        children_known(tree),
    ensures
        children_known(changes_applied(tree, root, root_text, changes)),
    decreases changes.len(),
{
    if changes.len() > 0 {
        lemma_changes_known(tree, root, root_text, changes.drop_last());
        lemma_change_known(
            changes_applied(tree, root, root_text, changes.drop_last()),
            root,
            root_text,
            changes.last(),
        );
    }
}

proof fn lemma_change_rooted(tree: Tree, root: Seq<Part>, root_text: Seq<u8>, change: Change)
    requires
        is_rooted(tree, root),
    ensures
        is_rooted(change_applied(tree, root, root_text, change), root),
{
    if let Some(path) = safe_joined(root, change.path) {
        law_safe_join_stays_under_root(root, change.path);
        let grown = materialized(tree, path, joined_bytes(root_text, change.text), change.status);
        if is_materialized(tree, path, change.status) {
            assert(grown[root].kind == EntryKind::Directory);
        }
        assert(is_rooted(grown, root));
        let marked = decorated(grown, path, change.status);
        assert(is_rooted(marked, root));
        let after = dirtied(marked, root, path);
        assert(after.dom() =~= marked.dom());
    }
}

proof fn lemma_changes_rooted(tree: Tree, root: Seq<Part>, root_text: Seq<u8>, changes: Seq<Change>)
    requires
        is_rooted(tree, root),
    ensures
        is_rooted(changes_applied(tree, root, root_text, changes), root),
    decreases changes.len(),
{
    if changes.len() > 0 {
        lemma_changes_rooted(tree, root, root_text, changes.drop_last());
        lemma_change_rooted(
            changes_applied(tree, root, root_text, changes.drop_last()),
            root,
            root_text,
            changes.last(),
        );
    }
}

proof fn lemma_filter_once<A>(items: Seq<A>, keep: spec_fn(A) -> bool)
    requires
        items.no_duplicates(),
    ensures
        items.filter(keep).no_duplicates(),
    decreases items.len(),
{
    reveal(Seq::filter);
    if items.len() > 0 {
        let front = items.drop_last();
        lemma_filter_once(front, keep);
        let kept = front.filter(keep);
        assert forall|i: int| 0 <= i < kept.len() implies #[trigger] kept[i] != items.last() by {
            assert(kept.contains(kept[i]));
            front.lemma_filter_contains_rev(keep, kept[i]);
            let j = front.index_of(kept[i]);
            assert(items[j] == kept[i]);
        }
    }
}

proof fn lemma_cleared_once(tree: Tree)
    requires
        lists_once(tree),
    ensures
        lists_once(cleared(tree)),
{
    let keep = |child: Seq<Part>| !is_synthetic(tree, child);
    assert forall|path: Seq<Part>| #[trigger] cleared(tree).contains_key(path) implies cleared(
        tree,
    )[path].children.no_duplicates() by {
        assert(tree.contains_key(path));
        lemma_filter_once(tree[path].children, keep);
    }
}

proof fn lemma_sorted_once(tree: Tree, children: Seq<Seq<Part>>)
    requires
        children.no_duplicates(),
    ensures
        children_sorted(tree, children).no_duplicates(),
{
    lemma_children_sorted(tree, children);
    children.lemma_multiset_has_no_duplicates();
    children_sorted(tree, children).lemma_multiset_has_no_duplicates_conv();
}

proof fn lemma_change_once(tree: Tree, root: Seq<Part>, root_text: Seq<u8>, change: Change)
    requires
        children_known(tree),
        lists_once(tree),
    ensures
        lists_once(change_applied(tree, root, root_text, change)),
{
    if let Some(path) = safe_joined(root, change.path) {
        let grown = materialized(tree, path, joined_bytes(root_text, change.text), change.status);
        let marked = decorated(grown, path, change.status);
        let after = dirtied(marked, root, path);
        assert(after.dom() =~= marked.dom());
        if is_materialized(tree, path, change.status) {
            let parent = parent_of(path)->0;
            let more = tree.insert(path, deleted_node(path, joined_bytes(root_text, change.text)));
            let kids = tree[parent].children;
            assert(!kids.contains(path)) by {
                if kids.contains(path) {
                    let i = kids.index_of(path);
                    assert(tree.contains_key(tree[parent].children[i]));
                }
            }
            assert(kids.push(path).no_duplicates());
            lemma_sorted_once(more, kids.push(path));
        }
        assert forall|p: Seq<Part>| #[trigger]
            after.contains_key(p) implies after[p].children.no_duplicates() by {
            assert(after[p].children == grown[p].children);
            if tree.contains_key(p) {
                assert(tree[p].children.no_duplicates());
            }
        }
    }
}

proof fn lemma_decorations_list_once(
    tree: Tree,
    root: Seq<Part>,
    root_text: Seq<u8>,
    changes: Seq<Change>,
)
    requires
        children_known(tree),
        lists_once(tree),
    ensures
        lists_once(cleared(tree)),
        lists_once(reconciled(tree, root, root_text, changes)),
{
    lemma_cleared_known(tree);
    lemma_cleared_once(tree);
    lemma_changes_once(cleared(tree), root, root_text, changes);
}

proof fn lemma_changes_once(tree: Tree, root: Seq<Part>, root_text: Seq<u8>, changes: Seq<Change>)
    requires
        children_known(tree),
        lists_once(tree),
    ensures
        lists_once(changes_applied(tree, root, root_text, changes)),
    decreases changes.len(),
{
    if changes.len() > 0 {
        let front = changes.drop_last();
        lemma_changes_once(tree, root, root_text, front);
        lemma_changes_known(tree, root, root_text, front);
        let before = changes_applied(tree, root, root_text, front);
        lemma_change_once(before, root, root_text, changes.last());
    }
}

/// A listing that names every entry once leaves nothing listed twice.
proof fn lemma_listing_once(tree: Tree, path: Seq<Part>, listing: ListingView, cap: nat)
    requires
        lists_once(tree),
        entry_paths(listing.entries).no_duplicates(),
    ensures
        lists_once(listing_applied(tree, path, listing, cap)),
{
    let rest = tree.remove_keys(dropped(tree, path, entry_paths(listing.entries)));
    let full = with_entries(rest, listing.entries);
    let after = listing_applied(tree, path, listing, cap);
    lemma_entries_listed(rest, listing.entries);
    assert forall|p: Seq<Part>| #[trigger]
        after.contains_key(p) implies after[p].children.no_duplicates() by {
        if p != path {
            assert(full.contains_key(p));
            if rest.contains_key(p) {
                assert(tree.contains_key(p));
            }
        }
    }
}

/// Decorating keeps the tree rooted.
pub proof fn lemma_reconciled_rooted(
    tree: Tree,
    root: Seq<Part>,
    root_text: Seq<u8>,
    changes: Seq<Change>,
)
    requires
        tree_ok(tree),
        is_rooted(tree, root),
        children_known(tree),
        lists_once(tree),
    ensures
        is_rooted(reconciled(tree, root, root_text, changes), root),
        children_known(reconciled(tree, root, root_text, changes)),
        lists_once(reconciled(tree, root, root_text, changes)),
{
    lemma_decorations_list_once(tree, root, root_text, changes);
    lemma_cleared_rooted(tree, root);
    lemma_changes_rooted(cleared(tree), root, root_text, changes);
    lemma_changes_known(cleared(tree), root, root_text, changes);
}

/// The entries have their nodes, and what a node lists was listed there before.
pub proof fn lemma_entries_listed(tree: Tree, entries: Seq<EntryView>)
    ensures
        forall|i: int|
            0 <= i < entries.len() ==> with_entries(tree, entries).contains_key(
                (#[trigger] entries[i]).path,
            ),
        forall|p: Seq<Part>| #[trigger]
            tree.contains_key(p) ==> with_entries(tree, entries).contains_key(p),
        forall|p: Seq<Part>| #[trigger]
            with_entries(tree, entries).contains_key(p) ==> with_entries(
                tree,
                entries,
            )[p].children.len() == 0 || (tree.contains_key(p) && with_entries(
                tree,
                entries,
            )[p].children == tree[p].children),
    decreases entries.len(),
{
    if entries.len() > 0 {
        let front = entries.drop_last();
        lemma_entries_listed(tree, front);
        assert forall|i: int| 0 <= i < entries.len() implies with_entries(
            tree,
            entries,
        ).contains_key((#[trigger] entries[i]).path) by {
            if i < front.len() {
                assert(front[i] == entries[i]);
            }
        }
    }
}

/// A listing takes off its lists what it takes out.
proof fn lemma_listing_known(tree: Tree, path: Seq<Part>, listing: ListingView, cap: nat)
    requires
        tree_ok(tree),
        children_known(tree),
        tree.contains_key(path),
        entries_of(listing.entries, path),
    ensures
        children_known(listing_applied(tree, path, listing, cap)),
{
    let kept = entry_paths(listing.entries);
    let gone = dropped(tree, path, kept);
    let rest = tree.remove_keys(gone);
    let full = with_entries(rest, listing.entries);
    let after = listing_applied(tree, path, listing, cap);
    lemma_entries_listed(rest, listing.entries);
    assert forall|p: Seq<Part>, i: int|
        after.contains_key(p) && 0 <= i < after[p].children.len() implies after.contains_key(
        #[trigger] after[p].children[i],
    ) by {
        if p == path {
            assert(after[p].children[i] == listing.entries[i].path);
        } else {
            assert(full.contains_key(p));
            assert(rest.contains_key(p));
            let child = tree[p].children[i];
            assert(tree.contains_key(tree[p].children[i]));
            assert(parent_of(tree[p].children[i]) == Some(p));
            if gone.contains(child) {
                let kids = tree[path].children;
                let j = choose|j: int|
                    0 <= j < kids.len() && !kept.contains(kids[j]) && listed(
                        tree,
                        #[trigger] kids[j],
                        child,
                    );
                assert(parent_of(tree[path].children[j]) == Some(path));
                if kids[j].len() == child.len() {
                    assert(child.take(kids[j].len() as int) =~= child);
                    assert(child == kids[j]);
                } else {
                    assert(p == child.drop_last());
                    assert(p.take(kids[j].len() as int) =~= child.take(kids[j].len() as int));
                    assert forall|k: int| kids[j].len() <= k <= p.len() implies {
                        &&& #[trigger] tree.contains_key(p.take(k))
                        &&& k < p.len() ==> tree[p.take(k)].children.contains(p.take(k + 1))
                    } by {
                        assert(p.take(k) =~= child.take(k));
                        assert(tree.contains_key(child.take(k)));
                        if k < p.len() {
                            assert(p.take(k + 1) =~= child.take(k + 1));
                        }
                    }
                    assert(listed(tree, kids[j], p));
                    assert(gone.contains(p));
                }
                assert(false);
            }
            assert(rest.contains_key(child));
        }
    }
}

proof fn lemma_entries_rooted(tree: Tree, root: Seq<Part>, path: Seq<Part>, entries: Seq<EntryView>)
    requires
        is_rooted(tree, root),
        is_under(path, root),
        lie_below(entries, path),
    ensures
        is_rooted(with_entries(tree, entries), root),
    decreases entries.len(),
{
    if entries.len() > 0 {
        let front = entries.drop_last();
        assert forall|i: int| 0 <= i < front.len() implies parent_of((#[trigger] front[i]).path)
            == Some(path) by {
            assert(front[i] == entries[i]);
        }
        lemma_entries_rooted(tree, root, path, front);
        assert(parent_of(entries[entries.len() - 1].path) == Some(path));
        lemma_child_under(root, path, entries.last().path);
    }
}

/// A listing keeps the tree in order and rooted.
pub proof fn lemma_listing_rooted(
    tree: Tree,
    root: Seq<Part>,
    path: Seq<Part>,
    listing: ListingView,
    cap: nat,
)
    requires
        tree_ok(tree),
        is_rooted(tree, root),
        children_known(tree),
        lists_once(tree),
        tree.contains_key(path),
        entries_of(listing.entries, path),
    ensures
        tree_ok(listing_applied(tree, path, listing, cap)),
        is_rooted(listing_applied(tree, path, listing, cap), root),
        children_known(listing_applied(tree, path, listing, cap)),
        lists_once(listing_applied(tree, path, listing, cap)),
{
    lemma_listing_once(tree, path, listing, cap);
    lemma_listing_ok(tree, path, listing, cap);
    lemma_listing_known(tree, path, listing, cap);
    let kept = entry_paths(listing.entries);
    let gone = dropped(tree, path, kept);
    let kids = tree[path].children;
    if gone.contains(root) {
        let i = choose|i: int|
            0 <= i < kids.len() && !kept.contains(kids[i]) && listed(tree, #[trigger] kids[i], root);
        assert(parent_of(tree[path].children[i]) == Some(path));
        lemma_child_under(root, path, kids[i]);
        assert(kids[i].len() <= root.len());
        assert(kids[i].drop_last().len() == kids[i].len() - 1);
    }
    let rest = tree.remove_keys(gone);
    assert(is_rooted(rest, root));
    lemma_entries_rooted(rest, root, path, listing.entries);
}

} // verus!
