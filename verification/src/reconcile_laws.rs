//! Decorating twice is decorating once.

use vstd::prelude::*;

use crate::decorate::{
    changes_applied, child_before, child_inserted, children_sorted, cleared, decorated,
    deleted_node, dirtied, in_order, is_materialized, is_synthetic, lemma_child_before,
    lemma_children_sorted, materialized, reconciled,
};
use crate::decoration_laws::{lemma_added, lemma_change_at, lemma_changes_loaded};
use crate::git::{safe_joined, Change, GitStatus};
use crate::path::{joined_bytes, parent_of, Part};
use crate::rooted::{lemma_changes_known, lemma_cleared_known};
use crate::tree::{children_known, NodeView, Tree};

verus! {

/// Whether two trees order the paths in a list alike.
spec fn orders_alike(left: Tree, right: Tree, paths: Seq<Seq<Part>>) -> bool {
    forall|i: int|
        0 <= i < paths.len() ==> {
            &&& left.contains_key(#[trigger] paths[i])
            &&& right.contains_key(paths[i])
            &&& left[paths[i]].kind == right[paths[i]].kind
            &&& left[paths[i]].name == right[paths[i]].name
        }
}

proof fn lemma_alike_front(left: Tree, right: Tree, paths: Seq<Seq<Part>>)
    requires
        paths.len() > 0,
        orders_alike(left, right, paths),
    ensures
        orders_alike(left, right, paths.drop_last()),
        orders_alike(left, right, seq![paths.last()]),
{
    assert forall|i: int| 0 <= i < paths.drop_last().len() implies {
        &&& left.contains_key(#[trigger] paths.drop_last()[i])
        &&& right.contains_key(paths.drop_last()[i])
        &&& left[paths.drop_last()[i]].kind == right[paths.drop_last()[i]].kind
        &&& left[paths.drop_last()[i]].name == right[paths.drop_last()[i]].name
    } by {
        assert(paths.drop_last()[i] == paths[i]);
    }
    assert(paths[paths.len() - 1] == paths.last());
}

proof fn lemma_inserted_alike(left: Tree, right: Tree, paths: Seq<Seq<Part>>, child: Seq<Part>)
    requires
        orders_alike(left, right, paths),
        orders_alike(left, right, seq![child]),
    ensures
        child_inserted(left, paths, child) == child_inserted(right, paths, child),
    decreases paths.len(),
{
    if paths.len() > 0 {
        lemma_alike_front(left, right, paths);
        lemma_inserted_alike(left, right, paths.drop_last(), child);
        assert(seq![child][0] == child);
        assert(paths[paths.len() - 1] == paths.last());
    }
}

proof fn lemma_sorted_alike(left: Tree, right: Tree, paths: Seq<Seq<Part>>)
    requires
        orders_alike(left, right, paths),
    ensures
        children_sorted(left, paths) == children_sorted(right, paths),
    decreases paths.len(),
{
    if paths.len() > 0 {
        let front = paths.drop_last();
        lemma_alike_front(left, right, paths);
        lemma_sorted_alike(left, right, front);
        lemma_children_sorted(left, front);
        let sorted = children_sorted(left, front);
        assert forall|i: int| 0 <= i < sorted.len() implies {
            &&& left.contains_key(#[trigger] sorted[i])
            &&& right.contains_key(sorted[i])
            &&& left[sorted[i]].kind == right[sorted[i]].kind
            &&& left[sorted[i]].name == right[sorted[i]].name
        } by {
            assert(sorted.contains(sorted[i]));
            let j = front.index_of(sorted[i]);
            assert(front[j] == sorted[i]);
        }
        lemma_inserted_alike(left, right, sorted, paths.last());
    }
}

/// Sorting what is in order changes nothing.
proof fn lemma_sorted_stays(tree: Tree, children: Seq<Seq<Part>>)
    requires
        in_order(tree, children),
    ensures
        children_sorted(tree, children) == children,
    decreases children.len(),
{
    if children.len() > 0 {
        let front = children.drop_last();
        assert forall|i: int, j: int| 0 <= i < j < front.len() implies !child_before(
            tree,
            #[trigger] front[j],
            #[trigger] front[i],
        ) by {
            assert(front[i] == children[i] && front[j] == children[j]);
        }
        lemma_sorted_stays(tree, front);
        if front.len() > 0 {
            assert(front.last() == children[children.len() - 2]);
            assert(!child_before(tree, children[children.len() - 1], children[children.len() - 2]));
        }
        assert(children =~= front.push(children.last()));
    }
}

proof fn lemma_filter_last(
    tree: Tree,
    children: Seq<Seq<Part>>,
    keep: spec_fn(Seq<Part>) -> bool,
    child: Seq<Part>,
)
    requires
        in_order(tree, children),
        children.len() > 0,
        !child_before(tree, child, children.last()),
        children.filter(keep).len() > 0,
    ensures
        !child_before(tree, child, children.filter(keep).last()),
{
    let kept = children.filter(keep);
    assert(kept.contains(kept.last()));
    children.lemma_filter_contains_rev(keep, kept.last());
    let j = children.index_of(kept.last());
    if j < children.len() - 1 {
        assert(!child_before(tree, children[children.len() - 1], children[j]));
        lemma_child_before(tree, child, children[j], children.last());
    }
}

/// Leaving paths out and putting one in can be done in either order.
proof fn lemma_inserted_filtered(
    tree: Tree,
    children: Seq<Seq<Part>>,
    keep: spec_fn(Seq<Part>) -> bool,
    child: Seq<Part>,
)
    requires
        in_order(tree, children),
    ensures
        child_inserted(tree, children, child).filter(keep) == (if keep(child) {
            child_inserted(tree, children.filter(keep), child)
        } else {
            children.filter(keep)
        }),
    decreases children.len(),
{
    reveal(Seq::filter);
    let result = child_inserted(tree, children, child);
    if children.len() == 0 || !child_before(tree, child, children.last()) {
        assert(result.drop_last() =~= children);
        assert(result.last() == child);
        if keep(child) && children.filter(keep).len() > 0 {
            lemma_filter_last(tree, children, keep, child);
        }
    } else {
        let front = children.drop_last();
        assert forall|i: int, j: int| 0 <= i < j < front.len() implies !child_before(
            tree,
            #[trigger] front[j],
            #[trigger] front[i],
        ) by {
            assert(front[i] == children[i] && front[j] == children[j]);
        }
        lemma_inserted_filtered(tree, front, keep, child);
        let inner = child_inserted(tree, front, child);
        assert(result.drop_last() =~= inner);
        assert(result.last() == children.last());
        if keep(children.last()) {
            let kept = children.filter(keep);
            assert(kept == front.filter(keep).push(children.last()));
            assert(kept.drop_last() =~= front.filter(keep));
        }
    }
}

/// Leaving paths out and sorting can be done in either order.
proof fn lemma_sorted_filtered(
    tree: Tree,
    children: Seq<Seq<Part>>,
    keep: spec_fn(Seq<Part>) -> bool,
)
    ensures
        children_sorted(tree, children).filter(keep) == children_sorted(
            tree,
            children.filter(keep),
        ),
    decreases children.len(),
{
    reveal(Seq::filter);
    if children.len() > 0 {
        let front = children.drop_last();
        lemma_sorted_filtered(tree, front, keep);
        lemma_children_sorted(tree, front);
        lemma_inserted_filtered(tree, children_sorted(tree, front), keep, children.last());
        if keep(children.last()) {
            let kept = children.filter(keep);
            assert(kept == front.filter(keep).push(children.last()));
            assert(kept.drop_last() =~= front.filter(keep));
        }
    }
}

/// Whether two trees differ at most in the order in which some directories list
/// their children: those in `loose`, whose lists the second tree has sorted.
spec fn differ_in_order(left: Tree, right: Tree, loose: Set<Seq<Part>>) -> bool {
    &&& left.dom() == right.dom()
    &&& forall|p: Seq<Part>| #[trigger]
        left.contains_key(p) ==> right[p] == (NodeView { children: right[p].children, ..left[p] })
    &&& forall|p: Seq<Part>| #[trigger]
        left.contains_key(p) ==> right[p].children == left[p].children || (loose.contains(p)
            && right[p].children == children_sorted(left, left[p].children))
}

proof fn lemma_children_alike(left: Tree, right: Tree, path: Seq<Part>)
    requires
        children_known(left),
        left.contains_key(path),
        forall|p: Seq<Part>| #[trigger]
            left.contains_key(p) ==> right.contains_key(p) && right[p].kind == left[p].kind
                && right[p].name == left[p].name,
    ensures
        orders_alike(left, right, left[path].children),
{
    let paths = left[path].children;
    assert forall|i: int| 0 <= i < paths.len() implies {
        &&& left.contains_key(#[trigger] paths[i])
        &&& right.contains_key(paths[i])
        &&& left[paths[i]].kind == right[paths[i]].kind
        &&& left[paths[i]].name == right[paths[i]].name
    } by {
        assert(left.contains_key(left[path].children[i]));
    }
}

/// The node of a deleted path finds its place in a sorted list as in an
/// unsorted one.
proof fn lemma_materialized_alike(
    left: Tree,
    right: Tree,
    loose: Set<Seq<Part>>,
    path: Seq<Part>,
    text: Seq<u8>,
    status: GitStatus,
)
    requires
        children_known(left),
        differ_in_order(left, right, loose),
    ensures
        differ_in_order(
            materialized(left, path, text, status),
            materialized(right, path, text, status),
            loose,
        ),
{
    assert(left.contains_key(path) == right.contains_key(path)) by {
        assert(left.dom().contains(path) == right.dom().contains(path));
    }
    if parent_of(path) is Some {
        let parent = parent_of(path)->0;
        assert(left.dom().contains(parent) == right.dom().contains(parent));
    }
    let after = materialized(left, path, text, status);
    let other = materialized(right, path, text, status);
    if is_materialized(left, path, status) {
        let parent = parent_of(path)->0;
        let kids = left[parent].children;
        let more = left.insert(path, deleted_node(path, text));
        let wide = right.insert(path, deleted_node(path, text));
        assert(path.drop_last().len() == path.len() - 1);
        assert forall|p: Seq<Part>| #[trigger] left.contains_key(p) implies more.contains_key(p)
            && more[p].kind == left[p].kind && more[p].name == left[p].name by {}
        lemma_children_alike(left, more, parent);
        lemma_sorted_alike(left, more, kids);
        let sorted = children_sorted(more, kids);
        lemma_children_sorted(more, kids);
        lemma_sorted_stays(more, sorted);
        let longer = kids.push(path);
        let shorter = sorted.push(path);
        assert(longer.drop_last() =~= kids);
        assert(shorter.drop_last() =~= sorted);
        assert(children_sorted(more, longer) == children_sorted(more, shorter));
        let listed = right[parent].children.push(path);
        assert(right[parent].children == kids || right[parent].children == sorted);
        assert(children_sorted(more, listed) == children_sorted(more, longer));
        assert forall|i: int| 0 <= i < listed.len() implies {
            &&& more.contains_key(#[trigger] listed[i])
            &&& wide.contains_key(listed[i])
            &&& more[listed[i]].kind == wide[listed[i]].kind
            &&& more[listed[i]].name == wide[listed[i]].name
        } by {
            if i < listed.len() - 1 {
                let child = right[parent].children[i];
                assert(listed[i] == child);
                if right[parent].children != kids {
                    assert(sorted.contains(child));
                } else {
                    assert(kids.contains(child));
                }
                let j = kids.index_of(child);
                assert(left.contains_key(left[parent].children[j]));
                assert(right.dom().contains(child));
            }
        }
        lemma_sorted_alike(more, wide, listed);
        assert(other[parent].children == after[parent].children);
        assert(after.dom() =~= other.dom());
        assert forall|p: Seq<Part>| #[trigger] after.contains_key(p) implies other[p].children
            == after[p].children || (loose.contains(p) && other[p].children == children_sorted(
            after,
            after[p].children,
        )) by {
            if p != parent && p != path {
                assert(left.contains_key(p));
                lemma_children_alike(left, after, p);
                lemma_sorted_alike(left, after, left[p].children);
            }
        }
        assert forall|p: Seq<Part>| #[trigger] after.contains_key(p) implies other[p] == (NodeView {
            children: other[p].children,
            ..after[p]
        }) by {
            if p != path {
                assert(left.contains_key(p));
            }
        }
    }
}

proof fn lemma_marked_alike(
    left: Tree,
    right: Tree,
    loose: Set<Seq<Part>>,
    root: Seq<Part>,
    path: Seq<Part>,
    status: GitStatus,
)
    requires
        children_known(left),
        differ_in_order(left, right, loose),
    ensures
        differ_in_order(
            dirtied(decorated(left, path, status), root, path),
            dirtied(decorated(right, path, status), root, path),
            loose,
        ),
{
    let after = dirtied(decorated(left, path, status), root, path);
    let other = dirtied(decorated(right, path, status), root, path);
    assert(left.dom().contains(path) == right.dom().contains(path));
    assert(after.dom() =~= left.dom());
    assert(other.dom() =~= right.dom());
    assert forall|p: Seq<Part>| #[trigger] left.contains_key(p) implies after.contains_key(p)
        && after[p].kind == left[p].kind && after[p].name == left[p].name && after[p].children
        == left[p].children && other[p].children == right[p].children by {
        assert(after.dom().contains(p));
        assert(right.dom().contains(p));
    }
    assert forall|p: Seq<Part>| #[trigger] after.contains_key(p) implies other[p] == (NodeView {
        children: other[p].children,
        ..after[p]
    }) by {
        assert(left.contains_key(p));
        assert(right.dom().contains(p));
    }
    assert forall|p: Seq<Part>| #[trigger] after.contains_key(p) implies other[p].children
        == after[p].children || (loose.contains(p) && other[p].children == children_sorted(
        after,
        after[p].children,
    )) by {
        assert(left.contains_key(p));
        lemma_children_alike(left, after, p);
        lemma_sorted_alike(left, after, left[p].children);
    }
}

proof fn lemma_materialized_known(tree: Tree, path: Seq<Part>, text: Seq<u8>, status: GitStatus)
    requires
        children_known(tree),
    ensures
        children_known(materialized(tree, path, text, status)),
{
    let grown = materialized(tree, path, text, status);
    if is_materialized(tree, path, status) {
        let parent = parent_of(path)->0;
        let more = tree.insert(path, deleted_node(path, text));
        let kids = tree[parent].children.push(path);
        lemma_children_sorted(more, kids);
        assert forall|p: Seq<Part>, i: int|
            grown.contains_key(p) && 0 <= i < grown[p].children.len() implies grown.contains_key(
            #[trigger] grown[p].children[i],
        ) by {
            if p == parent {
                let child = grown[p].children[i];
                assert(children_sorted(more, kids).contains(child));
                let j = kids.index_of(child);
                if j < tree[parent].children.len() {
                    assert(tree.contains_key(tree[parent].children[j]));
                }
            } else if p != path {
                assert(tree.contains_key(tree[p].children[i]));
            }
        }
    }
}

proof fn lemma_changes_alike(
    left: Tree,
    right: Tree,
    loose: Set<Seq<Part>>,
    root: Seq<Part>,
    root_text: Seq<u8>,
    changes: Seq<Change>,
)
    requires
        children_known(left),
        differ_in_order(left, right, loose),
    ensures
        differ_in_order(
            changes_applied(left, root, root_text, changes),
            changes_applied(right, root, root_text, changes),
            loose,
        ),
    decreases changes.len(),
{
    if changes.len() > 0 {
        let front = changes.drop_last();
        let last = changes.last();
        lemma_changes_alike(left, right, loose, root, root_text, front);
        lemma_changes_known(left, root, root_text, front);
        let before = changes_applied(left, root, root_text, front);
        let other = changes_applied(right, root, root_text, front);
        if let Some(path) = safe_joined(root, last.path) {
            let text = joined_bytes(root_text, last.text);
            lemma_materialized_alike(before, other, loose, path, text, last.status);
            lemma_materialized_known(before, path, joined_bytes(root_text, last.text), last.status);
            lemma_marked_alike(
                materialized(before, path, joined_bytes(root_text, last.text), last.status),
                materialized(other, path, joined_bytes(root_text, last.text), last.status),
                loose,
                root,
                path,
                last.status,
            );
        }
    }
}

/// What a directory lists of the paths that were there before the changes is
/// what it listed then, as it was or sorted. Where it is something else than it
/// was, the whole list is in order.
proof fn lemma_listed_before(
    tree: Tree,
    root: Seq<Part>,
    root_text: Seq<u8>,
    changes: Seq<Change>,
    path: Seq<Part>,
)
    requires
        children_known(tree),
        tree.contains_key(path),
    ensures
        ({
            let after = changes_applied(tree, root, root_text, changes);
            let kids = tree[path].children;
            let kept = after[path].children.filter(|child: Seq<Part>| tree.contains_key(child));
            &&& after.contains_key(path)
            &&& after[path].children == kids || in_order(after, after[path].children)
            &&& kept == kids || kept == children_sorted(tree, kids)
        }),
    decreases changes.len(),
{
    let there = |child: Seq<Part>| tree.contains_key(child);
    let kids = tree[path].children;
    lemma_changes_loaded(tree, root, root_text, changes, path);
    if changes.len() == 0 {
        assert forall|i: int| 0 <= i < kids.len() implies there(#[trigger] kids[i]) by {
            assert(tree.contains_key(tree[path].children[i]));
        }
        lemma_filter_all(kids, there);
    } else {
        let front = changes.drop_last();
        let last = changes.last();
        lemma_listed_before(tree, root, root_text, front, path);
        lemma_changes_known(tree, root, root_text, front);
        let before = changes_applied(tree, root, root_text, front);
        let after = changes_applied(tree, root, root_text, changes);
        if let Some(changed) = safe_joined(root, last.path) {
            let text = joined_bytes(root_text, last.text);
            let grown = materialized(before, changed, text, last.status);
            assert(after[path].children == grown[path].children) by {
                let marked = decorated(grown, changed, last.status);
                assert(dirtied(marked, root, changed).dom() =~= marked.dom());
                assert(after.contains_key(path));
                assert(marked.contains_key(path));
            }
            assert forall|p: Seq<Part>| #[trigger]
                before.contains_key(p) implies after.contains_key(p) && after[p].kind
                == before[p].kind && after[p].name == before[p].name by {
                lemma_change_at(before, root, root_text, last, p);
            }
            if is_materialized(before, changed, last.status) && parent_of(changed) == Some(path) {
                assert forall|p: Seq<Part>| #[trigger]
                    tree.contains_key(p) implies before.contains_key(p) && before[p].kind
                    == tree[p].kind && before[p].name == tree[p].name by {
                    lemma_changes_loaded(tree, root, root_text, front, p);
                }
                lemma_grown_list(tree, before, after, path, changed, text, last.status, kids);
            } else {
                assert(grown[path].children == before[path].children);
                if before[path].children != kids {
                    lemma_children_alike(before, after, path);
                    lemma_order_alike(before, after, before[path].children);
                }
            }
        }
    }
}

proof fn lemma_filter_all(paths: Seq<Seq<Part>>, keep: spec_fn(Seq<Part>) -> bool)
    ensures
        (forall|i: int| 0 <= i < paths.len() ==> keep(#[trigger] paths[i])) ==> paths.filter(keep)
            == paths,
    decreases paths.len(),
{
    reveal(Seq::filter);
    if paths.len() > 0 && (forall|i: int| 0 <= i < paths.len() ==> keep(#[trigger] paths[i])) {
        let front = paths.drop_last();
        assert forall|i: int| 0 <= i < front.len() implies keep(#[trigger] front[i]) by {
            assert(front[i] == paths[i]);
        }
        lemma_filter_all(front, keep);
        assert(keep(paths[paths.len() - 1]));
        assert(paths =~= front.push(paths.last()));
    }
}

proof fn lemma_order_alike(left: Tree, right: Tree, paths: Seq<Seq<Part>>)
    requires
        orders_alike(left, right, paths),
        in_order(left, paths),
    ensures
        in_order(right, paths),
{
    assert forall|i: int, j: int| 0 <= i < j < paths.len() implies !child_before(
        right,
        #[trigger] paths[j],
        #[trigger] paths[i],
    ) by {
        assert(!child_before(left, paths[j], paths[i]));
    }
}

proof fn lemma_grown_list(
    tree: Tree,
    before: Tree,
    after: Tree,
    path: Seq<Part>,
    changed: Seq<Part>,
    text: Seq<u8>,
    status: GitStatus,
    kids: Seq<Seq<Part>>,
)
    requires
        children_known(tree),
        children_known(before),
        tree.contains_key(path),
        kids == tree[path].children,
        before.contains_key(path),
        is_materialized(before, changed, status),
        parent_of(changed) == Some(path),
        after.contains_key(path),
        after[path].children == materialized(before, changed, text, status)[path].children,
        forall|p: Seq<Part>| #[trigger]
            before.contains_key(p) ==> after.contains_key(p) && after[p].kind == before[p].kind
                && after[p].name == before[p].name,
        after.contains_key(changed),
        after[changed].kind == deleted_node(changed, text).kind,
        after[changed].name == deleted_node(changed, text).name,
        forall|p: Seq<Part>| #[trigger]
            tree.contains_key(p) ==> before.contains_key(p) && before[p].kind == tree[p].kind
                && before[p].name == tree[p].name,
        ({
            let kept = before[path].children.filter(|child: Seq<Part>| tree.contains_key(child));
            kept == kids || kept == children_sorted(tree, kids)
        }),
    ensures
        in_order(after, after[path].children),
        after[path].children.filter(|child: Seq<Part>| tree.contains_key(child)) == children_sorted(
            tree,
            kids,
        ),
{
    let there = |child: Seq<Part>| tree.contains_key(child);
    let more = before.insert(changed, deleted_node(changed, text));
    let own = before[path].children;
    let longer = own.push(changed);
    let sorted = children_sorted(more, longer);
    assert(changed.drop_last().len() == changed.len() - 1);
    assert(after[path].children == sorted);
    lemma_children_sorted(more, longer);
    assert forall|i: int| 0 <= i < sorted.len() implies {
        &&& more.contains_key(#[trigger] sorted[i])
        &&& after.contains_key(sorted[i])
        &&& more[sorted[i]].kind == after[sorted[i]].kind
        &&& more[sorted[i]].name == after[sorted[i]].name
    } by {
        assert(sorted.contains(sorted[i]));
        let j = longer.index_of(sorted[i]);
        if j < own.len() {
            assert(before.contains_key(before[path].children[j]));
        }
    }
    lemma_order_alike(more, after, sorted);
    lemma_sorted_filtered(more, longer, there);
    assert(!there(changed));
    assert(longer.filter(there) == own.filter(there)) by {
        reveal(Seq::filter);
        assert(longer.drop_last() =~= own);
    }
    assert forall|p: Seq<Part>| #[trigger] tree.contains_key(p) implies more.contains_key(p)
        && more[p].kind == tree[p].kind && more[p].name == tree[p].name by {
        assert(before.contains_key(p));
    }
    lemma_children_alike(tree, more, path);
    lemma_sorted_alike(tree, more, kids);
    lemma_children_sorted(more, kids);
    lemma_sorted_stays(more, children_sorted(more, kids));
}

/// Decorating a tree again with the same changes changes nothing.
pub proof fn law_reconciling_again_changes_nothing(
    tree: Tree,
    root: Seq<Part>,
    root_text: Seq<u8>,
    changes: Seq<Change>,
)
    requires
        children_known(tree),
    ensures
        reconciled(reconciled(tree, root, root_text, changes), root, root_text, changes) == reconciled(
            tree,
            root,
            root_text,
            changes,
        ),
{
    let plain = cleared(tree);
    let once = reconciled(tree, root, root_text, changes);
    let again = cleared(once);
    let twice = reconciled(once, root, root_text, changes);
    let loose = Set::new(
        |p: Seq<Part>| plain.contains_key(p) && again[p].children != plain[p].children,
    );
    lemma_cleared_known(tree);
    lemma_changes_known(plain, root, root_text, changes);
    assert forall|p: Seq<Part>| #[trigger] plain.contains_key(p) == again.contains_key(p) by {
        if plain.contains_key(p) {
            lemma_changes_loaded(plain, root, root_text, changes, p);
        } else if once.contains_key(p) {
            lemma_added(plain, root, root_text, changes, p);
        }
    }
    assert(plain.dom() =~= again.dom());
    assert forall|p: Seq<Part>| #[trigger] plain.contains_key(p) implies again[p] == (NodeView {
        children: again[p].children,
        ..plain[p]
    }) by {
        lemma_changes_loaded(plain, root, root_text, changes, p);
        assert(again.contains_key(p));
    }
    assert forall|p: Seq<Part>| #[trigger] plain.contains_key(p) implies again[p].children
        == plain[p].children || (loose.contains(p) && again[p].children == children_sorted(
        plain,
        plain[p].children,
    )) by {
        lemma_listed_before(plain, root, root_text, changes, p);
        lemma_cleared_list(plain, once, root, root_text, changes, p);
    }
    assert(differ_in_order(plain, again, loose));
    lemma_changes_alike(plain, again, loose, root, root_text, changes);
    assert forall|p: Seq<Part>| #[trigger] once.contains_key(p) implies twice.contains_key(p)
        && twice[p] == once[p] by {
        assert(twice.dom().contains(p));
        if loose.contains(p) {
            lemma_listed_before(plain, root, root_text, changes, p);
            lemma_cleared_list(plain, once, root, root_text, changes, p);
            if once[p].children == plain[p].children {
                let there = |child: Seq<Part>| plain.contains_key(child);
                assert forall|i: int| 0 <= i < plain[p].children.len() implies there(
                    #[trigger] plain[p].children[i],
                ) by {
                    assert(plain.contains_key(plain[p].children[i]));
                }
                lemma_filter_all(plain[p].children, there);
                assert(false);
            }
            lemma_sorted_stays(once, once[p].children);
        }
    }
    assert(twice =~= once);
}

/// Clearing takes off a list what the changes put there.
proof fn lemma_cleared_list(
    plain: Tree,
    once: Tree,
    root: Seq<Part>,
    root_text: Seq<u8>,
    changes: Seq<Change>,
    path: Seq<Part>,
)
    requires
        once == changes_applied(plain, root, root_text, changes),
        children_known(once),
        plain.contains_key(path),
        once.contains_key(path),
        !once[path].synthetic_deleted,
        forall|p: Seq<Part>| #[trigger] plain.contains_key(p) == cleared(once).contains_key(p),
    ensures
        cleared(once)[path].children == once[path].children.filter(
            |child: Seq<Part>| plain.contains_key(child),
        ),
{
    let keep = |child: Seq<Part>| !is_synthetic(once, child);
    let there = |child: Seq<Part>| plain.contains_key(child);
    let kids = once[path].children;
    assert forall|i: int| 0 <= i < kids.len() implies keep(#[trigger] kids[i]) == there(
        kids[i],
    ) by {
        assert(once.contains_key(once[path].children[i]));
        assert(plain.contains_key(kids[i]) == cleared(once).contains_key(kids[i]));
    }
    lemma_filter_alike(kids, keep, there);
}

proof fn lemma_filter_alike(
    paths: Seq<Seq<Part>>,
    left: spec_fn(Seq<Part>) -> bool,
    right: spec_fn(Seq<Part>) -> bool,
)
    requires
        forall|i: int| 0 <= i < paths.len() ==> left(#[trigger] paths[i]) == right(paths[i]),
    ensures
        paths.filter(left) == paths.filter(right),
    decreases paths.len(),
{
    reveal(Seq::filter);
    if paths.len() > 0 {
        let front = paths.drop_last();
        assert forall|i: int| 0 <= i < front.len() implies left(#[trigger] front[i]) == right(
            front[i],
        ) by {
            assert(front[i] == paths[i]);
        }
        lemma_filter_alike(front, left, right);
        assert(left(paths[paths.len() - 1]) == right(paths[paths.len() - 1]));
    }
}

} // verus!
