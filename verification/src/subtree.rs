//! Taking a path and everything listed below it out of the tree.

use vstd::prelude::*;

use crate::collections::PathMap;
use crate::path::{is_under, parent_of, paths_view, Part, PathBuf};
use crate::tree::{tree_of, tree_ok, Node, Tree};

verus! {

/// Whether `path` is `top` or is reached from it by going from each node to one
/// of its listed children.
pub open spec fn listed(tree: Tree, top: Seq<Part>, path: Seq<Part>) -> bool {
    &&& is_under(path, top)
    &&& forall|k: int|
        top.len() <= k <= path.len() ==> {
            &&& #[trigger] tree.contains_key(path.take(k))
            &&& k < path.len() ==> tree[path.take(k)].children.contains(path.take(k + 1))
        }
}

/// The nodes that are listed from `top` on.
pub open spec fn subtree(tree: Tree, top: Seq<Part>) -> Set<Seq<Part>> {
    Set::new(|path: Seq<Part>| listed(tree, top, path))
}

/// Some part of the tree may be gone without changing what is listed from
/// `top`, as long as nothing at or below `top` is gone.
pub proof fn lemma_listed_elsewhere(
    tree: Tree,
    gone: Set<Seq<Part>>,
    top: Seq<Part>,
    path: Seq<Part>,
)
    requires
        forall|p: Seq<Part>| #[trigger] gone.contains(p) ==> !is_under(p, top),
    ensures
        listed(tree.remove_keys(gone), top, path) == listed(tree, top, path),
{
    let rest = tree.remove_keys(gone);
    if is_under(path, top) {
        assert forall|k: int| top.len() <= k <= path.len() implies rest.contains_key(
            #[trigger] path.take(k),
        ) == tree.contains_key(path.take(k)) && (rest.contains_key(path.take(k)) ==> rest[path.take(
            k,
        )] == tree[path.take(k)]) by {
            assert(path.take(k).take(top.len() as int) =~= path.take(top.len() as int));
            assert(is_under(path.take(k), top));
        }
        if listed(tree, top, path) {
            assert forall|k: int| top.len() <= k <= path.len() implies {
                &&& #[trigger] rest.contains_key(path.take(k))
                &&& k < path.len() ==> rest[path.take(k)].children.contains(path.take(k + 1))
            } by {
                assert(tree.contains_key(path.take(k)));
            }
        }
        if listed(rest, top, path) {
            assert forall|k: int| top.len() <= k <= path.len() implies {
                &&& #[trigger] tree.contains_key(path.take(k))
                &&& k < path.len() ==> tree[path.take(k)].children.contains(path.take(k + 1))
            } by {
                assert(rest.contains_key(path.take(k)));
            }
        }
    }
}

/// What is listed from a node is the node itself and what is listed from its
/// children.
proof fn lemma_listed_children(tree: Tree, top: Seq<Part>, path: Seq<Part>)
    requires
        tree_ok(tree),
        tree.contains_key(top),
    ensures
        listed(tree, top, path) <==> (path == top || exists|j: int|
            0 <= j < tree[top].children.len() && listed(
                tree,
                #[trigger] tree[top].children[j],
                path,
            )),
{
    let kids = tree[top].children;
    if listed(tree, top, path) {
        if path.len() == top.len() {
            assert(path.take(top.len() as int) =~= path);
        } else {
            let step = path.take(top.len() + 1int);
            assert(path.take(top.len() as int) == top);
            assert(tree.contains_key(path.take(top.len() as int)));
            assert(kids.contains(step));
            let j = kids.index_of(step);
            assert(kids[j] == step);
            assert(step.len() == top.len() + 1);
            assert(is_under(path, step));
            assert(listed(tree, step, path));
        }
    }
    if path == top {
        assert(path.take(path.len() as int) =~= path);
        assert(listed(tree, top, path));
    } else if exists|j: int| 0 <= j < kids.len() && listed(tree, #[trigger] kids[j], path) {
        let j = choose|j: int| 0 <= j < kids.len() && listed(tree, #[trigger] kids[j], path);
        let child = kids[j];
        assert(parent_of(tree[top].children[j]) == Some(top));
        assert(child.drop_last() == top);
        assert(path.take(child.len() as int) == child);
        assert(path.take(top.len() as int) =~= child.drop_last());
        assert(path.take(top.len() + 1int) =~= child);
        assert forall|k: int| top.len() <= k <= path.len() implies {
            &&& #[trigger] tree.contains_key(path.take(k))
            &&& k < path.len() ==> tree[path.take(k)].children.contains(path.take(k + 1))
        } by {
            if k == top.len() {
                assert(path.take(k) == top);
                assert(kids[j] == child);
                assert(kids.contains(child));
                assert(path.take(k + 1) == child);
            } else {
                assert(child.len() <= k);
                assert(tree.contains_key(path.take(k)));
            }
        }
    }
}

/// The node `top` and what is listed from its first `count` children.
spec fn first_children(tree: Tree, top: Seq<Part>, count: int) -> Set<Seq<Part>> {
    Set::new(
        |path: Seq<Part>|
            path == top || exists|j: int|
                0 <= j < count && listed(tree, #[trigger] tree[top].children[j], path),
    )
}

proof fn lemma_next_child(tree: Tree, top: Seq<Part>, count: int)
    requires
        tree_ok(tree),
        tree.contains_key(top),
        0 <= count < tree[top].children.len(),
    ensures
        first_children(tree, top, count).union(
            subtree(
                tree.remove_keys(first_children(tree, top, count)),
                tree[top].children[count],
            ),
        ) == first_children(tree, top, count + 1),
{
    let kids = tree[top].children;
    let child = kids[count];
    let gone = first_children(tree, top, count);
    let rest = tree.remove_keys(gone);
    assert(parent_of(tree[top].children[count]) == Some(top));
    if exists|j: int| 0 <= j < count && #[trigger] kids[j] == child {
        let j = choose|j: int| 0 <= j < count && #[trigger] kids[j] == child;
        assert forall|path: Seq<Part>| #[trigger] listed(rest, child, path) implies false by {
            assert(path.take(child.len() as int) == child);
            assert(rest.contains_key(path.take(child.len() as int)));
            assert(tree.contains_key(child));
            assert(child.take(child.len() as int) =~= child);
            assert(listed(tree, child, child)) by {
                assert forall|k: int| child.len() <= k <= child.len() implies {
                    &&& #[trigger] tree.contains_key(child.take(k))
                    &&& k < child.len() ==> tree[child.take(k)].children.contains(child.take(k + 1))
                } by {}
            }
            assert(listed(tree, kids[j], child));
            assert(gone.contains(child));
        }
        assert forall|path: Seq<Part>| listed(tree, child, path) implies gone.contains(path) by {
            assert(listed(tree, kids[j], path));
        }
    } else {
        assert forall|p: Seq<Part>| #[trigger] gone.contains(p) implies !is_under(p, child) by {
            if p == top {
                assert(p.len() < child.len());
            } else {
                let j = choose|j: int| 0 <= j < count && listed(tree, #[trigger] kids[j], p);
                assert(parent_of(tree[top].children[j]) == Some(top));
                assert(kids[j].drop_last() == top && child.drop_last() == top);
                assert(kids[j].drop_last().len() == kids[j].len() - 1);
                assert(child.drop_last().len() == child.len() - 1);
                assert(p.take(child.len() as int) == kids[j]);
            }
        }
        assert forall|path: Seq<Part>| #[trigger] listed(rest, child, path) == listed(
            tree,
            child,
            path,
        ) by {
            lemma_listed_elsewhere(tree, gone, child, path);
        }
    }
    let left = gone.union(subtree(rest, child));
    let right = first_children(tree, top, count + 1);
    assert forall|path: Seq<Part>| left.contains(path) == right.contains(path) by {
        if left.contains(path) && !gone.contains(path) {
            assert(listed(rest, child, path));
            assert(listed(tree, kids[count], path));
        }
        if right.contains(path) && path != top {
            let j = choose|j: int| 0 <= j < count + 1 && listed(tree, #[trigger] kids[j], path);
            if j < count {
                assert(gone.contains(path));
            }
        }
    }
    assert(left =~= right);
}

/// Taking nodes out keeps a tree in order.
pub proof fn lemma_remove_keeps_order(tree: Tree, gone: Set<Seq<Part>>)
    requires
        tree_ok(tree),
    ensures
        tree_ok(tree.remove_keys(gone)),
{
    let rest = tree.remove_keys(gone);
    assert(rest.dom() =~= tree.dom().difference(gone));
    assert forall|path: Seq<Part>, i: int|
        rest.contains_key(path) && 0 <= i < rest[path].children.len() implies parent_of(
        #[trigger] rest[path].children[i],
    ) == Some(path) by {
        assert(rest[path] == tree[path]);
        assert(parent_of(tree[path].children[i]) == Some(path));
    }
}

proof fn lemma_tree_remove_keys(nodes: Map<Seq<Part>, Node>, gone: Set<Seq<Part>>)
    ensures
        tree_of(nodes.remove_keys(gone)) == tree_of(nodes).remove_keys(gone),
{
    assert(tree_of(nodes.remove_keys(gone)) =~= tree_of(nodes).remove_keys(gone));
}

proof fn lemma_remove_twice<V>(
    map: Map<Seq<Part>, V>,
    first: Set<Seq<Part>>,
    second: Set<Seq<Part>>,
)
    ensures
        map.remove_keys(first).remove_keys(second) == map.remove_keys(first.union(second)),
{
    assert(map.remove_keys(first).remove_keys(second) =~= map.remove_keys(first.union(second)));
}

/// Takes `path` and everything that is listed from it out of the nodes, and
/// forgets the loads that are pending for what is taken out.
pub fn remove_subtree(nodes: &mut PathMap<Node>, pending: &mut PathMap<u64>, path: &PathBuf)
    requires
        old(nodes).wf(),
        old(pending).wf(),
        tree_ok(tree_of(old(nodes)@)),
    ensures
        final(nodes).wf(),
        final(pending).wf(),
        final(nodes)@ == old(nodes)@.remove_keys(subtree(tree_of(old(nodes)@), path@)),
        final(pending)@ == old(pending)@.remove_keys(subtree(tree_of(old(nodes)@), path@)),
        tree_ok(tree_of(final(nodes)@)),
    decreases tree_of(old(nodes)@).dom().len(),
{
    let ghost nodes0 = nodes@;
    let ghost pending0 = pending@;
    let ghost tree0 = tree_of(nodes@);
    let node = match nodes.remove(path) {
        Some(node) => node,
        None => {
            proof {
                assert forall|p: Seq<Part>| !subtree(tree0, path@).contains(p) by {
                    if listed(tree0, path@, p) {
                        assert(tree0.contains_key(p.take(path@.len() as int)));
                    }
                }
                assert(nodes0.remove_keys(subtree(tree0, path@)) =~= nodes0);
                assert(nodes@ =~= nodes0);
                assert(pending0.remove_keys(subtree(tree0, path@)) =~= pending0);
            }
            return;
        },
    };
    pending.remove(path);
    let children = node.children;
    let ghost kids = paths_view(children@);
    let mut i: usize = 0;
    proof {
        assert(tree0.contains_key(path@));
        assert(tree0[path@] == node@);
        assert(kids == tree0[path@].children);
        let gone = first_children(tree0, path@, 0);
        assert(gone =~= set![path@]);
        assert(nodes@ =~= nodes0.remove_keys(gone));
        assert(pending@ =~= pending0.remove_keys(gone));
        lemma_tree_remove_keys(nodes0, gone);
        lemma_remove_keeps_order(tree0, gone);
    }
    while i < children.len()
        invariant
            i <= children@.len(),
            nodes.wf(),
            pending.wf(),
            tree0 == tree_of(nodes0),
            tree_ok(tree0),
            tree0.dom().len() == tree_of(old(nodes)@).dom().len(),
            tree0.contains_key(path@),
            kids == paths_view(children@),
            kids == tree0[path@].children,
            nodes@ == nodes0.remove_keys(first_children(tree0, path@, i as int)),
            pending@ == pending0.remove_keys(first_children(tree0, path@, i as int)),
            tree_ok(tree_of(nodes@)),
        decreases children@.len() - i,
    {
        let ghost gone = first_children(tree0, path@, i as int);
        let ghost rest = tree_of(nodes@);
        proof {
            lemma_tree_remove_keys(nodes0, gone);
            assert(gone.contains(path@));
            assert(rest.dom() =~= tree0.dom().difference(gone));
            assert(rest.dom().subset_of(tree0.dom().remove(path@)));
            vstd::set_lib::lemma_len_subset(rest.dom(), tree0.dom().remove(path@));
            lemma_next_child(tree0, path@, i as int);
            assert(children@[i as int]@ == kids[i as int]);
        }
        remove_subtree(nodes, pending, &children[i]);
        proof {
            let more = subtree(rest, kids[i as int]);
            lemma_remove_twice(nodes0, gone, more);
            lemma_remove_twice(pending0, gone, more);
        }
        i += 1;
    }
    proof {
        assert forall|p: Seq<Part>| #[trigger] first_children(tree0, path@, i as int).contains(p)
            == subtree(tree0, path@).contains(p) by {
            lemma_listed_children(tree0, path@, p);
        }
        assert(first_children(tree0, path@, i as int) =~= subtree(tree0, path@));
    }
}

} // verus!
