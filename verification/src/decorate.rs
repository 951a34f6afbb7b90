//! Git decorations of the tree: statuses, dirty ancestors, and entries for
//! files that Git reports deleted.

use vstd::prelude::*;

use crate::bytes::{bytes_before, bytes_less};
use crate::collections::PathMap;
use crate::git::{
    changes_view, law_safe_join_stays_under_root, merge_status, merged, no_decoration, safe_join,
    safe_joined, Change, GitChange, GitDecoration, GitStatus,
};
use crate::path::{
    copy_paths, file_name_of, holds_path, is_under, joined_bytes, parent_of, paths_view,
    spelled_paths, Part, PathBuf,
};
use crate::tree::{tree_of, tree_ok, EntryKind, Node, NodeView, Tree};

verus! {

/// Changing one node changes that node of the tree.
pub proof fn lemma_tree_insert(nodes: Map<Seq<Part>, Node>, path: Seq<Part>, node: Node)
    ensures
        tree_of(nodes.insert(path, node)) == tree_of(nodes).insert(path, node@),
{
    assert(tree_of(nodes.insert(path, node)) =~= tree_of(nodes).insert(path, node@));
}

/// Taking one node out takes it out of the tree.
pub proof fn lemma_tree_remove(nodes: Map<Seq<Part>, Node>, path: Seq<Part>)
    ensures
        tree_of(nodes.remove(path)) == tree_of(nodes).remove(path),
{
    assert(tree_of(nodes.remove(path)) =~= tree_of(nodes).remove(path));
}

/// A tree in order stays so when one node gets children that lie directly
/// below it.
pub proof fn lemma_insert_ok(tree: Tree, path: Seq<Part>, node: NodeView)
    requires
        tree_ok(tree),
        forall|i: int|
            0 <= i < node.children.len() ==> parent_of(#[trigger] node.children[i]) == Some(path),
    ensures
        tree_ok(tree.insert(path, node)),
{
    let changed = tree.insert(path, node);
    assert forall|p: Seq<Part>, i: int|
        changed.contains_key(p) && 0 <= i < changed[p].children.len() implies parent_of(
        #[trigger] changed[p].children[i],
    ) == Some(p) by {
        if p != path {
            assert(parent_of(tree[p].children[i]) == Some(p));
        }
    }
}

/// Whether a path has a node that only a Git report put there.
pub open spec fn is_synthetic(tree: Tree, path: Seq<Part>) -> bool {
    tree.contains_key(path) && tree[path].synthetic_deleted
}

/// A node without Git state.
pub open spec fn undecorated(tree: Tree, node: NodeView) -> NodeView {
    NodeView {
        children: node.children.filter(|child: Seq<Part>| !is_synthetic(tree, child)),
        git: no_decoration(),
        ..node
    }
}

/// The tree as if Git had reported nothing.
pub open spec fn cleared(tree: Tree) -> Tree {
    Map::new(
        |path: Seq<Part>| tree.contains_key(path) && !tree[path].synthetic_deleted,
        |path: Seq<Part>| undecorated(tree, tree[path]),
    )
}

/// Clearing keeps a tree in order.
pub proof fn lemma_cleared_ok(tree: Tree)
    requires
        tree_ok(tree),
    ensures
        tree_ok(cleared(tree)),
{
    let clear = cleared(tree);
    assert(clear.dom().subset_of(tree.dom()));
    vstd::set_lib::lemma_len_subset(clear.dom(), tree.dom());
    let keep = |child: Seq<Part>| !is_synthetic(tree, child);
    assert forall|path: Seq<Part>, i: int|
        clear.contains_key(path) && 0 <= i < clear[path].children.len() implies parent_of(
        #[trigger] clear[path].children[i],
    ) == Some(path) by {
        let kids = tree[path].children;
        let child = clear[path].children[i];
        assert(kids.filter(keep).contains(child));
        kids.lemma_filter_contains_rev(keep, child);
        let j = kids.index_of(child);
        assert(parent_of(tree[path].children[j]) == Some(path));
    }
}

/// The paths in `paths` that are not in `gone`.
fn paths_without(paths: &Vec<PathBuf>, gone: &Vec<PathBuf>) -> (kept: Vec<PathBuf>)
    ensures
        paths_view(kept@) == paths_view(paths@).filter(
            |path: Seq<Part>| !paths_view(gone@).contains(path),
        ),
{
    let ghost all = paths_view(paths@);
    let ghost keep = |path: Seq<Part>| !paths_view(gone@).contains(path);
    let mut kept: Vec<PathBuf> = Vec::new();
    let mut i: usize = 0;
    proof {
        reveal(Seq::filter);
        assert(all.take(0) =~= Seq::<Seq<Part>>::empty());
        assert(paths_view(kept@) =~= all.take(0).filter(keep));
    }
    while i < paths.len()
        invariant
            i <= paths@.len(),
            all == paths_view(paths@),
            keep == (|path: Seq<Part>| !paths_view(gone@).contains(path)),
            paths_view(kept@) == all.take(i as int).filter(keep),
        decreases paths@.len() - i,
    {
        let ghost before = kept@;
        proof {
            reveal(Seq::filter);
            assert(all.take(i + 1).drop_last() =~= all.take(i as int));
            assert(all.take(i + 1).last() == paths@[i as int]@);
        }
        if !holds_path(gone, &paths[i]) {
            kept.push(paths[i].duplicate());
            assert(paths_view(kept@) =~= paths_view(before).push(paths@[i as int]@));
        }
        i += 1;
    }
    assert(all.take(i as int) =~= all);
    kept
}

/// The paths of the nodes that only a Git report put there.
fn synthetic_paths(nodes: &PathMap<Node>, keys: &Vec<PathBuf>) -> (synthetic: Vec<PathBuf>)
    requires
        nodes.wf(),
        forall|path: Seq<Part>| #[trigger]
            paths_view(keys@).contains(path) <==> nodes@.contains_key(path),
    ensures
        forall|path: Seq<Part>| #[trigger]
            paths_view(synthetic@).contains(path) <==> is_synthetic(tree_of(nodes@), path),
{
    let ghost tree = tree_of(nodes@);
    let mut synthetic: Vec<PathBuf> = Vec::new();
    let mut i: usize = 0;
    while i < keys.len()
        invariant
            i <= keys@.len(),
            nodes.wf(),
            tree == tree_of(nodes@),
            forall|path: Seq<Part>| #[trigger]
                paths_view(synthetic@).contains(path) <==> is_synthetic(tree, path) && paths_view(
                    keys@,
                ).take(i as int).contains(path),
        decreases keys@.len() - i,
    {
        let ghost all = paths_view(keys@);
        let ghost before = paths_view(synthetic@);
        let ghost key = all[i as int];
        proof {
            assert(keys@[i as int]@ == key);
            assert(all.take(i + 1) =~= all.take(i as int).push(key));
        }
        let found = match nodes.get(&keys[i]) {
            Some(node) => node.synthetic_deleted,
            None => false,
        };
        if found {
            synthetic.push(keys[i].duplicate());
            assert(paths_view(synthetic@) =~= before.push(key));
            assert(before.push(key)[before.len() as int] == key);
        }
        proof {
            assert forall|path: Seq<Part>| #[trigger]
                paths_view(synthetic@).contains(path) <==> is_synthetic(tree, path) && all.take(
                    i + 1,
                ).contains(path) by {
                vstd::seq_lib::lemma_seq_contains_after_push(all.take(i as int), key, path);
                vstd::seq_lib::lemma_seq_contains_after_push(before, key, path);
            }
        }
        i += 1;
    }
    proof {
        assert(paths_view(keys@).take(i as int) =~= paths_view(keys@));
    }
    synthetic
}

/// Takes all Git state out of the tree.
pub fn clear_git(nodes: &mut PathMap<Node>)
    requires
        old(nodes).wf(),
        tree_ok(tree_of(old(nodes)@)),
    ensures
        final(nodes).wf(),
        tree_of(final(nodes)@) == cleared(tree_of(old(nodes)@)),
        tree_ok(tree_of(final(nodes)@)),
{
    let ghost tree0 = tree_of(nodes@);
    let keys = nodes.keys();
    let ghost all = paths_view(keys@);
    let synthetic = synthetic_paths(nodes, &keys);
    let ghost gone = paths_view(synthetic@);
    let mut i: usize = 0;
    while i < keys.len()
        invariant
            i <= keys@.len(),
            nodes.wf(),
            all == paths_view(keys@),
            all.no_duplicates(),
            gone == paths_view(synthetic@),
            forall|path: Seq<Part>| #[trigger] gone.contains(path) <==> is_synthetic(tree0, path),
            forall|path: Seq<Part>| #[trigger] all.contains(path) <==> tree0.contains_key(path),
            forall|path: Seq<Part>| #[trigger]
                tree_of(nodes@).contains_key(path) <==> tree0.contains_key(path) && !(all.take(
                    i as int,
                ).contains(path) && is_synthetic(tree0, path)),
            forall|path: Seq<Part>| #[trigger]
                tree_of(nodes@).contains_key(path) ==> tree_of(nodes@)[path] == if all.take(
                    i as int,
                ).contains(path) {
                    undecorated(tree0, tree0[path])
                } else {
                    tree0[path]
                },
        decreases keys@.len() - i,
    {
        let ghost key = all[i as int];
        let ghost tree = tree_of(nodes@);
        let ghost map = nodes@;
        proof {
            assert(keys@[i as int]@ == key);
            assert(all.take(i + 1) =~= all.take(i as int).push(key));
            assert forall|path: Seq<Part>| #[trigger]
                all.take(i + 1).contains(path) <==> path == key || all.take(i as int).contains(
                    path,
                ) by {
                vstd::seq_lib::lemma_seq_contains_after_push(all.take(i as int), key, path);
            }
            assert(!all.take(i as int).contains(key)) by {
                if all.take(i as int).contains(key) {
                    let j = all.take(i as int).index_of(key);
                    assert(all[j] == all[i as int]);
                }
            }
            assert(all.contains(key));
            assert(tree.contains_key(key));
        }
        if holds_path(&synthetic, &keys[i]) {
            nodes.remove(&keys[i]);
            proof {
                lemma_tree_remove(map, key);
            }
        } else if let Some(node) = nodes.get_mut(&keys[i]) {
            let ghost old_node = node@;
            node.children = paths_without(&node.children, &synthetic);
            node.git = GitDecoration { status: None, dirty_descendant: false };
            proof {
                let by_list = |path: Seq<Part>| !gone.contains(path);
                let by_tree = |child: Seq<Part>| !is_synthetic(tree0, child);
                assert(by_list =~= by_tree);
                assert(node@ == undecorated(tree0, old_node));
                lemma_tree_insert(map, key, *node);
            }
        }
        i += 1;
    }
    proof {
        assert(all.take(i as int) =~= all);
        let clear = cleared(tree0);
        let tree = tree_of(nodes@);
        assert forall|path: Seq<Part>| #![auto] tree.contains_key(path) == clear.contains_key(
            path,
        ) && (tree.contains_key(path) ==> tree[path] == clear[path]) by {
            assert(all.contains(path) <==> tree0.contains_key(path));
        }
        assert(tree =~= clear);
        lemma_cleared_ok(tree0);
    }
}


/// Directories come first among the children of a node.
pub open spec fn group_of(tree: Tree, path: Seq<Part>) -> nat {
    if tree.contains_key(path) && tree[path].kind.is_directory() {
        0
    } else {
        1
    }
}

/// The name by which a child is ordered.
pub open spec fn name_of(tree: Tree, path: Seq<Part>) -> Option<Seq<u8>> {
    if tree.contains_key(path) {
        Some(tree[path].name)
    } else {
        None
    }
}

/// The order of names, in which a missing name comes first.
pub open spec fn name_before(left: Option<Seq<u8>>, right: Option<Seq<u8>>) -> bool {
    match (left, right) {
        (None, Some(_)) => true,
        (Some(left), Some(right)) => bytes_before(left, right),
        _ => false,
    }
}

/// The order of children: directories first, then by name.
pub open spec fn child_before(tree: Tree, left: Seq<Part>, right: Seq<Part>) -> bool {
    ||| group_of(tree, left) < group_of(tree, right)
    ||| group_of(tree, left) == group_of(tree, right) && name_before(
        name_of(tree, left),
        name_of(tree, right),
    )
}

/// `child` put into an ordered list, behind its equals.
pub open spec fn child_inserted(tree: Tree, children: Seq<Seq<Part>>, child: Seq<Part>) -> Seq<
    Seq<Part>,
>
    decreases children.len(),
{
    if children.len() == 0 || !child_before(tree, child, children.last()) {
        children.push(child)
    } else {
        child_inserted(tree, children.drop_last(), child).push(children.last())
    }
}

/// The children in order, equals as they were.
pub open spec fn children_sorted(tree: Tree, children: Seq<Seq<Part>>) -> Seq<Seq<Part>>
    decreases children.len(),
{
    if children.len() == 0 {
        children
    } else {
        child_inserted(tree, children_sorted(tree, children.drop_last()), children.last())
    }
}

/// Whether no child comes before an earlier one.
pub open spec fn in_order(tree: Tree, children: Seq<Seq<Part>>) -> bool {
    forall|i: int, j: int|
        0 <= i < j < children.len() ==> !child_before(
            tree,
            #[trigger] children[j],
            #[trigger] children[i],
        )
}

pub proof fn lemma_child_before(tree: Tree, a: Seq<Part>, b: Seq<Part>, c: Seq<Part>)
    ensures
        child_before(tree, a, b) ==> !child_before(tree, b, a),
        child_before(tree, a, b) && !child_before(tree, c, b) ==> child_before(tree, a, c),
        !child_before(tree, b, a) && !child_before(tree, c, b) ==> !child_before(tree, c, a),
{
    if let (Some(x), Some(y)) = (name_of(tree, a), name_of(tree, b)) {
        crate::bytes::lemma_bytes_before_total(x, y);
        if let Some(z) = name_of(tree, c) {
            crate::bytes::lemma_bytes_before_total(y, z);
            crate::bytes::lemma_bytes_before_total(x, z);
            if bytes_before(x, y) && bytes_before(y, z) {
                crate::bytes::lemma_bytes_before_transitive(x, y, z);
            }
            if bytes_before(z, x) && bytes_before(x, y) {
                crate::bytes::lemma_bytes_before_transitive(z, x, y);
            }
        }
    }
}

proof fn lemma_child_inserted(tree: Tree, children: Seq<Seq<Part>>, child: Seq<Part>)
    ensures
        child_inserted(tree, children, child).len() == children.len() + 1,
        child_inserted(tree, children, child).to_multiset() == children.push(child).to_multiset(),
        in_order(tree, children) ==> in_order(tree, child_inserted(tree, children, child)),
        forall|p: Seq<Part>|
            #[trigger] child_inserted(tree, children, child).contains(p) <==> (p == child || children.contains(p)),
    decreases children.len(),
{
    broadcast use vstd::seq_lib::group_to_multiset_ensures;

    let result = child_inserted(tree, children, child);
    if children.len() == 0 || !child_before(tree, child, children.last()) {
        assert forall|p: Seq<Part>| #[trigger] result.contains(p) <==> (p == child || children.contains(p)) by {
            vstd::seq_lib::lemma_seq_contains_after_push(children, child, p);
        }
        if in_order(tree, children) {
            assert forall|i: int, j: int| 0 <= i < j < result.len() implies !child_before(
                tree,
                #[trigger] result[j],
                #[trigger] result[i],
            ) by {
                if j == children.len() {
                    if i < children.len() - 1 {
                        assert(!child_before(tree, children[children.len() - 1], children[i]));
                    }
                    lemma_child_before(tree, result[i], children.last(), child);
                    lemma_child_before(tree, child, result[i], children.last());
                }
            }
        }
    } else {
        let front = children.drop_last();
        let inner = child_inserted(tree, front, child);
        lemma_child_inserted(tree, front, child);
        assert(children =~= front.push(children.last()));
        assert forall|p: Seq<Part>| #[trigger] result.contains(p) <==> (p == child || children.contains(p)) by {
            vstd::seq_lib::lemma_seq_contains_after_push(inner, children.last(), p);
            vstd::seq_lib::lemma_seq_contains_after_push(front, children.last(), p);
            assert(inner.contains(p) <==> (p == child || front.contains(p)));
        }
        if in_order(tree, children) {
            assert(in_order(tree, front)) by {
                assert forall|i: int, j: int| 0 <= i < j < front.len() implies !child_before(
                    tree,
                    #[trigger] front[j],
                    #[trigger] front[i],
                ) by {
                    assert(front[i] == children[i] && front[j] == children[j]);
                }
            }
            assert forall|i: int, j: int| 0 <= i < j < result.len() implies !child_before(
                tree,
                #[trigger] result[j],
                #[trigger] result[i],
            ) by {
                if j == inner.len() {
                    let p = inner[i];
                    assert(inner.contains(p));
                    assert(p == child || front.contains(p));
                    if p == child {
                        lemma_child_before(tree, child, children.last(), child);
                    } else {
                        let k = front.index_of(p);
                        assert(children[k] == p);
                        assert(!child_before(tree, children[children.len() - 1], children[k]));
                    }
                } else {
                    assert(result[i] == inner[i] && result[j] == inner[j]);
                }
            }
        }
    }
}

/// Sorting keeps the children and puts them in order.
pub proof fn lemma_children_sorted(tree: Tree, children: Seq<Seq<Part>>)
    ensures
        children_sorted(tree, children).to_multiset() == children.to_multiset(),
        children_sorted(tree, children).len() == children.len(),
        in_order(tree, children_sorted(tree, children)),
        forall|p: Seq<Part>|
            #[trigger] children_sorted(tree, children).contains(p) <==> children.contains(p),
    decreases children.len(),
{
    broadcast use vstd::seq_lib::group_to_multiset_ensures;

    if children.len() > 0 {
        let front = children.drop_last();
        let sorted = children_sorted(tree, front);
        lemma_children_sorted(tree, front);
        lemma_child_inserted(tree, sorted, children.last());
        assert(children =~= front.push(children.last()));
        assert forall|p: Seq<Part>|
            #[trigger] children_sorted(tree, children).contains(p) <==> children.contains(p) by {
            vstd::seq_lib::lemma_seq_contains_after_push(front, children.last(), p);
            assert(sorted.contains(p) <==> front.contains(p));
        }
    }
}

fn is_directory_at(nodes: &PathMap<Node>, path: &PathBuf) -> (directory: bool)
    requires
        nodes.wf(),
    ensures
        directory == (group_of(tree_of(nodes@), path@) == 0),
{
    match nodes.get(path) {
        Some(node) => node.kind.is_directory(),
        None => false,
    }
}

/// Whether one child comes before another.
fn comes_before(nodes: &PathMap<Node>, left: &PathBuf, right: &PathBuf) -> (before: bool)
    requires
        nodes.wf(),
    ensures
        before == child_before(tree_of(nodes@), left@, right@),
{
    let left_directory = is_directory_at(nodes, left);
    let right_directory = is_directory_at(nodes, right);
    if left_directory != right_directory {
        return left_directory;
    }
    match (nodes.get(left), nodes.get(right)) {
        (None, Some(_)) => true,
        (Some(left), Some(right)) => bytes_less(&left.name, &right.name),
        _ => false,
    }
}

/// Puts a child into an ordered list, behind its equals.
fn insert_child(nodes: &PathMap<Node>, children: &mut Vec<PathBuf>, child: PathBuf)
    requires
        nodes.wf(),
    ensures
        paths_view(final(children)@) == child_inserted(
            tree_of(nodes@),
            paths_view(old(children)@),
            child@,
        ),
        spelled_paths(final(children)@).to_multiset() == spelled_paths(
            old(children)@,
        ).to_multiset().insert(child.spelled()),
{
    let ghost tree = tree_of(nodes@);
    let ghost all = paths_view(children@);
    let mut at: usize = children.len();
    assert(all.take(at as int) =~= all);
    assert(all.skip(at as int) =~= Seq::<Seq<Part>>::empty());
    let ghost result = child_inserted(tree, all, child@);
    assert(child_inserted(tree, all.take(at as int), child@) + all.skip(at as int) =~= result);
    while at > 0 && comes_before(nodes, &child, &children[at - 1])
        invariant
            at <= children@.len(),
            nodes.wf(),
            tree == tree_of(nodes@),
            all == paths_view(children@),
            result == child_inserted(tree, all, child@),
            child_inserted(tree, all.take(at as int), child@) + all.skip(at as int) == result,
        decreases at,
    {
        proof {
            let front = all.take(at as int);
            assert(front.last() == children@[at - 1]@);
            assert(front.drop_last() =~= all.take(at - 1));
            let inner = child_inserted(tree, all.take(at - 1), child@);
            assert(inner.push(front.last()) + all.skip(at as int) =~= inner + all.skip(at - 1));
        }
        at -= 1;
    }
    proof {
        let front = all.take(at as int);
        if at > 0 {
            assert(front.last() == children@[at - 1]@);
        }
        assert(child_inserted(tree, front, child@) == front.push(child@));
        assert(all.insert(at as int, child@) =~= front.push(child@) + all.skip(at as int));
    }
    let ghost before = spelled_paths(children@);
    children.insert(at, child);
    assert(paths_view(children@) =~= all.insert(at as int, child@));
    proof {
        assert(spelled_paths(children@) =~= before.insert(at as int, child.spelled()));
        vstd::seq_lib::to_multiset_insert(before, at as int, child.spelled());
    }
}

/// Sorts the children of a node.
pub fn sort_child_paths(nodes: &PathMap<Node>, children: &Vec<PathBuf>) -> (sorted: Vec<PathBuf>)
    requires
        nodes.wf(),
    ensures
        paths_view(sorted@) == children_sorted(tree_of(nodes@), paths_view(children@)),
        spelled_paths(sorted@).to_multiset() == spelled_paths(children@).to_multiset(),
{
    let ghost tree = tree_of(nodes@);
    let ghost all = paths_view(children@);
    let ghost spelled = spelled_paths(children@);
    let mut sorted: Vec<PathBuf> = Vec::new();
    let mut i: usize = 0;
    assert(all.take(0) =~= Seq::<Seq<Part>>::empty());
    assert(paths_view(sorted@) =~= all.take(0));
    assert(spelled_paths(sorted@) =~= spelled.take(0));
    while i < children.len()
        invariant
            i <= children@.len(),
            nodes.wf(),
            tree == tree_of(nodes@),
            all == paths_view(children@),
            spelled == spelled_paths(children@),
            paths_view(sorted@) == children_sorted(tree, all.take(i as int)),
            spelled_paths(sorted@).to_multiset() == spelled.take(i as int).to_multiset(),
        decreases children@.len() - i,
    {
        insert_child(nodes, &mut sorted, children[i].duplicate());
        proof {
            assert(all.take(i + 1).drop_last() =~= all.take(i as int));
            assert(all.take(i + 1).last() == children@[i as int]@);
            let done = spelled.take(i as int);
            assert(spelled.take(i + 1) =~= done.insert(i as int, spelled[i as int]));
            vstd::seq_lib::to_multiset_insert(done, i as int, spelled[i as int]);
        }
        i += 1;
    }
    assert(all.take(i as int) =~= all);
    assert(spelled.take(i as int) =~= spelled);
    sorted
}

/// The node of a file that Git reports deleted. `text` are the bytes that its
/// path is written with.
pub open spec fn deleted_node(path: Seq<Part>, text: Seq<u8>) -> NodeView {
    NodeView {
        text,
        name: match file_name_of(path) {
            Some(name) => name,
            None => Seq::empty(),
        },
        kind: EntryKind::Deleted,
        expanded: false,
        loading: false,
        loaded: true,
        error: None,
        children: Seq::empty(),
        canonical_dir: None,
        synthetic_deleted: true,
        git: GitDecoration { status: Some(GitStatus::Deleted), dirty_descendant: false },
    }
}

/// Whether a report about `path` puts a node there: the path was deleted, has
/// no node, and lies in a directory whose children are known.
pub open spec fn is_materialized(tree: Tree, path: Seq<Part>, status: GitStatus) -> bool {
    &&& status == GitStatus::Deleted
    &&& !tree.contains_key(path)
    &&& parent_of(path) is Some
    &&& tree.contains_key(parent_of(path)->0)
    &&& tree[parent_of(path)->0].loaded
}

/// The tree with a node for a deleted path, listed in order by its parent.
pub open spec fn materialized(
    tree: Tree,
    path: Seq<Part>,
    text: Seq<u8>,
    status: GitStatus,
) -> Tree {
    if is_materialized(tree, path, status) {
        let parent = parent_of(path)->0;
        let grown = tree.insert(path, deleted_node(path, text));
        grown.insert(
            parent,
            NodeView {
                children: children_sorted(grown, tree[parent].children.push(path)),
                ..tree[parent]
            },
        )
    } else {
        tree
    }
}

/// The tree with one more status for the node of `path`.
pub open spec fn decorated(tree: Tree, path: Seq<Part>, status: GitStatus) -> Tree {
    if tree.contains_key(path) {
        let node = tree[path];
        tree.insert(
            path,
            NodeView {
                git: GitDecoration { status: Some(merged(node.git.status, status)), ..node.git },
                ..node
            },
        )
    } else {
        tree
    }
}

pub open spec fn dirty(node: NodeView) -> NodeView {
    NodeView { git: GitDecoration { dirty_descendant: true, ..node.git }, ..node }
}

/// Whether `above` is an ancestor of `path` inside the workspace.
pub open spec fn is_ancestor(root: Seq<Part>, above: Seq<Part>, path: Seq<Part>) -> bool {
    is_under(above, root) && is_under(path, above) && above.len() < path.len()
}

/// The tree with the ancestors of `path` marked.
pub open spec fn dirtied(tree: Tree, root: Seq<Part>, path: Seq<Part>) -> Tree {
    tree.map_entries(
        |above: Seq<Part>, node: NodeView|
            if is_ancestor(root, above, path) {
                dirty(node)
            } else {
                node
            },
    )
}

/// The tree after one change is reported.
pub open spec fn change_applied(
    tree: Tree,
    root: Seq<Part>,
    root_text: Seq<u8>,
    change: Change,
) -> Tree {
    match safe_joined(root, change.path) {
        Some(path) => dirtied(
            decorated(
                materialized(tree, path, joined_bytes(root_text, change.text), change.status),
                path,
                change.status,
            ),
            root,
            path,
        ),
        None => tree,
    }
}

/// The tree after the changes are reported one by one.
pub open spec fn changes_applied(
    tree: Tree,
    root: Seq<Part>,
    root_text: Seq<u8>,
    changes: Seq<Change>,
) -> Tree
    decreases changes.len(),
{
    if changes.len() == 0 {
        tree
    } else {
        change_applied(
            changes_applied(tree, root, root_text, changes.drop_last()),
            root,
            root_text,
            changes.last(),
        )
    }
}

/// The tree decorated with exactly these changes.
pub open spec fn reconciled(
    tree: Tree,
    root: Seq<Part>,
    root_text: Seq<u8>,
    changes: Seq<Change>,
) -> Tree {
    changes_applied(cleared(tree), root, root_text, changes)
}

proof fn lemma_materialized_ok(tree: Tree, path: Seq<Part>, text: Seq<u8>, status: GitStatus)
    requires
        tree_ok(tree),
    ensures
        tree_ok(materialized(tree, path, text, status)),
{
    if is_materialized(tree, path, status) {
        let parent = parent_of(path)->0;
        let grown = tree.insert(path, deleted_node(path, text));
        lemma_insert_ok(tree, path, deleted_node(path, text));
        let kids = tree[parent].children.push(path);
        let sorted = children_sorted(grown, kids);
        lemma_children_sorted(grown, kids);
        assert forall|i: int| 0 <= i < sorted.len() implies parent_of(#[trigger] sorted[i]) == Some(
            parent,
        ) by {
            assert(sorted.contains(sorted[i]));
            assert(kids.contains(sorted[i]));
            let j = kids.index_of(sorted[i]);
            if j < tree[parent].children.len() {
                assert(kids[j] == tree[parent].children[j]);
                assert(parent_of(tree[parent].children[j]) == Some(parent));
            }
        }
        lemma_insert_ok(grown, parent, NodeView { children: sorted, ..tree[parent] });
    }
}

proof fn lemma_decorated_ok(tree: Tree, path: Seq<Part>, status: GitStatus)
    requires
        tree_ok(tree),
    ensures
        tree_ok(decorated(tree, path, status)),
{
    if tree.contains_key(path) {
        let node = tree[path];
        assert forall|i: int| 0 <= i < node.children.len() implies parent_of(
            #[trigger] node.children[i],
        ) == Some(path) by {
            assert(parent_of(tree[path].children[i]) == Some(path));
        }
        lemma_insert_ok(
            tree,
            path,
            NodeView {
                git: GitDecoration { status: Some(merged(node.git.status, status)), ..node.git },
                ..node
            },
        );
    }
}

proof fn lemma_dirtied_ok(tree: Tree, root: Seq<Part>, path: Seq<Part>)
    requires
        tree_ok(tree),
    ensures
        tree_ok(dirtied(tree, root, path)),
{
    let marked = dirtied(tree, root, path);
    assert(marked.dom() =~= tree.dom());
    assert forall|p: Seq<Part>, i: int|
        marked.contains_key(p) && 0 <= i < marked[p].children.len() implies parent_of(
        #[trigger] marked[p].children[i],
    ) == Some(p) by {
        assert(parent_of(tree[p].children[i]) == Some(p));
    }
}

/// Reporting a change keeps a tree in order.
pub proof fn lemma_change_applied_ok(
    tree: Tree,
    root: Seq<Part>,
    root_text: Seq<u8>,
    change: Change,
)
    requires
        tree_ok(tree),
    ensures
        tree_ok(change_applied(tree, root, root_text, change)),
{
    if let Some(path) = safe_joined(root, change.path) {
        let grown = materialized(tree, path, joined_bytes(root_text, change.text), change.status);
        lemma_materialized_ok(tree, path, joined_bytes(root_text, change.text), change.status);
        lemma_decorated_ok(grown, path, change.status);
        lemma_dirtied_ok(decorated(grown, path, change.status), root, path);
    }
}

/// Reporting changes keeps a tree in order.
pub proof fn lemma_changes_applied_ok(
    tree: Tree,
    root: Seq<Part>,
    root_text: Seq<u8>,
    changes: Seq<Change>,
)
    requires
        tree_ok(tree),
    ensures
        tree_ok(changes_applied(tree, root, root_text, changes)),
    decreases changes.len(),
{
    if changes.len() > 0 {
        lemma_changes_applied_ok(tree, root, root_text, changes.drop_last());
        lemma_change_applied_ok(
            changes_applied(tree, root, root_text, changes.drop_last()),
            root,
            root_text,
            changes.last(),
        );
    }
}

/// Puts a node where a deleted file was, when the directory is known.
fn materialize(nodes: &mut PathMap<Node>, path: &PathBuf, status: GitStatus)
    requires
        old(nodes).wf(),
    ensures
        final(nodes).wf(),
        tree_of(final(nodes)@) == materialized(
            tree_of(old(nodes)@),
            path@,
            path.written(),
            status,
        ),
{
    let ghost tree = tree_of(nodes@);
    if status != GitStatus::Deleted || nodes.contains_key(path) {
        return;
    }
    let parent_path = match path.parent() {
        Some(parent_path) => parent_path,
        None => return,
    };
    let known = match nodes.get(&parent_path) {
        Some(parent) => parent.loaded,
        None => false,
    };
    if !known {
        return;
    }
    let name = match path.file_name() {
        Some(name) => name,
        None => Vec::new(),
    };
    let node = Node {
        text: path.to_bytes(),
        name,
        kind: EntryKind::Deleted,
        expanded: false,
        loading: false,
        loaded: true,
        error: None,
        children: Vec::new(),
        canonical_dir: None,
        synthetic_deleted: true,
        git: GitDecoration { status: Some(GitStatus::Deleted), dirty_descendant: false },
    };
    proof {
        assert(name@ =~= deleted_node(path@, path.written()).name);
        assert(paths_view(node.children@) =~= Seq::<Seq<Part>>::empty());
        assert(node@ == deleted_node(path@, path.written()));
        lemma_tree_insert(nodes@, path@, node);
    }
    nodes.insert(path.duplicate(), node);
    let ghost grown = tree_of(nodes@);
    let mut children: Vec<PathBuf> = match nodes.get(&parent_path) {
        Some(parent) => copy_paths(&parent.children),
        None => Vec::new(),
    };
    let ghost kids = paths_view(children@);
    proof {
        assert(parent_path@.len() < path@.len());
        assert(kids == tree[parent_path@].children);
    }
    children.push(path.duplicate());
    assert(paths_view(children@) =~= kids.push(path@));
    let sorted = sort_child_paths(nodes, &children);
    let ghost map = nodes@;
    if let Some(parent) = nodes.get_mut(&parent_path) {
        parent.children = sorted;
        proof {
            lemma_tree_insert(map, parent_path@, *parent);
        }
    }
}

/// Marks the ancestors of `path` inside the workspace.
fn mark_ancestors(nodes: &mut PathMap<Node>, root: &PathBuf, path: &PathBuf)
    requires
        old(nodes).wf(),
        is_under(path@, root@),
    ensures
        final(nodes).wf(),
        tree_of(final(nodes)@) == dirtied(tree_of(old(nodes)@), root@, path@),
{
    let ghost tree0 = tree_of(nodes@);
    let mut k: usize = path.count();
    while k > root.count()
        invariant
            nodes.wf(),
            root@.len() <= k <= path@.len(),
            is_under(path@, root@),
            tree_of(nodes@).dom() =~= tree0.dom(),
            forall|p: Seq<Part>| #[trigger]
                tree0.contains_key(p) ==> tree_of(nodes@)[p] == if is_under(path@, p) && k <= p.len()
                    < path@.len() {
                    dirty(tree0[p])
                } else {
                    tree0[p]
                },
        decreases k,
    {
        k -= 1;
        let above = path.take(k);
        let ghost map = nodes@;
        let ghost tree = tree_of(nodes@);
        proof {
            assert forall|p: Seq<Part>| is_under(path@, p) && p.len() == k implies p == above@ by {
                assert(path@.take(p.len() as int) == p);
            }
            assert(is_under(path@, above@));
        }
        if let Some(node) = nodes.get_mut(&above) {
            node.git.dirty_descendant = true;
            proof {
                lemma_tree_insert(map, above@, *node);
                assert(tree0.contains_key(above@));
                assert(node@ == dirty(tree0[above@]));
            }
        } else {
            assert(!tree0.contains_key(above@));
        }
    }
    proof {
        let marked = dirtied(tree0, root@, path@);
        let tree = tree_of(nodes@);
        assert forall|p: Seq<Part>| #![auto] tree0.contains_key(p) implies tree[p] == marked[p] by {
            if is_under(path@, p) && root@.len() <= p.len() {
                assert(p.take(root@.len() as int) =~= path@.take(root@.len() as int));
            }
        }
        assert(marked.dom() =~= tree0.dom());
        assert(tree =~= marked);
    }
}

/// Reports one change to the tree.
pub fn apply_change(nodes: &mut PathMap<Node>, root: &PathBuf, change: &GitChange)
    requires
        old(nodes).wf(),
    ensures
        final(nodes).wf(),
        tree_of(final(nodes)@) == change_applied(
            tree_of(old(nodes)@),
            root@,
            root.written(),
            change@,
        ),
{
    let path = match safe_join(root, &change.path) {
        Some(path) => path,
        None => return,
    };
    materialize(nodes, &path, change.status);
    let ghost grown = tree_of(nodes@);
    let ghost map = nodes@;
    if let Some(node) = nodes.get_mut(&path) {
        node.git.status = Some(merge_status(node.git.status, change.status));
        proof {
            lemma_tree_insert(map, path@, *node);
        }
    }
    proof {
        assert(tree_of(nodes@) == decorated(grown, path@, change.status));
        law_safe_join_stays_under_root(root@, change.path@);
    }
    mark_ancestors(nodes, root, &path);
}

/// Decorates the tree with exactly these changes.
pub fn reconcile_git(nodes: &mut PathMap<Node>, root: &PathBuf, changes: &Vec<GitChange>)
    requires
        old(nodes).wf(),
        tree_ok(tree_of(old(nodes)@)),
    ensures
        final(nodes).wf(),
        tree_of(final(nodes)@) == reconciled(
            tree_of(old(nodes)@),
            root@,
            root.written(),
            changes_view(changes@),
        ),
        tree_ok(tree_of(final(nodes)@)),
{
    let ghost tree0 = tree_of(nodes@);
    let ghost all = changes_view(changes@);
    clear_git(nodes);
    let mut i: usize = 0;
    assert(all.take(0) =~= Seq::<Change>::empty());
    while i < changes.len()
        invariant
            i <= changes@.len(),
            nodes.wf(),
            all == changes_view(changes@),
            tree_of(nodes@) == changes_applied(
                cleared(tree0),
                root@,
                root.written(),
                all.take(i as int),
            ),
        decreases changes@.len() - i,
    {
        apply_change(nodes, root, &changes[i]);
        proof {
            assert(all.take(i + 1).drop_last() =~= all.take(i as int));
            assert(all.take(i + 1).last() == changes@[i as int]@);
        }
        i += 1;
    }
    proof {
        assert(all.take(i as int) =~= all);
        lemma_cleared_ok(tree0);
        lemma_changes_applied_ok(cleared(tree0), root@, root.written(), all);
    }
}

} // verus!
