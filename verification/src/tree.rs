//! The tree of files that the sidebar knows: its nodes, and how it is flattened
//! into rows.

use vstd::prelude::*;
use vstd::string::*;
use vstd::utf8::*;

use crate::bytes::copy_bytes;
use crate::collections::PathMap;
use crate::git::GitDecoration;
use crate::path::{option_spelled, option_view, parent_of, paths_view, Part, PathBuf, WrittenPath};
use crate::text::{copy_option, text_view};

verus! {

#[derive(Debug, Clone, Copy, PartialEq, Eq, Structural)]
pub enum EntryKind {
    Directory,
    File,
    SymlinkDirectory,
    Symlink,
    Other,
    /// A tracked path reported deleted by Git but absent from the filesystem.
    Deleted,
}

impl EntryKind {
    pub open spec fn spec_is_directory(self) -> bool {
        self is Directory || self is SymlinkDirectory
    }

    #[verifier::when_used_as_spec(spec_is_directory)]
    pub fn is_directory(self) -> (directory: bool)
        ensures
            directory == (self is Directory || self is SymlinkDirectory),
    {
        match self {
            EntryKind::Directory => true,
            EntryKind::SymlinkDirectory => true,
            _ => false,
        }
    }
}

/// What is known about one path.
#[derive(Debug)]
pub struct Node {
    /// The bytes that the path is written with.
    pub text: Vec<u8>,
    pub name: Vec<u8>,
    pub kind: EntryKind,
    pub expanded: bool,
    pub loading: bool,
    pub loaded: bool,
    pub error: Option<String>,
    pub children: Vec<PathBuf>,
    pub canonical_dir: Option<PathBuf>,
    pub synthetic_deleted: bool,
    pub git: GitDecoration,
}

/// What a [`Node`] is, as a value.
pub struct NodeView {
    pub text: Seq<u8>,
    pub name: Seq<u8>,
    pub kind: EntryKind,
    pub expanded: bool,
    pub loading: bool,
    pub loaded: bool,
    pub error: Option<Seq<char>>,
    pub children: Seq<Seq<Part>>,
    pub canonical_dir: Option<WrittenPath>,
    pub synthetic_deleted: bool,
    pub git: GitDecoration,
}

impl View for Node {
    type V = NodeView;

    open spec fn view(&self) -> NodeView {
        NodeView {
            text: self.text@,
            name: self.name@,
            kind: self.kind,
            expanded: self.expanded,
            loading: self.loading,
            loaded: self.loaded,
            error: text_view(self.error),
            children: paths_view(self.children@),
            canonical_dir: option_spelled(self.canonical_dir),
            synthetic_deleted: self.synthetic_deleted,
            git: self.git,
        }
    }
}

/// The nodes by path.
pub type Tree = Map<Seq<Part>, NodeView>;

/// The tree that a map of nodes holds.
pub open spec fn tree_of(nodes: Map<Seq<Part>, Node>) -> Tree {
    nodes.map_values(|node: Node| node@)
}

/// Finitely many nodes, and every listed child lies directly below its node.
pub open spec fn tree_ok(tree: Tree) -> bool {
    &&& tree.dom().finite()
    &&& forall|path: Seq<Part>, i: int|
        tree.contains_key(path) && 0 <= i < tree[path].children.len() ==> parent_of(
            #[trigger] tree[path].children[i],
        ) == Some(path)
}

/// Whether every listed child has a node.
pub open spec fn children_known(tree: Tree) -> bool {
    forall|path: Seq<Part>, i: int|
        tree.contains_key(path) && 0 <= i < tree[path].children.len() ==> tree.contains_key(
            #[trigger] tree[path].children[i],
        )
}

/// Whether no node lists a child twice.
pub open spec fn lists_once(tree: Tree) -> bool {
    forall|path: Seq<Part>| #[trigger]
        tree.contains_key(path) ==> tree[path].children.no_duplicates()
}

/// A visible row.
#[derive(Debug, Clone, PartialEq, Eq)]
pub struct SidebarRow {
    pub path: PathBuf,
    pub name: Vec<u8>,
    pub depth: usize,
    pub kind: EntryKind,
    pub expanded: bool,
    pub loading: bool,
    pub selected: bool,
    pub error: Option<String>,
    pub git: GitDecoration,
}

/// What a [`SidebarRow`] is, as a value.
pub struct RowView {
    pub path: Seq<Part>,
    /// The bytes that the path is written with.
    pub text: Seq<u8>,
    pub name: Seq<u8>,
    pub depth: nat,
    pub kind: EntryKind,
    pub expanded: bool,
    pub loading: bool,
    pub selected: bool,
    pub error: Option<Seq<char>>,
    pub git: GitDecoration,
}

impl View for SidebarRow {
    type V = RowView;

    open spec fn view(&self) -> RowView {
        RowView {
            path: self.path@,
            text: self.path.written(),
            name: self.name@,
            depth: self.depth as nat,
            kind: self.kind,
            expanded: self.expanded,
            loading: self.loading,
            selected: self.selected,
            error: text_view(self.error),
            git: self.git,
        }
    }
}

/// The rows in a list.
pub open spec fn rows_view(rows: Seq<SidebarRow>) -> Seq<RowView> {
    rows.map_values(|row: SidebarRow| row@)
}

impl SidebarRow {
    /// The name as text, with replacement characters only where it is not
    /// Unicode. The path stays exact.
    pub fn display_name(&self) -> (name: String)
        ensures
            name@ == crate::text::lossy_text(self.name@),
            valid_utf8(self.name@) ==> name@ == decode_utf8(self.name@),
    {
        crate::text::lossy_string(&self.name)
    }
}

/// The row that shows a node.
pub open spec fn row_of(node: NodeView, path: Seq<Part>, depth: nat, selected: bool) -> RowView {
    RowView {
        path,
        text: node.text,
        name: node.name,
        depth,
        kind: node.kind,
        expanded: node.expanded,
        loading: node.loading,
        selected,
        error: node.error,
        git: node.git,
    }
}

impl Node {
    /// The row that shows this node.
    pub fn row(&self, path: &PathBuf, depth: usize, selected: bool) -> (row: SidebarRow)
        ensures
            row@ == row_of(self@, path@, depth as nat, selected),
    {
        SidebarRow {
            path: path.written_as(&self.text),
            name: copy_bytes(&self.name),
            depth,
            kind: self.kind,
            expanded: self.expanded,
            loading: self.loading,
            selected,
            error: copy_option(&self.error),
            git: self.git,
        }
    }
}

/// A length that no path in the tree exceeds.
pub open spec fn deepest(tree: Tree) -> nat {
    choose|bound: nat| bounds_depth(tree, bound)
}

pub open spec fn bounds_depth(tree: Tree, bound: nat) -> bool {
    forall|path: Seq<Part>| #[trigger] tree.contains_key(path) ==> path.len() <= bound
}

/// The rows of `path` and, while it is expanded, of everything below it, in
/// order. A path without a node has no rows.
pub open spec fn rows_at(
    tree: Tree,
    selected: Option<Seq<Part>>,
    path: Seq<Part>,
    depth: nat,
) -> Seq<RowView>
    decreases deepest(tree) + 1 - path.len(), 0nat,
{
    if tree.contains_key(path) && path.len() <= deepest(tree) {
        let node = tree[path];
        let row = row_of(node, path, depth, selected == Some(path));
        if node.expanded {
            seq![row] + rows_below(tree, selected, node.children, path.len() + 1, depth + 1)
        } else {
            seq![row]
        }
    } else {
        seq![]
    }
}

/// The rows of sibling paths of one length, in order.
pub open spec fn rows_below(
    tree: Tree,
    selected: Option<Seq<Part>>,
    paths: Seq<Seq<Part>>,
    length: nat,
    depth: nat,
) -> Seq<RowView>
    decreases deepest(tree) + 1 - length, paths.len(),
{
    if paths.len() == 0 {
        seq![]
    } else {
        let before = rows_below(tree, selected, paths.drop_last(), length, depth);
        if paths.last().len() == length {
            before + rows_at(tree, selected, paths.last(), depth)
        } else {
            before
        }
    }
}

proof fn lemma_bound_exists(tree: Tree)
    requires
        tree.dom().finite(),
    ensures
        exists|bound: nat| bounds_depth(tree, bound),
    decreases tree.dom().len(),
{
    if tree.dom().len() == 0 {
        assert(tree.dom() =~= Set::empty());
        assert(bounds_depth(tree, 0));
    } else {
        let path = tree.dom().choose();
        assert(tree.dom().contains(path));
        let rest = tree.remove(path);
        assert(rest.dom() =~= tree.dom().remove(path));
        lemma_bound_exists(rest);
        let bound = choose|bound: nat| bounds_depth(rest, bound);
        let larger = if bound >= path.len() {
            bound
        } else {
            path.len()
        };
        assert forall|p: Seq<Part>| #[trigger] tree.contains_key(p) implies p.len() <= larger by {
            if p != path {
                assert(rest.contains_key(p));
            }
        }
        assert(bounds_depth(tree, larger));
    }
}

/// No path in the tree is longer than `deepest`.
pub proof fn lemma_deepest(tree: Tree, path: Seq<Part>)
    requires
        tree.dom().finite(),
        tree.contains_key(path),
    ensures
        path.len() <= deepest(tree),
{
    lemma_bound_exists(tree);
    assert(bounds_depth(tree, deepest(tree)));
}

/// Appends the rows of `path` and of what is expanded below it.
fn flatten_node(
    nodes: &PathMap<Node>,
    selected: &Option<PathBuf>,
    path: &PathBuf,
    depth: usize,
    rows: &mut Vec<SidebarRow>,
)
    requires
        nodes.wf(),
        tree_ok(tree_of(nodes@)),
        depth <= path@.len(),
    ensures
        rows_view(final(rows)@) == rows_view(old(rows)@) + rows_at(
            tree_of(nodes@),
            option_view(*selected),
            path@,
            depth as nat,
        ),
    decreases deepest(tree_of(nodes@)) + 1 - path@.len(),
{
    let ghost tree = tree_of(nodes@);
    let ghost before = rows_view(rows@);
    let node = match nodes.get(path) {
        Some(node) => node,
        None => {
            assert(before + Seq::<RowView>::empty() =~= before);
            return;
        },
    };
    proof {
        assert(tree.contains_key(path@) && tree[path@] == node@);
        lemma_deepest(tree, path@);
    }
    let is_selected = match selected {
        Some(selected) => selected.same(path),
        None => false,
    };
    let row = node.row(path, depth, is_selected);
    rows.push(row);
    assert(rows_view(rows@) =~= before.push(row@));
    if node.expanded {
        let ghost kids = paths_view(node.children@);
        let ghost with_row = rows_view(rows@);
        let mut i: usize = 0;
        assert(kids.take(0) =~= Seq::<Seq<Part>>::empty());
        assert(with_row + Seq::<RowView>::empty() =~= with_row);
        while i < node.children.len()
            invariant
                i <= node.children@.len(),
                nodes.wf(),
                tree == tree_of(nodes@),
                tree_ok(tree),
                tree.contains_key(path@),
                tree[path@] == node@,
                path@.len() <= deepest(tree),
                depth <= path@.len(),
                kids == paths_view(node.children@),
                rows_view(rows@) == with_row + rows_below(
                    tree,
                    option_view(*selected),
                    kids.take(i as int),
                    path@.len() + 1,
                    (depth + 1) as nat,
                ),
            decreases node.children@.len() - i,
        {
            let child = &node.children[i];
            proof {
                assert(kids[i as int] == child@);
                assert(parent_of(tree[path@].children[i as int]) == Some(path@));
                assert(child@.len() == path@.len() + 1);
                child.lemma_count();
            }
            let ghost so_far = rows_view(rows@);
            flatten_node(nodes, selected, child, depth + 1, rows);
            proof {
                assert(kids.take(i + 1).drop_last() =~= kids.take(i as int));
                assert(kids.take(i + 1).last() == child@);
                let earlier = rows_below(
                    tree,
                    option_view(*selected),
                    kids.take(i as int),
                    path@.len() + 1,
                    (depth + 1) as nat,
                );
                let own = rows_at(tree, option_view(*selected), child@, (depth + 1) as nat);
                assert((with_row + earlier) + own =~= with_row + (earlier + own));
            }
            i += 1;
        }
        proof {
            assert(kids.take(i as int) =~= kids);
            let below = rows_below(
                tree,
                option_view(*selected),
                kids,
                path@.len() + 1,
                (depth + 1) as nat,
            );
            assert(before.push(row@) + below =~= before + (seq![row@] + below));
        }
    } else {
        assert(before.push(row@) =~= before + seq![row@]);
    }
}

/// All rows from `root` on.
pub fn flatten_rows(
    nodes: &PathMap<Node>,
    selected: &Option<PathBuf>,
    root: &PathBuf,
) -> (rows: Vec<SidebarRow>)
    requires
        nodes.wf(),
        tree_ok(tree_of(nodes@)),
    ensures
        rows_view(rows@) == rows_at(tree_of(nodes@), option_view(*selected), root@, 0),
{
    let mut rows: Vec<SidebarRow> = Vec::new();
    flatten_node(nodes, selected, root, 0, &mut rows);
    proof {
        let all = rows_at(tree_of(nodes@), option_view(*selected), root@, 0);
        assert(Seq::<RowView>::empty() + all =~= all);
    }
    rows
}

} // verus!
