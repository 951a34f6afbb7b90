//! How the listing of a directory enters the tree.

use vstd::prelude::*;
use vstd::string::*;

use crate::collections::PathMap;
use crate::decorate::{lemma_insert_ok, lemma_tree_insert};
use crate::git::{no_decoration, GitDecoration};
use crate::path::{
    copy_paths, holds_path, is_under, option_plain, option_spelled, parent_of, paths_view,
    same_option_path, Part, PathBuf, WrittenPath,
};
use crate::subtree::{lemma_remove_keeps_order, listed, remove_subtree, subtree};
use crate::text::{decimal, decimal_string, text_view};
use crate::tree::{tree_of, tree_ok, EntryKind, Node, NodeView, Tree};

verus! {

/// One entry of a directory listing.
#[derive(Debug, Clone, PartialEq, Eq)]
pub struct LoadedEntry {
    pub path: PathBuf,
    pub name: Vec<u8>,
    pub kind: EntryKind,
    pub canonical_dir: Option<PathBuf>,
    pub error: Option<String>,
}

/// What a [`LoadedEntry`] is, as a value.
pub struct EntryView {
    pub path: Seq<Part>,
    /// The bytes that the path is written with.
    pub text: Seq<u8>,
    pub name: Seq<u8>,
    pub kind: EntryKind,
    pub canonical_dir: Option<WrittenPath>,
    pub error: Option<Seq<char>>,
}

impl View for LoadedEntry {
    type V = EntryView;

    open spec fn view(&self) -> EntryView {
        EntryView {
            path: self.path@,
            text: self.path.written(),
            name: self.name@,
            kind: self.kind,
            canonical_dir: option_spelled(self.canonical_dir),
            error: text_view(self.error),
        }
    }
}

/// The entries in a list.
pub open spec fn entries_view(entries: Seq<LoadedEntry>) -> Seq<EntryView> {
    entries.map_values(|entry: LoadedEntry| entry@)
}

/// The paths of entries.
pub open spec fn entry_paths(entries: Seq<EntryView>) -> Seq<Seq<Part>> {
    entries.map_values(|entry: EntryView| entry.path)
}

/// The listing of a directory.
#[derive(Debug, Clone, PartialEq, Eq)]
pub struct LoadedDirectory {
    pub canonical: PathBuf,
    pub entries: Vec<LoadedEntry>,
    pub truncated: bool,
}

/// What a [`LoadedDirectory`] is, as a value.
pub struct ListingView {
    pub canonical: WrittenPath,
    pub entries: Seq<EntryView>,
    pub truncated: bool,
}

impl View for LoadedDirectory {
    type V = ListingView;

    open spec fn view(&self) -> ListingView {
        ListingView {
            canonical: self.canonical.spelled(),
            entries: entries_view(self.entries@),
            truncated: self.truncated,
        }
    }
}

/// Whether every entry lies directly below the directory.
pub open spec fn lie_below(entries: Seq<EntryView>, path: Seq<Part>) -> bool {
    forall|i: int| 0 <= i < entries.len() ==> parent_of((#[trigger] entries[i]).path) == Some(path)
}

/// Whether entries can be those of a directory: each lies directly below it, and
/// none is there twice.
pub open spec fn entries_of(entries: Seq<EntryView>, path: Seq<Part>) -> bool {
    lie_below(entries, path) && entry_paths(entries).no_duplicates()
}

/// Whether an entry is the directory that a node was before, so that what is
/// known below it stays known.
pub open spec fn same_directory(entry: EntryView, old: Option<NodeView>) -> bool {
    &&& old is Some
    &&& old->0.kind.is_directory()
    &&& entry.kind.is_directory()
    &&& option_plain(old->0.canonical_dir) == option_plain(entry.canonical_dir)
}

/// The node of an entry, in place of `old`.
pub open spec fn entry_node(entry: EntryView, old: Option<NodeView>) -> NodeView {
    let keep = same_directory(entry, old);
    NodeView {
        text: entry.text,
        name: entry.name,
        kind: entry.kind,
        expanded: keep && old->0.expanded,
        loading: false,
        loaded: keep && old->0.loaded,
        error: entry.error,
        children: if keep {
            old->0.children
        } else {
            Seq::empty()
        },
        canonical_dir: entry.canonical_dir,
        synthetic_deleted: false,
        git: no_decoration(),
    }
}

/// The node of a path, if it has one.
pub open spec fn node_at(tree: Tree, path: Seq<Part>) -> Option<NodeView> {
    if tree.contains_key(path) {
        Some(tree[path])
    } else {
        None
    }
}

/// The tree after the entries were put in, one by one.
pub open spec fn with_entries(tree: Tree, entries: Seq<EntryView>) -> Tree
    decreases entries.len(),
{
    if entries.len() == 0 {
        tree
    } else {
        let before = with_entries(tree, entries.drop_last());
        let entry = entries.last();
        before.insert(entry.path, entry_node(entry, node_at(before, entry.path)))
    }
}

/// The message on a directory of which not all entries are shown.
pub open spec fn entry_cap_message(cap: nat) -> Seq<char> {
    "entry cap reached ("@ + decimal(cap) + ")"@
}

/// The nodes below a directory that a new listing no longer holds.
pub open spec fn dropped(tree: Tree, path: Seq<Part>, kept: Seq<Seq<Part>>) -> Set<Seq<Part>> {
    Set::new(
        |p: Seq<Part>|
            exists|i: int|
                0 <= i < tree[path].children.len() && !kept.contains(tree[path].children[i])
                    && listed(tree, #[trigger] tree[path].children[i], p),
    )
}

/// The node of a directory after it was listed.
pub open spec fn listed_node(node: NodeView, listing: ListingView, cap: nat) -> NodeView {
    NodeView {
        loading: false,
        loaded: true,
        canonical_dir: Some(listing.canonical),
        error: if listing.truncated {
            Some(entry_cap_message(cap))
        } else {
            None
        },
        children: entry_paths(listing.entries),
        ..node
    }
}

/// The tree after a directory was listed.
pub open spec fn listing_applied(
    tree: Tree,
    path: Seq<Part>,
    listing: ListingView,
    cap: nat,
) -> Tree {
    with_entries(
        tree.remove_keys(dropped(tree, path, entry_paths(listing.entries))),
        listing.entries,
    ).insert(path, listed_node(tree[path], listing, cap))
}

/// What was dropped for the first `count` children.
spec fn dropped_first(
    tree: Tree,
    path: Seq<Part>,
    kept: Seq<Seq<Part>>,
    count: int,
) -> Set<Seq<Part>> {
    Set::new(
        |p: Seq<Part>|
            exists|i: int|
                0 <= i < count && !kept.contains(tree[path].children[i]) && listed(
                    tree,
                    #[trigger] tree[path].children[i],
                    p,
                ),
    )
}

/// Dropping under one child does not change what is listed from another.
proof fn lemma_next_dropped(tree: Tree, path: Seq<Part>, kept: Seq<Seq<Part>>, count: int)
    requires
        tree_ok(tree),
        tree.contains_key(path),
        0 <= count < tree[path].children.len(),
        !kept.contains(tree[path].children[count]),
    ensures
        dropped_first(tree, path, kept, count).union(
            subtree(
                tree.remove_keys(dropped_first(tree, path, kept, count)),
                tree[path].children[count],
            ),
        ) == dropped_first(tree, path, kept, count + 1),
{
    let kids = tree[path].children;
    let child = kids[count];
    let gone = dropped_first(tree, path, kept, count);
    let rest = tree.remove_keys(gone);
    assert(parent_of(tree[path].children[count]) == Some(path));
    assert(child.drop_last().len() == child.len() - 1);
    if exists|j: int| 0 <= j < count && #[trigger] kids[j] == child {
        let j = choose|j: int| 0 <= j < count && #[trigger] kids[j] == child;
        assert forall|p: Seq<Part>| listed(tree, child, p) implies #[trigger] gone.contains(p) by {
            assert(listed(tree, kids[j], p));
        }
        assert forall|p: Seq<Part>| #[trigger] listed(rest, child, p) implies false by {
            assert(p.take(child.len() as int) == child);
            assert(rest.contains_key(p.take(child.len() as int)));
            assert(child.take(child.len() as int) =~= child);
            assert(listed(tree, child, child));
            assert(gone.contains(child));
        }
    } else {
        assert forall|p: Seq<Part>| #[trigger] gone.contains(p) implies !is_under(p, child) by {
            let j = choose|j: int|
                0 <= j < count && !kept.contains(kids[j]) && listed(tree, #[trigger] kids[j], p);
            assert(parent_of(tree[path].children[j]) == Some(path));
            assert(kids[j].drop_last().len() == kids[j].len() - 1);
            assert(p.take(child.len() as int) == kids[j]);
        }
        assert forall|p: Seq<Part>| #[trigger] listed(rest, child, p) == listed(
            tree,
            child,
            p,
        ) by {
            crate::subtree::lemma_listed_elsewhere(tree, gone, child, p);
        }
    }
    let left = gone.union(subtree(rest, child));
    let right = dropped_first(tree, path, kept, count + 1);
    assert forall|p: Seq<Part>| left.contains(p) == right.contains(p) by {
        if left.contains(p) && !gone.contains(p) {
            assert(listed(rest, child, p));
            assert(listed(tree, kids[count], p));
        }
        if right.contains(p) {
            let j = choose|j: int|
                0 <= j < count + 1 && !kept.contains(kids[j]) && listed(
                    tree,
                    #[trigger] kids[j],
                    p,
                );
            if j < count {
                assert(gone.contains(p));
            }
        }
    }
    assert(left =~= right);
}

/// Takes out what a new listing of `path` no longer holds.
fn drop_missing(
    nodes: &mut PathMap<Node>,
    pending: &mut PathMap<u64>,
    path: &PathBuf,
    children: &Vec<PathBuf>,
    kept: &Vec<PathBuf>,
)
    requires
        old(nodes).wf(),
        old(pending).wf(),
        tree_ok(tree_of(old(nodes)@)),
        old(nodes)@.contains_key(path@),
        paths_view(children@) == tree_of(old(nodes)@)[path@].children,
    ensures
        final(nodes).wf(),
        final(pending).wf(),
        final(nodes)@ == old(nodes)@.remove_keys(
            dropped(tree_of(old(nodes)@), path@, paths_view(kept@)),
        ),
        final(pending)@ == old(pending)@.remove_keys(
            dropped(tree_of(old(nodes)@), path@, paths_view(kept@)),
        ),
        tree_ok(tree_of(final(nodes)@)),
{
    let ghost nodes0 = nodes@;
    let ghost pending0 = pending@;
    let ghost tree0 = tree_of(nodes@);
    let ghost kids = paths_view(children@);
    let ghost keep = paths_view(kept@);
    let mut i: usize = 0;
    proof {
        assert(dropped_first(tree0, path@, keep, 0) =~= Set::empty());
        assert(nodes0.remove_keys(Set::empty()) =~= nodes0);
        assert(pending0.remove_keys(Set::empty()) =~= pending0);
    }
    while i < children.len()
        invariant
            i <= children@.len(),
            nodes.wf(),
            pending.wf(),
            tree0 == tree_of(nodes0),
            tree_ok(tree0),
            tree0.contains_key(path@),
            kids == paths_view(children@),
            kids == tree0[path@].children,
            keep == paths_view(kept@),
            nodes@ == nodes0.remove_keys(dropped_first(tree0, path@, keep, i as int)),
            pending@ == pending0.remove_keys(dropped_first(tree0, path@, keep, i as int)),
            tree_ok(tree_of(nodes@)),
        decreases children@.len() - i,
    {
        let ghost gone = dropped_first(tree0, path@, keep, i as int);
        assert(children@[i as int]@ == kids[i as int]);
        if !holds_path(kept, &children[i]) {
            let ghost rest = tree_of(nodes@);
            proof {
                lemma_next_dropped(tree0, path@, keep, i as int);
                assert(rest =~= tree0.remove_keys(gone));
            }
            remove_subtree(nodes, pending, &children[i]);
            proof {
                let more = subtree(rest, kids[i as int]);
                assert(nodes@ =~= nodes0.remove_keys(gone.union(more)));
                assert(pending@ =~= pending0.remove_keys(gone.union(more)));
            }
        } else {
            proof {
                assert forall|p: Seq<Part>| #![auto] gone.contains(p) == dropped_first(
                    tree0,
                    path@,
                    keep,
                    i + 1,
                ).contains(p) by {
                    if gone.contains(p) {
                        let j = choose|j: int|
                            0 <= j < i && !keep.contains(kids[j]) && listed(
                                tree0,
                                #[trigger] kids[j],
                                p,
                            );
                    }
                }
                assert(gone =~= dropped_first(tree0, path@, keep, i + 1));
            }
        }
        i += 1;
    }
    assert(dropped_first(tree0, path@, keep, i as int) =~= dropped(tree0, path@, keep));
}

/// Putting entries of `path` in keeps a tree in order and leaves `path` alone.
proof fn lemma_with_entries(tree: Tree, entries: Seq<EntryView>, path: Seq<Part>)
    requires
        tree_ok(tree),
        lie_below(entries, path),
    ensures
        tree_ok(with_entries(tree, entries)),
        node_at(with_entries(tree, entries), path) == node_at(tree, path),
    decreases entries.len(),
{
    if entries.len() > 0 {
        let front = entries.drop_last();
        let entry = entries.last();
        assert forall|i: int| 0 <= i < front.len() implies parent_of((#[trigger] front[i]).path)
            == Some(path) by {
            assert(front[i] == entries[i]);
        }
        lemma_with_entries(tree, front, path);
        let before = with_entries(tree, front);
        assert(parent_of(entries[entries.len() - 1].path) == Some(path));
        assert(entry.path.drop_last().len() == entry.path.len() - 1);
        let node = entry_node(entry, node_at(before, entry.path));
        assert forall|i: int| 0 <= i < node.children.len() implies parent_of(
            #[trigger] node.children[i],
        ) == Some(entry.path) by {
            assert(parent_of(before[entry.path].children[i]) == Some(entry.path));
        }
        lemma_insert_ok(before, entry.path, node);
    }
}

/// A listing keeps a tree in order.
pub proof fn lemma_listing_ok(tree: Tree, path: Seq<Part>, listing: ListingView, cap: nat)
    requires
        tree_ok(tree),
        tree.contains_key(path),
        entries_of(listing.entries, path),
    ensures
        tree_ok(listing_applied(tree, path, listing, cap)),
{
    let gone = dropped(tree, path, entry_paths(listing.entries));
    lemma_remove_keeps_order(tree, gone);
    lemma_with_entries(tree.remove_keys(gone), listing.entries, path);
    let node = listed_node(tree[path], listing, cap);
    assert forall|i: int| 0 <= i < node.children.len() implies parent_of(
        #[trigger] node.children[i],
    ) == Some(path) by {
        assert(node.children[i] == listing.entries[i].path);
    }
    lemma_insert_ok(with_entries(tree.remove_keys(gone), listing.entries), path, node);
}

/// A directory is never dropped by its own listing.
proof fn lemma_not_dropped(tree: Tree, path: Seq<Part>, kept: Seq<Seq<Part>>)
    requires
        tree_ok(tree),
        tree.contains_key(path),
    ensures
        !dropped(tree, path, kept).contains(path),
{
    if dropped(tree, path, kept).contains(path) {
        let kids = tree[path].children;
        let i = choose|i: int|
            0 <= i < kids.len() && !kept.contains(kids[i]) && listed(tree, #[trigger] kids[i], path);
        assert(parent_of(tree[path].children[i]) == Some(path));
        assert(kids[i].drop_last().len() == kids[i].len() - 1);
    }
}

/// Puts one entry in.
fn insert_entry(nodes: &mut PathMap<Node>, entry: LoadedEntry)
    requires
        old(nodes).wf(),
    ensures
        final(nodes).wf(),
        tree_of(final(nodes)@) == tree_of(old(nodes)@).insert(
            entry@.path,
            entry_node(entry@, node_at(tree_of(old(nodes)@), entry@.path)),
        ),
{
    let ghost map = nodes@;
    let ghost tree = tree_of(map);
    let LoadedEntry { path, name, kind, canonical_dir, error } = entry;
    let old_node = nodes.remove(&path);
    let mut expanded = false;
    let mut loaded = false;
    let mut children: Vec<PathBuf> = Vec::new();
    assert(paths_view(children@) =~= Seq::<Seq<Part>>::empty());
    if let Some(old_node) = old_node {
        if old_node.kind.is_directory() && kind.is_directory() && same_option_path(
            &old_node.canonical_dir,
            &canonical_dir,
        ) {
            expanded = old_node.expanded;
            loaded = old_node.loaded;
            children = old_node.children;
        }
    }
    let node = Node {
        text: path.to_bytes(),
        name,
        kind,
        expanded,
        loading: false,
        loaded,
        error,
        children,
        canonical_dir,
        synthetic_deleted: false,
        git: GitDecoration { status: None, dirty_descendant: false },
    };
    proof {
        assert(node@ == entry_node(entry@, node_at(tree, entry@.path)));
        lemma_tree_insert(map.remove(path@), path@, node);
        assert(tree_of(map.remove(path@).insert(path@, node)) =~= tree.insert(path@, node@));
    }
    nodes.insert(path, node);
}

/// The paths of entries.
fn paths_of_entries(entries: &Vec<LoadedEntry>) -> (paths: Vec<PathBuf>)
    ensures
        paths_view(paths@) == entry_paths(entries_view(entries@)),
{
    let ghost all = entry_paths(entries_view(entries@));
    let mut paths: Vec<PathBuf> = Vec::new();
    let mut i: usize = 0;
    while i < entries.len()
        invariant
            i <= entries@.len(),
            all == entry_paths(entries_view(entries@)),
            paths_view(paths@) == all.take(i as int),
        decreases entries@.len() - i,
    {
        let ghost before = paths@;
        paths.push(entries[i].path.duplicate());
        i += 1;
        assert(all[i - 1] == entries@[i - 1].path@);
        assert(paths_view(paths@) =~= paths_view(before).push(all[i - 1]));
        assert(paths_view(paths@) =~= all.take(i as int));
    }
    assert(all.take(i as int) =~= all);
    paths
}

/// Puts all entries in.
fn insert_entries(nodes: &mut PathMap<Node>, entries: Vec<LoadedEntry>)
    requires
        old(nodes).wf(),
    ensures
        final(nodes).wf(),
        tree_of(final(nodes)@) == with_entries(tree_of(old(nodes)@), entries_view(entries@)),
{
    let ghost tree0 = tree_of(nodes@);
    let ghost all = entries_view(entries@);
    let mut rest = entries;
    let mut reversed: Vec<LoadedEntry> = Vec::new();
    let ghost count = entries@.len();
    while rest.len() > 0
        invariant
            rest@.len() + reversed@.len() == count,
            entries@.len() == count,
            forall|i: int| 0 <= i < rest@.len() ==> rest@[i] == entries@[i],
            forall|i: int|
                0 <= i < reversed@.len() ==> #[trigger] reversed@[i] == entries@[count - 1 - i],
        decreases rest@.len(),
    {
        if let Some(entry) = rest.pop() {
            reversed.push(entry);
        }
    }
    let ghost mut done: nat = 0;
    assert(all.take(0) =~= Seq::<EntryView>::empty());
    while reversed.len() > 0
        invariant
            nodes.wf(),
            done + reversed@.len() == count,
            entries@.len() == count,
            all == entries_view(entries@),
            forall|i: int|
                0 <= i < reversed@.len() ==> #[trigger] reversed@[i] == entries@[count - 1 - i],
            tree_of(nodes@) == with_entries(tree0, all.take(done as int)),
        decreases reversed@.len(),
    {
        if let Some(entry) = reversed.pop() {
            proof {
                assert(entry == entries@[done as int]);
                assert(all.take(done + 1int).drop_last() =~= all.take(done as int));
                assert(all.take(done + 1int).last() == entry@);
                done = done + 1;
            }
            insert_entry(nodes, entry);
        }
    }
    assert(all.take(done as int) =~= all);
}

/// Enters the listing of `path` into the tree. What the directory no longer
/// holds is taken out together with everything listed below it, and loads that
/// are pending there are forgotten.
pub fn apply_listing(
    nodes: &mut PathMap<Node>,
    pending: &mut PathMap<u64>,
    path: &PathBuf,
    listing: LoadedDirectory,
    cap: usize,
)
    requires
        old(nodes).wf(),
        old(pending).wf(),
        tree_ok(tree_of(old(nodes)@)),
        old(nodes)@.contains_key(path@),
        entries_of(listing@.entries, path@),
    ensures
        final(nodes).wf(),
        final(pending).wf(),
        tree_of(final(nodes)@) == listing_applied(
            tree_of(old(nodes)@),
            path@,
            listing@,
            cap as nat,
        ),
        final(pending)@ == old(pending)@.remove_keys(
            dropped(tree_of(old(nodes)@), path@, entry_paths(listing@.entries)),
        ),
        tree_ok(tree_of(final(nodes)@)),
{
    let ghost tree0 = tree_of(nodes@);
    let LoadedDirectory { canonical, entries, truncated } = listing;
    let paths = paths_of_entries(&entries);
    let children: Vec<PathBuf> = match nodes.get(path) {
        Some(parent) => copy_paths(&parent.children),
        None => Vec::new(),
    };
    proof {
        lemma_not_dropped(tree0, path@, paths_view(paths@));
        lemma_listing_ok(tree0, path@, listing@, cap as nat);
    }
    let ghost gone = dropped(tree0, path@, paths_view(paths@));
    let ghost nodes0 = nodes@;
    drop_missing(nodes, pending, path, &children, &paths);
    proof {
        assert(tree_of(nodes@) =~= tree0.remove_keys(gone));
        lemma_remove_keeps_order(tree0, gone);
        lemma_with_entries(tree0.remove_keys(gone), listing@.entries, path@);
    }
    insert_entries(nodes, entries);
    let error: Option<String> = if truncated {
        let mut message = "entry cap reached (".to_owned();
        message.append(decimal_string(cap as u128).as_str());
        message.append(")");
        Some(message)
    } else {
        None
    };
    let ghost map = nodes@;
    let ghost tree = tree_of(map);
    proof {
        assert(node_at(tree, path@) == Some(tree0[path@]));
    }
    if let Some(parent) = nodes.get_mut(path) {
        parent.loading = false;
        parent.loaded = true;
        parent.canonical_dir = Some(canonical);
        parent.error = error;
        parent.children = paths;
        proof {
            assert(parent@ == listed_node(tree0[path@], listing@, cap as nat));
            lemma_tree_insert(map, path@, *parent);
        }
    }
}

/// Whether a listing names every entry once.
pub fn names_each_entry_once(listing: &LoadedDirectory) -> (once: bool)
    ensures
        once == entry_paths(listing@.entries).no_duplicates(),
{
    let ghost paths = entry_paths(listing@.entries);
    let entries = &listing.entries;
    let mut i: usize = 0;
    while i < entries.len()
        invariant
            i <= entries@.len(),
            entries == listing.entries,
            paths == entry_paths(listing@.entries),
            forall|k: int, l: int| 0 <= k < l < i ==> paths[k] != paths[l],
        decreases entries@.len() - i,
    {
        let mut j: usize = 0;
        while j < i
            invariant
                j <= i < entries@.len(),
                entries == listing.entries,
                paths == entry_paths(listing@.entries),
                forall|k: int| 0 <= k < j ==> paths[k] != paths[i as int],
            decreases i - j,
        {
            assert(paths[i as int] == entries@[i as int].path@);
            assert(paths[j as int] == entries@[j as int].path@);
            if entries[i].path.same(&entries[j].path) {
                assert(!paths.no_duplicates());
                return false;
            }
            j += 1;
        }
        i += 1;
    }
    true
}

} // verus!
