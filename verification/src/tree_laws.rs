//! What listing a directory again leaves as it was, and what expanding and
//! collapsing show.

use vstd::prelude::*;
use vstd::string::*;

use crate::decorate::{cleared, is_synthetic};
use crate::decoration_laws::law_decoration_keeps_entries;
use crate::listing::{
    dropped, entries_of, entry_paths, listing_applied, node_at, with_entries, EntryView,
    ListingView,
};
use crate::path::{is_under, parent_of, Part, WrittenPath};
use crate::sidebar_laws::{law_listing_is_taken_in, lemma_entries_elsewhere, lemma_load_result};
use crate::state::{
    activated, all_rows, collapsed, expand_requested, is_valid, load_applied, row_paths,
    SidebarState,
};
use crate::subtree::listed;
use crate::text::decimal;
use crate::tree::{
    children_known, deepest, lemma_deepest, row_of, rows_at, rows_below, tree_ok, EntryKind,
    NodeView, RowView, Tree,
};

verus! {

/// Directories and links to directories can be expanded, and nothing else.
pub proof fn law_directories_can_be_expanded(kind: EntryKind)
    ensures
        kind.is_directory() <==> kind == EntryKind::Directory || kind
            == EntryKind::SymlinkDirectory,
{
}

/// Whether an entry of a new listing is the directory that a node was: both are
/// directories, and they resolve to one path.
pub open spec fn is_still(old: NodeView, entry: EntryView) -> bool {
    &&& old.kind == EntryKind::Directory || old.kind == EntryKind::SymlinkDirectory
    &&& entry.kind == EntryKind::Directory || entry.kind == EntryKind::SymlinkDirectory
    &&& (old.canonical_dir is None && entry.canonical_dir is None) || (old.canonical_dir is Some
        && entry.canonical_dir is Some && old.canonical_dir->0.path == entry.canonical_dir->0.path)
}

/// What is listed anew shows what was read: the kind, the name and the error of
/// each entry. A directory that is still the same one stays expanded or
/// collapsed as it was, and what was known below it stays known; one that is
/// new, or another, is collapsed and nothing is known below it. The directory
/// itself is loaded and lists what was read, in that order.
pub proof fn law_listing_keeps_what_is_open(
    tree: Tree,
    path: Seq<Part>,
    listing: ListingView,
    cap: nat,
    at: int,
)
    requires
        tree_ok(tree),
        tree.contains_key(path),
        entries_of(listing.entries, path),
        0 <= at < listing.entries.len(),
    ensures
        ({
            let entry = listing.entries[at];
            let after = listing_applied(tree, path, listing, cap);
            let node = after[entry.path];
            let known = tree.contains_key(entry.path);
            let old = tree[entry.path];
            &&& after.contains_key(entry.path)
            &&& node.kind == entry.kind
            &&& node.name == entry.name
            &&& node.text == entry.text
            &&& node.error == entry.error
            &&& node.canonical_dir == entry.canonical_dir
            &&& !node.loading
            &&& !node.synthetic_deleted
            &&& known && is_still(old, entry) ==> {
                &&& node.expanded == old.expanded
                &&& node.loaded == old.loaded
                &&& node.children == old.children
            }
            &&& !(known && is_still(old, entry)) ==> {
                &&& !node.expanded
                &&& !node.loaded
                &&& node.children.len() == 0
            }
            &&& after[path].expanded == tree[path].expanded
            &&& after[path].loaded
            &&& !after[path].loading
            &&& after[path].kind == tree[path].kind
            &&& after[path].name == tree[path].name
            &&& after[path].text == tree[path].text
            &&& after[path].canonical_dir == Some(listing.canonical)
            &&& after[path].children.len() == listing.entries.len()
            &&& after[path].children[at] == entry.path
            &&& listing.truncated ==> after[path].error == Some(
                "entry cap reached ("@ + decimal(cap) + ")"@,
            )
            &&& !listing.truncated ==> after[path].error is None
        }),
{
    law_listing_is_taken_in(tree, path, listing, cap, at);
    let entry = listing.entries[at];
    assert(parent_of(entry.path) == Some(path));
    assert(entry.path.drop_last().len() == entry.path.len() - 1);
}

/// A listing of one directory touches nothing elsewhere: a node that is neither
/// the directory nor one of its entries stays as it is, unless it lies below an
/// entry that is gone.
pub proof fn law_listing_leaves_the_rest(
    tree: Tree,
    path: Seq<Part>,
    listing: ListingView,
    cap: nat,
    other: Seq<Part>,
)
    requires
        tree_ok(tree),
        tree.contains_key(path),
        entries_of(listing.entries, path),
        other != path,
        !entry_paths(listing.entries).contains(other),
        forall|i: int|
            0 <= i < tree[path].children.len() && is_under(other, #[trigger] tree[path].children[i])
                ==> entry_paths(listing.entries).contains(tree[path].children[i]),
    ensures
        listing_applied(tree, path, listing, cap).contains_key(other) == tree.contains_key(other),
        tree.contains_key(other) ==> listing_applied(tree, path, listing, cap)[other]
            == tree[other],
{
    let kept = entry_paths(listing.entries);
    let gone = dropped(tree, path, kept);
    let kids = tree[path].children;
    assert(!gone.contains(other)) by {
        if gone.contains(other) {
            let i = choose|i: int|
                0 <= i < kids.len() && !kept.contains(kids[i]) && listed(
                    tree,
                    #[trigger] kids[i],
                    other,
                );
            assert(is_under(other, tree[path].children[i]));
        }
    }
    let rest = tree.remove_keys(gone);
    assert(node_at(rest, other) == node_at(tree, other));
    assert forall|i: int| 0 <= i < listing.entries.len() implies (
    #[trigger] listing.entries[i]).path != other by {
        assert(kept[i] == listing.entries[i].path);
    }
    lemma_entries_elsewhere(rest, listing.entries, other);
    let entered = with_entries(rest, listing.entries);
    assert(node_at(entered, other) == node_at(tree, other));
}

/// After a listing that was awaited is taken in, every directory in it that is
/// still the one it was is expanded and loaded exactly as before, and the
/// children that are on disk are those it had.
pub proof fn law_refresh_keeps_what_is_open(
    s: SidebarState,
    path: Seq<Part>,
    text: Seq<u8>,
    listing: ListingView,
    at: int,
)
    requires
        is_valid(s),
        s.tree.contains_key(path),
        s.pending_loads.contains_key(path),
        entries_of(listing.entries, path),
        0 <= at < listing.entries.len(),
    ensures
        ({
            let entry = listing.entries[at];
            let (after, awaited) = load_applied(
                s,
                s.pending_loads[path],
                path,
                text,
                Ok(listing),
            );
            let node = after.tree[entry.path];
            let known = s.tree.contains_key(entry.path);
            let old = s.tree[entry.path];
            &&& awaited
            &&& after.tree.contains_key(entry.path)
            &&& node.kind == entry.kind
            &&& node.name == entry.name
            &&& node.text == entry.text
            &&& node.error == entry.error
            &&& known && is_still(old, entry) ==> node.expanded == old.expanded && node.loaded
                == old.loaded
            &&& !(known && is_still(old, entry)) ==> !node.expanded && !node.loaded
            &&& s.git_changes.len() == 0 && known && is_still(old, entry) ==> forall|child: Seq<
                Part,
            >| #[trigger]
                node.children.contains(child) <==> old.children.contains(child)
                    && !is_gone_row(s.tree, child)
        }),
{
    lemma_load_result(s, path, text, Ok(listing));
    let entry = listing.entries[at];
    let cap = s.config.entry_cap as nat;
    law_listing_keeps_what_is_open(s.tree, path, listing, cap, at);
    let applied = listing_applied(s.tree, path, listing, cap);
    law_decoration_keeps_entries(applied, s.root, s.root_text, s.git_changes, entry.path);
    if s.git_changes.len() == 0 && s.tree.contains_key(entry.path) && is_still(
        s.tree[entry.path],
        entry,
    ) {
        let after = load_applied(s, s.pending_loads[path], path, text, Ok(listing)).0;
        let old = s.tree[entry.path];
        assert(after.tree == cleared(applied));
        let keep = |child: Seq<Part>| !is_synthetic(applied, child);
        let kids = old.children;
        assert(after.tree[entry.path].children == kids.filter(keep));
        assert forall|child: Seq<Part>| #[trigger]
            after.tree[entry.path].children.contains(child) <==> kids.contains(child)
                && !is_gone_row(s.tree, child) by {
            if kids.filter(keep).contains(child) {
                kids.lemma_filter_contains_rev(keep, child);
                let i = kids.index_of(child);
                assert(parent_of(s.tree[entry.path].children[i]) == Some(entry.path));
                lemma_grandchild_stays(s.tree, path, listing, cap, at, child);
            }
            if kids.contains(child) {
                let i = kids.index_of(child);
                assert(parent_of(s.tree[entry.path].children[i]) == Some(entry.path));
                lemma_grandchild_stays(s.tree, path, listing, cap, at, child);
                if !is_gone_row(s.tree, child) {
                    assert(keep(child));
                    kids.lemma_filter_contains(keep, i);
                }
            }
        }
    }
}

/// Whether a path has a row only because it was reported deleted.
pub open spec fn is_gone_row(tree: Tree, child: Seq<Part>) -> bool {
    tree.contains_key(child) && tree[child].synthetic_deleted
}

proof fn lemma_grandchild_stays(
    tree: Tree,
    path: Seq<Part>,
    listing: ListingView,
    cap: nat,
    at: int,
    child: Seq<Part>,
)
    requires
        tree_ok(tree),
        tree.contains_key(path),
        entries_of(listing.entries, path),
        0 <= at < listing.entries.len(),
        parent_of(child) == Some(listing.entries[at].path),
    ensures
        node_at(listing_applied(tree, path, listing, cap), child) == node_at(tree, child),
{
    let above = listing.entries[at].path;
    let kept = entry_paths(listing.entries);
    assert(parent_of(listing.entries[at].path) == Some(path));
    assert(above.drop_last().len() == above.len() - 1);
    assert(child.drop_last().len() == child.len() - 1);
    assert(kept[at] == above);
    assert forall|i: int|
        0 <= i < tree[path].children.len() && is_under(
            child,
            #[trigger] tree[path].children[i],
        ) implies kept.contains(tree[path].children[i]) by {
        let kid = tree[path].children[i];
        assert(parent_of(tree[path].children[i]) == Some(path));
        assert(kid.drop_last().len() == kid.len() - 1);
        assert(child.take(kid.len() as int) =~= child.drop_last());
        assert(kid == above);
    }
    assert(!kept.contains(child)) by {
        if kept.contains(child) {
            let i = kept.index_of(child);
            assert(parent_of(listing.entries[i].path) == Some(path));
        }
    }
    law_listing_leaves_the_rest(tree, path, listing, cap, child);
}

/// Whether two trees show the same rows: they have nodes for the same paths,
/// and what is expanded in one is expanded in the other and lists the same.
pub open spec fn open_alike(left: Tree, right: Tree) -> bool {
    &&& forall|p: Seq<Part>| #[trigger] left.contains_key(p) == right.contains_key(p)
    &&& forall|p: Seq<Part>| #[trigger]
        left.contains_key(p) ==> left[p].expanded == right[p].expanded && (left[p].expanded
            ==> left[p].children == right[p].children)
}

proof fn lemma_alike_at(
    left: Tree,
    right: Tree,
    selected: Option<Seq<Part>>,
    path: Seq<Part>,
    depth: nat,
)
    requires
        open_alike(left, right),
        left.dom().finite(),
        right.dom().finite(),
    ensures
        row_paths(rows_at(left, selected, path, depth)) =~= row_paths(
            rows_at(right, selected, path, depth),
        ),
    decreases deepest(left) + 1 - path.len(), 0nat,
{
    if left.contains_key(path) {
        assert(right.contains_key(path));
        lemma_deepest(left, path);
        lemma_deepest(right, path);
        if left[path].expanded {
            lemma_alike_below(
                left,
                right,
                selected,
                left[path].children,
                path.len() + 1,
                depth + 1,
            );
            let one = rows_below(left, selected, left[path].children, path.len() + 1, depth + 1);
            let two = rows_below(right, selected, left[path].children, path.len() + 1, depth + 1);
            let first = row_of(left[path], path, depth, selected == Some(path));
            let second = row_of(right[path], path, depth, selected == Some(path));
            assert(row_paths(seq![first] + one) =~= seq![path] + row_paths(one));
            assert(row_paths(seq![second] + two) =~= seq![path] + row_paths(two));
        }
    } else {
        assert(!right.contains_key(path));
    }
}

proof fn lemma_alike_below(
    left: Tree,
    right: Tree,
    selected: Option<Seq<Part>>,
    paths: Seq<Seq<Part>>,
    length: nat,
    depth: nat,
)
    requires
        open_alike(left, right),
        left.dom().finite(),
        right.dom().finite(),
    ensures
        row_paths(rows_below(left, selected, paths, length, depth)) =~= row_paths(
            rows_below(right, selected, paths, length, depth),
        ),
    decreases deepest(left) + 1 - length, paths.len(),
{
    if paths.len() > 0 {
        let rest = paths.drop_last();
        lemma_alike_below(left, right, selected, rest, length, depth);
        if paths.last().len() == length {
            lemma_alike_at(left, right, selected, paths.last(), depth);
            let a = rows_below(left, selected, rest, length, depth);
            let b = rows_at(left, selected, paths.last(), depth);
            let c = rows_below(right, selected, rest, length, depth);
            let d = rows_at(right, selected, paths.last(), depth);
            assert(row_paths(a + b) =~= row_paths(a) + row_paths(b));
            assert(row_paths(c + d) =~= row_paths(c) + row_paths(d));
        }
    }
}

/// Whether a listing names what a directory lists already: the same entries in
/// the same order, each still what it was.
pub open spec fn names_the_same(tree: Tree, path: Seq<Part>, listing: ListingView) -> bool {
    &&& entry_paths(listing.entries) == tree[path].children
    &&& forall|i: int|
        0 <= i < listing.entries.len() ==> {
            let entry = #[trigger] listing.entries[i];
            &&& tree.contains_key(entry.path)
            &&& is_still(tree[entry.path], entry) || !tree[entry.path].expanded
        }
}

proof fn lemma_same_names_alike(tree: Tree, path: Seq<Part>, listing: ListingView, cap: nat)
    requires
        tree_ok(tree),
        tree.contains_key(path),
        entries_of(listing.entries, path),
        names_the_same(tree, path, listing),
    ensures
        open_alike(tree, listing_applied(tree, path, listing, cap)),
{
    let after = listing_applied(tree, path, listing, cap);
    let kept = entry_paths(listing.entries);
    let kids = tree[path].children;
    assert forall|i: int| 0 <= i < kids.len() implies kept.contains(#[trigger] kids[i]) by {
        assert(kept[i] == kids[i]);
    }
    assert(after[path].children == tree[path].children);
    assert forall|p: Seq<Part>| #[trigger] tree.contains_key(p) == after.contains_key(p) && (
    tree.contains_key(p) ==> tree[p].expanded == after[p].expanded && (tree[p].expanded
        ==> tree[p].children == after[p].children)) by {
        if p == path {
        } else if kept.contains(p) {
            let i = kept.index_of(p);
            assert(listing.entries[i].path == p);
            law_listing_keeps_what_is_open(tree, path, listing, cap, i);
        } else {
            assert forall|i: int|
                0 <= i < tree[path].children.len() && is_under(
                    p,
                    #[trigger] tree[path].children[i],
                ) implies kept.contains(tree[path].children[i]) by {
                assert(kept.contains(kids[i]));
            }
            law_listing_leaves_the_rest(tree, path, listing, cap, p);
        }
    }
}

/// A listing that names what is there already leaves the paths of all rows as
/// they were: nothing opens, closes, comes or goes.
pub proof fn law_same_names_keep_the_rows(
    tree: Tree,
    path: Seq<Part>,
    listing: ListingView,
    cap: nat,
    selected: Option<Seq<Part>>,
    root: Seq<Part>,
)
    requires
        tree_ok(tree),
        tree.contains_key(path),
        entries_of(listing.entries, path),
        names_the_same(tree, path, listing),
    ensures
        row_paths(rows_at(listing_applied(tree, path, listing, cap), selected, root, 0))
            == row_paths(rows_at(tree, selected, root, 0)),
{
    lemma_same_names_alike(tree, path, listing, cap);
    crate::listing::lemma_listing_ok(tree, path, listing, cap);
    lemma_alike_at(tree, listing_applied(tree, path, listing, cap), selected, root, 0);
}

/// Taking in a listing that names what is there already leaves the paths of all
/// rows as they were, while Git reports nothing.
pub proof fn law_refresh_keeps_the_rows(
    s: SidebarState,
    path: Seq<Part>,
    text: Seq<u8>,
    listing: ListingView,
)
    requires
        is_valid(s),
        s.tree.contains_key(path),
        s.pending_loads.contains_key(path),
        entries_of(listing.entries, path),
        names_the_same(s.tree, path, listing),
        s.git_changes.len() == 0,
        forall|p: Seq<Part>| #[trigger] s.tree.contains_key(p) ==> !s.tree[p].synthetic_deleted,
    ensures
        row_paths(
            all_rows(load_applied(s, s.pending_loads[path], path, text, Ok(listing)).0),
        ) == row_paths(all_rows(s)),
{
    lemma_load_result(s, path, text, Ok(listing));
    let cap = s.config.entry_cap as nat;
    let applied = listing_applied(s.tree, path, listing, cap);
    let after = load_applied(s, s.pending_loads[path], path, text, Ok(listing)).0;
    assert(after.tree == cleared(applied));
    lemma_same_names_alike(s.tree, path, listing, cap);
    assert forall|p: Seq<Part>| #[trigger] applied.contains_key(p) implies !applied[p].synthetic_deleted by {
        let kept = entry_paths(listing.entries);
        assert(s.tree.contains_key(p));
        if p == path {
        } else if kept.contains(p) {
            let i = kept.index_of(p);
            assert(listing.entries[i].path == p);
            law_listing_keeps_what_is_open(s.tree, path, listing, cap, i);
        } else {
            let kids = s.tree[path].children;
            assert forall|i: int|
                0 <= i < s.tree[path].children.len() && is_under(
                    p,
                    #[trigger] s.tree[path].children[i],
                ) implies kept.contains(s.tree[path].children[i]) by {
                assert(kept[i] == kids[i]);
            }
            law_listing_leaves_the_rest(s.tree, path, listing, cap, p);
        }
    }
    assert forall|p: Seq<Part>| #[trigger] applied.contains_key(p) implies after.tree.contains_key(
        p,
    ) && after.tree[p].children == applied[p].children by {
        let keep = |child: Seq<Part>| !is_synthetic(applied, child);
        let kids = applied[p].children;
        lemma_keep_all(kids, keep);
    }
    assert(open_alike(s.tree, after.tree)) by {
        assert forall|p: Seq<Part>| #[trigger] s.tree.contains_key(p) == after.tree.contains_key(
            p,
        ) && (s.tree.contains_key(p) ==> s.tree[p].expanded == after.tree[p].expanded && (
        s.tree[p].expanded ==> s.tree[p].children == after.tree[p].children)) by {
            assert(s.tree.contains_key(p) == applied.contains_key(p));
        }
    }
    crate::listing::lemma_listing_ok(s.tree, path, listing, cap);
    crate::decorate::lemma_cleared_ok(applied);
    lemma_alike_at(s.tree, after.tree, s.selected, s.root, 0);
    crate::sidebar_laws::law_selection_moves_no_rows(
        SidebarState { selected: s.selected, ..after },
        after.selected,
    );
    let moved = all_rows(after);
    let unmoved = rows_at(after.tree, s.selected, s.root, 0);
    assert(row_paths(moved) =~= row_paths(unmoved)) by {
        let a = crate::state::spelled_rows(moved);
        let b = crate::state::spelled_rows(unmoved);
        assert(a == b);
        assert(a.len() == moved.len() && b.len() == unmoved.len());
        assert forall|i: int| 0 <= i < moved.len() implies row_paths(moved)[i]
            == row_paths(unmoved)[i] by {
            assert(a[i].path == moved[i].path && b[i].path == unmoved[i].path);
        }
    }
}

proof fn lemma_keep_all(kids: Seq<Seq<Part>>, keep: spec_fn(Seq<Part>) -> bool)
    requires
        forall|p: Seq<Part>| kids.contains(p) ==> #[trigger] keep(p),
    ensures
        kids.filter(keep) == kids,
    decreases kids.len(),
{
    reveal(Seq::filter);
    if kids.len() > 0 {
        let front = kids.drop_last();
        assert forall|p: Seq<Part>| front.contains(p) implies #[trigger] keep(p) by {
            let i = front.index_of(p);
            assert(kids[i] == p);
        }
        lemma_keep_all(front, keep);
        assert(kids[kids.len() - 1] == kids.last());
        assert(kids.contains(kids.last()));
        assert(keep(kids.last()));
        assert(front.push(kids.last()) =~= kids);
    } else {
        assert(kids.filter(keep) =~= kids);
    }
}

/// Expanding a directory that was listed shows it expanded and asks for
/// nothing; expanding one that was not asks for its listing, once, under its
/// own path. Nothing else can be expanded.
pub proof fn law_expanding(s: SidebarState, path: Seq<Part>, text: Seq<u8>)
    ensures
        ({
            let (after, asked) = expand_requested(s, path, text);
            let directory = s.tree.contains_key(path) && (s.tree[path].kind
                == EntryKind::Directory || s.tree[path].kind == EntryKind::SymlinkDirectory);
            let room = !s.worker_lost && s.queue.len() < s.config.channel_capacity;
            &&& !directory ==> after == s && !asked
            &&& directory && s.tree[path].loaded ==> !asked && after == (SidebarState {
                tree: s.tree.insert(path, NodeView { expanded: true, ..s.tree[path] }),
                ..s
            })
            &&& directory && !s.tree[path].loaded && room ==> {
                &&& asked
                &&& after.tree == s.tree.insert(
                    path,
                    NodeView { expanded: true, loading: true, error: None, ..s.tree[path] },
                )
                &&& after.queue.len() == s.queue.len() + 1
                &&& after.queue.drop_last() =~= s.queue
                &&& after.queue.last() is Load
                &&& after.queue.last()->Load_path == (WrittenPath { path, text })
                &&& after.queue.last()->Load_root == (WrittenPath {
                    path: s.root,
                    text: s.root_text,
                })
                &&& after.queue.last()->Load_cap == s.config.entry_cap
                &&& after.queue.last()->Load_id == s.next_id
                &&& after.pending_loads == s.pending_loads.insert(path, s.next_id)
                &&& after.selected == s.selected
                &&& after.scroll == s.scroll
            }
            &&& directory && !s.tree[path].loaded && !room ==> !asked && after.tree == s.tree
        }),
{
    let (after, asked) = expand_requested(s, path, text);
    if asked {
        assert(after.queue.drop_last() =~= s.queue);
    }
}

/// Collapsing a directory hides what is below it, forgets nothing of it, and
/// touches no other.
pub proof fn law_collapsing(s: SidebarState, path: Seq<Part>, other: Seq<Part>)
    requires
        s.tree.contains_key(path),
    ensures
        ({
            let after = collapsed(s, path);
            let node = after.tree[path];
            &&& !node.expanded
            &&& !node.loading
            &&& node == (NodeView { expanded: false, loading: false, ..s.tree[path] })
            &&& after.tree.dom() =~= s.tree.dom()
            &&& other != path && s.tree.contains_key(other) ==> after.tree[other] == s.tree[other]
            &&& !after.pending_loads.contains_key(path)
            &&& after.queue == s.queue
            &&& after.selected == s.selected
        }),
{
    assert(collapsed(s, path).tree.dom() =~= s.tree.dom());
}

/// What is collapsed and expanded again is as it was, once it has been listed.
pub proof fn law_collapse_and_expand(s: SidebarState, path: Seq<Part>, text: Seq<u8>)
    requires
        s.tree.contains_key(path),
        s.tree[path].kind.is_directory(),
        s.tree[path].loaded,
        s.tree[path].expanded,
        !s.tree[path].loading,
    ensures
        expand_requested(collapsed(s, path), path, text).0.tree =~= s.tree,
        all_rows(expand_requested(collapsed(s, path), path, text).0) == all_rows(s),
{
    let node = s.tree[path];
    let closed = collapsed(s, path);
    let opened = expand_requested(closed, path, text).0;
    assert(closed.tree[path] == NodeView { expanded: false, loading: false, ..node });
    assert(opened.tree[path] == node);
    assert(opened.tree =~= s.tree);
}

/// Whether some row behind row `i` shows `path`.
pub open spec fn is_shown_behind(rows: Seq<RowView>, i: int, path: Seq<Part>) -> bool {
    exists|j: int| i < j < rows.len() && (#[trigger] rows[j]).path == path
}

proof fn lemma_shown_at(tree: Tree, selected: Option<Seq<Part>>, path: Seq<Part>, depth: nat)
    requires
        tree_ok(tree),
        children_known(tree),
    ensures
        forall|i: int, k: int|
            #![trigger
                rows_at(tree, selected, path, depth)[i],
                tree[rows_at(tree, selected, path, depth)[i].path].children[k]]
            0 <= i < rows_at(tree, selected, path, depth).len() && tree[rows_at(
                tree,
                selected,
                path,
                depth,
            )[i].path].expanded && 0 <= k < tree[rows_at(
                tree,
                selected,
                path,
                depth,
            )[i].path].children.len() ==> is_shown_behind(
                rows_at(tree, selected, path, depth),
                i,
                tree[rows_at(tree, selected, path, depth)[i].path].children[k],
            ),
        tree.contains_key(path) ==> rows_at(tree, selected, path, depth).len() > 0 && rows_at(
            tree,
            selected,
            path,
            depth,
        )[0].path == path,
    decreases deepest(tree) + 1 - path.len(), 0nat,
{
    let rows = rows_at(tree, selected, path, depth);
    if tree.contains_key(path) {
        lemma_deepest(tree, path);
        let first = row_of(tree[path], path, depth, selected == Some(path));
        if tree[path].expanded {
            let children = tree[path].children;
            let below = rows_below(tree, selected, children, path.len() + 1, depth + 1);
            assert forall|i: int| 0 <= i < children.len() implies (#[trigger] children[i]).len()
                == path.len() + 1 && tree.contains_key(children[i]) by {
                assert(parent_of(tree[path].children[i]) == Some(path));
                assert(tree.contains_key(tree[path].children[i]));
                assert(children[i].drop_last().len() == children[i].len() - 1);
            }
            lemma_shown_below(tree, selected, children, path.len() + 1, depth + 1);
            assert(rows == seq![first] + below);
            assert forall|i: int, k: int|
                #![trigger rows[i], tree[rows[i].path].children[k]]
                0 <= i < rows.len() && tree[rows[i].path].expanded && 0 <= k
                    < tree[rows[i].path].children.len() implies is_shown_behind(
                rows,
                i,
                tree[rows[i].path].children[k],
            ) by {
                let child = tree[rows[i].path].children[k];
                if i == 0 {
                    assert(rows[0] == first);
                    assert(children[k] == child);
                    let j = choose|j: int| 0 <= j < below.len() && (#[trigger] below[j]).path == child;
                    assert(rows[j + 1] == below[j]);
                } else {
                    assert(rows[i] == below[i - 1]);
                    assert(is_shown_behind(below, i - 1, tree[below[i - 1].path].children[k]));
                    let j = choose|j: int| i - 1 < j < below.len() && (#[trigger] below[j]).path == child;
                    assert(rows[j + 1] == below[j]);
                }
            }
        } else {
            assert(rows == seq![first]);
        }
    }
}

proof fn lemma_shown_below(
    tree: Tree,
    selected: Option<Seq<Part>>,
    paths: Seq<Seq<Part>>,
    length: nat,
    depth: nat,
)
    requires
        tree_ok(tree),
        children_known(tree),
        forall|i: int|
            0 <= i < paths.len() ==> (#[trigger] paths[i]).len() == length && tree.contains_key(
                paths[i],
            ),
    ensures
        ({
            let rows = rows_below(tree, selected, paths, length, depth);
            &&& forall|i: int, k: int|
                #![trigger rows[i], tree[rows[i].path].children[k]]
                0 <= i < rows.len() && tree[rows[i].path].expanded && 0 <= k
                    < tree[rows[i].path].children.len() ==> is_shown_behind(
                    rows,
                    i,
                    tree[rows[i].path].children[k],
                )
            &&& forall|n: int|
                0 <= n < paths.len() ==> exists|j: int|
                    0 <= j < rows.len() && (#[trigger] rows[j]).path == #[trigger] paths[n]
        }),
    decreases deepest(tree) + 1 - length, paths.len(),
{
    if paths.len() > 0 {
        let front = paths.drop_last();
        let last = paths.last();
        let rows = rows_below(tree, selected, paths, length, depth);
        let before = rows_below(tree, selected, front, length, depth);
        let own = rows_at(tree, selected, last, depth);
        assert forall|i: int| 0 <= i < front.len() implies (#[trigger] front[i]).len() == length
            && tree.contains_key(front[i]) by {
            assert(front[i] == paths[i]);
        }
        assert(paths[paths.len() - 1] == last);
        lemma_shown_below(tree, selected, front, length, depth);
        lemma_shown_at(tree, selected, last, depth);
        assert(rows == before + own);
        assert forall|i: int, k: int|
            #![trigger rows[i], tree[rows[i].path].children[k]]
            0 <= i < rows.len() && tree[rows[i].path].expanded && 0 <= k
                < tree[rows[i].path].children.len() implies is_shown_behind(
            rows,
            i,
            tree[rows[i].path].children[k],
        ) by {
            let child = tree[rows[i].path].children[k];
            let n = before.len() as int;
            if i < n {
                assert(rows[i] == before[i]);
                assert(is_shown_behind(before, i, tree[before[i].path].children[k]));
                let j = choose|j: int| i < j < before.len() && (#[trigger] before[j]).path == child;
                assert(rows[j] == before[j]);
            } else {
                assert(rows[i] == own[i - n]);
                assert(is_shown_behind(own, i - n, tree[own[i - n].path].children[k]));
                let j = choose|j: int| i - n < j < own.len() && (#[trigger] own[j]).path == child;
                assert(rows[n + j] == own[j]);
            }
        }
        assert forall|m: int| 0 <= m < paths.len() implies exists|j: int|
            0 <= j < rows.len() && (#[trigger] rows[j]).path == #[trigger] paths[m] by {
            if m < front.len() {
                assert(front[m] == paths[m]);
                let j = choose|j: int| 0 <= j < before.len() && (#[trigger] before[j]).path == front[m];
                assert(rows[j] == before[j]);
            } else {
                assert(own[0].path == last);
                assert(rows[before.len() as int] == own[0]);
            }
        }
    }
}

/// The first row is the root, and behind every directory that is expanded each
/// of its entries has a row.
pub proof fn law_expanded_rows_show_their_entries(s: SidebarState, i: int, k: int)
    requires
        is_valid(s),
        0 <= i < all_rows(s).len(),
        s.tree[all_rows(s)[i].path].expanded,
        0 <= k < s.tree[all_rows(s)[i].path].children.len(),
    ensures
        is_shown_behind(all_rows(s), i, s.tree[all_rows(s)[i].path].children[k]),
        all_rows(s)[0].path == s.root,
        all_rows(s)[0].depth == 0,
{
    lemma_shown_at(s.tree, s.selected, s.root, 0);
    let rows = rows_at(s.tree, s.selected, s.root, 0);
    assert(rows[i] == all_rows(s)[i]);
    let child = s.tree[rows[i].path].children[k];
    assert(is_shown_behind(rows, i, child));
}

/// Activating a directory expands it when it is collapsed and collapses it when
/// it is expanded.
pub proof fn law_activating_a_directory(s: SidebarState, path: Seq<Part>)
    requires
        s.selected == Some(path),
        s.tree.contains_key(path),
        s.tree[path].kind == EntryKind::Directory || s.tree[path].kind
            == EntryKind::SymlinkDirectory,
    ensures
        s.tree[path].expanded ==> !activated(s).0.tree[path].expanded,
        !s.tree[path].expanded && (s.tree[path].loaded || (!s.worker_lost && s.queue.len()
            < s.config.channel_capacity)) ==> activated(s).0.tree[path].expanded,
{
}

} // verus!
