//! What the visible rows promise.

use vstd::prelude::*;

use crate::jobs::ActivationView;
use crate::path::{is_under, parent_of, Part, WrittenPath};
use crate::state::{activated, all_rows, is_valid, row_paths, row_selected, window, SidebarState};
use crate::tree::{
    deepest, lemma_deepest, lists_once, row_of, rows_at, rows_below, tree_ok, EntryKind, RowView,
    Tree,
};

verus! {

/// Whether `above` is the row of the directory that lists `row`: expanded, and
/// one step less deep.
pub open spec fn is_parent_row(above: RowView, row: RowView) -> bool {
    parent_of(row.path) == Some(above.path) && above.expanded && row.depth == above.depth + 1
}

/// Whether the row of the directory that lists row `i` stands before it.
pub open spec fn follows_parent(rows: Seq<RowView>, i: int) -> bool {
    exists|j: int| 0 <= j < i && is_parent_row(#[trigger] rows[j], rows[i])
}

proof fn lemma_parents_at(tree: Tree, selected: Option<Seq<Part>>, path: Seq<Part>, depth: nat)
    requires
        tree_ok(tree),
    ensures
        ({
            let rows = rows_at(tree, selected, path, depth);
            &&& rows.len() > 0 ==> rows[0].path == path && rows[0].depth == depth
            &&& forall|i: int| 0 < i < rows.len() ==> #[trigger] follows_parent(rows, i)
        }),
    decreases deepest(tree) + 1 - path.len(), 0nat,
{
    let rows = rows_at(tree, selected, path, depth);
    if tree.contains_key(path) && path.len() <= deepest(tree) && tree[path].expanded {
        let children = tree[path].children;
        lemma_parents_below(tree, selected, children, path.len() + 1, depth + 1);
        let below = rows_below(tree, selected, children, path.len() + 1, depth + 1);
        assert forall|i: int| 0 < i < rows.len() implies #[trigger] follows_parent(rows, i) by {
            assert(rows[i] == below[i - 1]);
            if follows_parent(below, i - 1) {
                let j = choose|j: int|
                    0 <= j < i - 1 && is_parent_row(#[trigger] below[j], below[i - 1]);
                assert(is_parent_row(rows[j + 1], rows[i]));
            } else {
                let k = children.index_of(below[i - 1].path);
                assert(parent_of(tree[path].children[k]) == Some(path));
                assert(is_parent_row(rows[0], rows[i]));
            }
        }
    }
}

proof fn lemma_parents_below(
    tree: Tree,
    selected: Option<Seq<Part>>,
    paths: Seq<Seq<Part>>,
    length: nat,
    depth: nat,
)
    requires
        tree_ok(tree),
    ensures
        ({
            let rows = rows_below(tree, selected, paths, length, depth);
            forall|i: int|
                0 <= i < rows.len() ==> (#[trigger] follows_parent(rows, i) || (rows[i].depth
                    == depth && paths.contains(rows[i].path)))
        }),
    decreases deepest(tree) + 1 - length, paths.len(),
{
    if paths.len() > 0 {
        let front = paths.drop_last();
        let last = paths.last();
        lemma_parents_below(tree, selected, front, length, depth);
        let before = rows_below(tree, selected, front, length, depth);
        let rows = rows_below(tree, selected, paths, length, depth);
        if last.len() == length {
            lemma_parents_at(tree, selected, last, depth);
        }
        let own = rows_at(tree, selected, last, depth);
        assert forall|i: int| 0 <= i < rows.len() implies (#[trigger] follows_parent(rows, i) || (
        rows[i].depth == depth && paths.contains(rows[i].path))) by {
            if i < before.len() {
                assert(rows[i] == before[i]);
                if follows_parent(before, i) {
                    let j = choose|j: int|
                        0 <= j < i && is_parent_row(#[trigger] before[j], before[i]);
                    assert(is_parent_row(rows[j], rows[i]));
                } else {
                    let k = front.index_of(before[i].path);
                    assert(paths[k] == rows[i].path);
                }
            } else {
                let n = before.len() as int;
                assert(rows[i] == own[i - n]);
                if i == n {
                    assert(paths[paths.len() - 1] == rows[i].path);
                } else {
                    assert(follows_parent(own, i - n));
                    let j = choose|j: int|
                        0 <= j < i - n && is_parent_row(#[trigger] own[j], own[i - n]);
                    assert(rows[j + n] == own[j]);
                    assert(is_parent_row(rows[j + n], rows[i]));
                }
            }
        }
    }
}

/// The first row is the root, at depth zero, and every other row stands behind
/// the row of its directory, which is expanded and one step less deep.
pub proof fn law_rows_follow_their_directories(s: SidebarState)
    requires
        is_valid(s),
    ensures
        all_rows(s).len() > 0,
        all_rows(s)[0].path == s.root,
        all_rows(s)[0].depth == 0,
        forall|i: int| 0 < i < all_rows(s).len() ==> #[trigger] follows_parent(all_rows(s), i),
{
    lemma_deepest(s.tree, s.root);
    lemma_parents_at(s.tree, s.selected, s.root, 0);
}

/// A lower viewport shows the first rows of a higher one.
pub proof fn law_lower_viewport_is_a_prefix(s: SidebarState, low: nat, high: nat)
    requires
        low <= high,
    ensures
        ({
            let short = window(all_rows(s), s.scroll, low);
            let long = window(all_rows(s), s.scroll, high);
            &&& short.len() <= low
            &&& short.len() <= long.len()
            &&& short == long.take(short.len() as int)
            &&& short.len() < low ==> short == long
        }),
{
    let short = window(all_rows(s), s.scroll, low);
    let long = window(all_rows(s), s.scroll, high);
    assert(short =~= long.take(short.len() as int));
    if short.len() < low {
        assert(short =~= long);
    }
}

proof fn lemma_siblings_apart(path: Seq<Part>, left: Seq<Part>, right: Seq<Part>)
    requires
        is_under(path, left),
        is_under(path, right),
        left.len() == right.len(),
    ensures
        left == right,
{
}

/// Whether each path has one row, and the selected one is marked.
spec fn apart(rows: Seq<RowView>, selected: Option<Seq<Part>>) -> bool {
    &&& row_paths(rows).no_duplicates()
    &&& forall|i: int|
        0 <= i < rows.len() ==> (#[trigger] rows[i]).selected == (selected == Some(rows[i].path))
}

proof fn lemma_apart_at(tree: Tree, selected: Option<Seq<Part>>, path: Seq<Part>, depth: nat)
    requires
        tree_ok(tree),
        lists_once(tree),
    ensures
        apart(rows_at(tree, selected, path, depth), selected),
        forall|i: int|
            0 <= i < rows_at(tree, selected, path, depth).len() ==> is_under(
                (#[trigger] rows_at(tree, selected, path, depth)[i]).path,
                path,
            ),
    decreases deepest(tree) + 1 - path.len(), 0nat,
{
    let rows = rows_at(tree, selected, path, depth);
    assert(path.take(path.len() as int) =~= path);
    if tree.contains_key(path) && path.len() <= deepest(tree) && tree[path].expanded {
        let children = tree[path].children;
        assert forall|i: int| 0 <= i < children.len() implies parent_of(#[trigger] children[i])
            == Some(path) by {
            assert(parent_of(tree[path].children[i]) == Some(path));
        }
        lemma_apart_below(tree, selected, children, path, depth + 1);
        let below = rows_below(tree, selected, children, path.len() + 1, depth + 1);
        let first = row_of(tree[path], path, depth, selected == Some(path));
        assert(rows =~= seq![first] + below);
        assert forall|i: int| 0 <= i < rows.len() implies is_under(
            (#[trigger] rows[i]).path,
            path,
        ) by {
            if i > 0 {
                assert(rows[i] == below[i - 1]);
                let k = choose|k: int|
                    0 <= k < children.len() && is_under(below[i - 1].path, #[trigger] children[k]);
                assert(children[k].drop_last() == path);
                assert(rows[i].path.take(path.len() as int) =~= children[k].take(
                    path.len() as int,
                ));
            }
        }
        assert forall|i: int, j: int| 0 <= i < j < rows.len() implies row_paths(rows)[i]
            != row_paths(rows)[j] by {
            assert(rows[j] == below[j - 1]);
            if i == 0 {
                let k = choose|k: int|
                    0 <= k < children.len() && is_under(below[j - 1].path, #[trigger] children[k]);
                assert(children[k].drop_last() == path);
            } else {
                assert(rows[i] == below[i - 1]);
                assert(row_paths(below)[i - 1] != row_paths(below)[j - 1]);
            }
        }
    }
}

proof fn lemma_apart_below(
    tree: Tree,
    selected: Option<Seq<Part>>,
    paths: Seq<Seq<Part>>,
    parent: Seq<Part>,
    depth: nat,
)
    requires
        tree_ok(tree),
        lists_once(tree),
        paths.no_duplicates(),
        forall|i: int| 0 <= i < paths.len() ==> parent_of(#[trigger] paths[i]) == Some(parent),
    ensures
        ({
            let rows = rows_below(tree, selected, paths, parent.len() + 1, depth);
            &&& apart(rows, selected)
            &&& forall|i: int|
                0 <= i < rows.len() ==> exists|k: int|
                    0 <= k < paths.len() && is_under((#[trigger] rows[i]).path, #[trigger] paths[k])
        }),
    decreases deepest(tree) + 1 - (parent.len() + 1), paths.len(),
{
    let length = parent.len() + 1;
    let rows = rows_below(tree, selected, paths, length, depth);
    if paths.len() > 0 {
        let front = paths.drop_last();
        let last = paths.last();
        assert forall|i: int| 0 <= i < front.len() implies parent_of(#[trigger] front[i]) == Some(
            parent,
        ) by {
            assert(front[i] == paths[i]);
        }
        lemma_apart_below(tree, selected, front, parent, depth);
        let before = rows_below(tree, selected, front, length, depth);
        let n = before.len() as int;
        assert(parent_of(paths[paths.len() - 1]) == Some(parent));
        assert(last.drop_last() == parent);
        assert(last.len() == length);
        lemma_apart_at(tree, selected, last, depth);
        let own = rows_at(tree, selected, last, depth);
        assert(rows == before + own);
        assert forall|i: int| 0 <= i < rows.len() implies exists|k: int|
            0 <= k < paths.len() && is_under((#[trigger] rows[i]).path, #[trigger] paths[k]) by {
            if i < n {
                assert(rows[i] == before[i]);
                let k = choose|k: int|
                    0 <= k < front.len() && is_under(before[i].path, #[trigger] front[k]);
                assert(is_under(rows[i].path, paths[k]));
            } else {
                assert(rows[i] == own[i - n]);
                assert(is_under(rows[i].path, paths[paths.len() - 1]));
            }
        }
        assert forall|i: int, j: int| 0 <= i < j < rows.len() implies row_paths(rows)[i]
            != row_paths(rows)[j] by {
            if j < n {
                assert(row_paths(before)[i] != row_paths(before)[j]);
            } else if i >= n {
                assert(row_paths(own)[i - n] != row_paths(own)[j - n]);
            } else {
                assert(rows[i] == before[i] && rows[j] == own[j - n]);
                let k = choose|k: int|
                    0 <= k < front.len() && is_under(before[i].path, #[trigger] front[k]);
                assert(parent_of(front[k]) == Some(parent));
                assert(front[k].drop_last() == parent);
                if rows[i].path == rows[j].path {
                    lemma_siblings_apart(rows[i].path, front[k], last);
                    assert(paths[k] == paths[paths.len() - 1]);
                }
            }
        }
    }
}

/// No path has two rows, and at most one row is selected: the one whose path is.
pub proof fn law_at_most_one_row_is_selected(s: SidebarState)
    requires
        is_valid(s),
    ensures
        row_paths(all_rows(s)).no_duplicates(),
        forall|i: int|
            0 <= i < all_rows(s).len() ==> (#[trigger] all_rows(s)[i]).selected == (s.selected
                == Some(all_rows(s)[i].path)),
        forall|i: int, j: int|
            0 <= i < all_rows(s).len() && 0 <= j < all_rows(s).len() && (
            #[trigger] all_rows(s)[i]).selected && (#[trigger] all_rows(s)[j]).selected ==> i == j,
{
    lemma_apart_at(s.tree, s.selected, s.root, 0);
    let rows = all_rows(s);
    assert forall|i: int, j: int|
        0 <= i < rows.len() && 0 <= j < rows.len() && (#[trigger] rows[i]).selected && (
        #[trigger] rows[j]).selected implies i == j by {
        assert(row_paths(rows)[i] == row_paths(rows)[j]);
    }
}

/// Whether a row shows what is known of its path.
pub open spec fn shows_its_node(tree: Tree, selected: Option<Seq<Part>>, row: RowView) -> bool {
    &&& tree.contains_key(row.path)
    &&& row == row_of(tree[row.path], row.path, row.depth, selected == Some(row.path))
}

proof fn lemma_nodes_at(tree: Tree, selected: Option<Seq<Part>>, path: Seq<Part>, depth: nat)
    ensures
        forall|i: int|
            0 <= i < rows_at(tree, selected, path, depth).len() ==> shows_its_node(
                tree,
                selected,
                #[trigger] rows_at(tree, selected, path, depth)[i],
            ),
    decreases deepest(tree) + 1 - path.len(), 0nat,
{
    if tree.contains_key(path) && path.len() <= deepest(tree) && tree[path].expanded {
        let children = tree[path].children;
        lemma_nodes_below(tree, selected, children, path.len() + 1, depth + 1);
        let rows = rows_at(tree, selected, path, depth);
        let below = rows_below(tree, selected, children, path.len() + 1, depth + 1);
        assert forall|i: int| 0 <= i < rows.len() implies shows_its_node(
            tree,
            selected,
            #[trigger] rows[i],
        ) by {
            if i > 0 {
                assert(rows[i] == below[i - 1]);
            }
        }
    }
}

proof fn lemma_nodes_below(
    tree: Tree,
    selected: Option<Seq<Part>>,
    paths: Seq<Seq<Part>>,
    length: nat,
    depth: nat,
)
    ensures
        forall|i: int|
            0 <= i < rows_below(tree, selected, paths, length, depth).len() ==> shows_its_node(
                tree,
                selected,
                #[trigger] rows_below(tree, selected, paths, length, depth)[i],
            ),
    decreases deepest(tree) + 1 - length, paths.len(),
{
    if paths.len() > 0 {
        let rows = rows_below(tree, selected, paths, length, depth);
        let before = rows_below(tree, selected, paths.drop_last(), length, depth);
        let own = rows_at(tree, selected, paths.last(), depth);
        lemma_nodes_below(tree, selected, paths.drop_last(), length, depth);
        if paths.last().len() == length {
            lemma_nodes_at(tree, selected, paths.last(), depth);
            assert(rows == before + own);
        } else {
            assert(rows == before);
        }
        assert forall|i: int| 0 <= i < rows.len() implies shows_its_node(
            tree,
            selected,
            #[trigger] rows[i],
        ) by {
            if i < before.len() {
                assert(rows[i] == before[i]);
            } else {
                assert(rows[i] == own[i - before.len()]);
            }
        }
    }
}

/// Every row shows what is known of its path.
pub proof fn law_rows_show_their_nodes(s: SidebarState)
    ensures
        forall|i: int|
            0 <= i < all_rows(s).len() ==> shows_its_node(
                s.tree,
                s.selected,
                #[trigger] all_rows(s)[i],
            ),
{
    lemma_nodes_at(s.tree, s.selected, s.root, 0);
}

/// Selecting the row of a file that can be read and activating it opens the
/// file, under the bytes that the row's path is written with.
pub proof fn law_shown_file_is_opened(s: SidebarState, row: nat, height: nat)
    requires
        row < height,
        s.scroll + row < all_rows(s).len(),
    ensures
        ({
            let shown = all_rows(s)[(s.scroll + row) as int];
            shown.error is None && (shown.kind == EntryKind::File || shown.kind
                == EntryKind::Symlink) ==> activated(row_selected(s, row, height).0).1 == Some(
                ActivationView::OpenFile(WrittenPath { path: shown.path, text: shown.text }),
            )
        }),
{
    law_rows_show_their_nodes(s);
}

} // verus!
