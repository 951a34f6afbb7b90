//! How what the sidebar asks for is numbered and written, and what becomes of
//! answers that come too late.

use vstd::prelude::*;
use vstd::string::*;

use crate::jobs::{JobView, MutationView};
use crate::listing::ListingView;
use crate::path::{parent_bytes, parent_of, Part, WrittenPath};
use crate::runtime_replies::{launched, LaunchFacts, LayoutLoad, TrustLoad};
use crate::state::{
    expand_requested, git_requested, load_applied, mutation_requested, nearest_known, nearest_text,
    reload_requested, selection_text_restored, targets_from, SidebarState,
};
use crate::tree::{EntryKind, Tree};
use crate::watch_laws::{has_place, was_listed};
use crate::workbench::LaunchMode;

verus! {

/// The number that comes after another. No request has the number zero.
pub open spec fn follows(next: u64, id: u64) -> bool {
    if id < u64::MAX {
        next == id + 1
    } else {
        next == 1
    }
}

/// Each request takes a number of its own, so that its answer can be told from
/// the answers to all others; one that is not made for want of anything to do
/// takes none.
pub proof fn law_requests_are_numbered(
    s: SidebarState,
    path: Seq<Part>,
    text: Seq<u8>,
    mutation: MutationView,
    now: u128,
)
    requires
        s.tree.contains_key(path),
        s.tree[path].kind == EntryKind::Directory,
        !s.worker_lost,
    ensures
        ({
            let opened = expand_requested(s, path, text).0;
            let listed = reload_requested(s, path, text).0;
            let looked = git_requested(s, now).0;
            let changed = mutation_requested(s, mutation).0;
            &&& !s.tree[path].loaded ==> follows(opened.next_id, s.next_id)
            &&& s.tree[path].loaded ==> opened.next_id == s.next_id
            &&& s.tree[path].loaded ==> follows(listed.next_id, s.next_id)
            &&& s.pending_git is None ==> follows(looked.next_id, s.next_id)
            &&& s.pending_git is Some ==> looked == s
            &&& s.pending_mutation is None ==> follows(changed.next_id, s.next_id)
            &&& s.pending_mutation is Some ==> changed == s
        }),
{
}

/// A listing is asked for by the path and its bytes, below the root that is
/// shown, with the cap that was set.
pub proof fn law_listing_is_asked_for(s: SidebarState, path: Seq<Part>, text: Seq<u8>)
    requires
        s.tree.contains_key(path),
        s.tree[path].kind == EntryKind::Directory || s.tree[path].kind
            == EntryKind::SymlinkDirectory,
        has_place(s),
    ensures
        ({
            let after = if s.tree[path].loaded {
                reload_requested(s, path, text).0
            } else {
                expand_requested(s, path, text).0
            };
            &&& after.queue.len() == s.queue.len() + 1
            &&& after.queue.last() matches JobView::Load { id, path: asked, root, cap, .. }
                && id == s.next_id && asked == (WrittenPath { path, text }) && root == (
            WrittenPath { path: s.root, text: s.root_text }) && cap == s.config.entry_cap
            &&& after.pending_loads.contains_key(path)
            &&& after.pending_loads[path] == s.next_id
        }),
{
}

/// A listing is told where the directories above it really are, up to the root
/// and no further, so that a link to one of them is found; the directory itself
/// is not among them.
pub proof fn law_listing_knows_the_directories_above(
    s: SidebarState,
    path: Seq<Part>,
    text: Seq<u8>,
    above: Seq<Part>,
)
    requires
        s.tree.contains_key(path),
        s.tree[path].kind == EntryKind::Directory,
        !s.tree[path].loaded,
        has_place(s),
        path.len() > 0,
        path.last() is Normal,
        s.root.len() <= above.len() < path.len(),
        path.take(above.len() as int) == above,
        path.take(s.root.len() as int) == s.root,
        forall|k: int| s.root.len() <= k < path.len() ==> (#[trigger] path[k]) is Normal,
        s.tree.contains_key(above),
        s.tree[above].canonical_dir is Some,
    ensures
        expand_requested(s, path, text).0.queue.last()->Load_ancestor_targets.contains(
            s.tree[above].canonical_dir->0,
        ),
        expand_requested(s, path, text).0.queue.last()->Load_ancestor_targets.len() <= path.len()
            - s.root.len(),
{
    let parent = path.drop_last();
    assert(parent.take(above.len() as int) =~= path.take(above.len() as int));
    assert(parent.take(s.root.len() as int) =~= path.take(s.root.len() as int));
    assert forall|k: int| s.root.len() <= k < parent.len() implies (
    #[trigger] parent[k]) is Normal by {
        assert(parent[k] == path[k]);
    }
    lemma_target_known(s.tree, s.root, parent, above);
    lemma_target_count(s.tree, s.root, parent);
}

proof fn lemma_target_count(tree: Tree, root: Seq<Part>, path: Seq<Part>)
    requires
        root.len() <= path.len(),
        path.take(root.len() as int) == root,
    ensures
        targets_from(tree, root, Some(path)).len() <= path.len() - root.len() + 1,
    decreases path.len(),
{
    if path.len() == root.len() {
        assert(path.take(root.len() as int) =~= path);
    } else if parent_of(path) is Some {
        let parent = path.drop_last();
        assert(parent.take(root.len() as int) =~= path.take(root.len() as int));
        lemma_target_count(tree, root, parent);
    } else {
        assert(targets_from(tree, root, parent_of(path)).len() == 0);
    }
}

proof fn lemma_target_known(tree: Tree, root: Seq<Part>, path: Seq<Part>, above: Seq<Part>)
    requires
        root.len() <= above.len() <= path.len(),
        path.take(above.len() as int) == above,
        path.take(root.len() as int) == root,
        forall|k: int| root.len() <= k < path.len() ==> (#[trigger] path[k]) is Normal,
        tree.contains_key(above),
        tree[above].canonical_dir is Some,
    ensures
        targets_from(tree, root, Some(path)).contains(tree[above].canonical_dir->0),
    decreases path.len(),
{
    let targets = targets_from(tree, root, Some(path));
    let wanted = tree[above].canonical_dir->0;
    if path.len() == above.len() {
        assert(path.take(above.len() as int) =~= path);
        assert(targets[0] == wanted);
    } else {
        assert(path != root) by {
            assert(path.len() > root.len());
        }
        let parent = path.drop_last();
        assert(path.last() is Normal);
        assert(parent.take(above.len() as int) =~= path.take(above.len() as int));
        assert(parent.take(root.len() as int) =~= path.take(root.len() as int));
        assert forall|k: int| root.len() <= k < parent.len() implies (
        #[trigger] parent[k]) is Normal by {
            assert(parent[k] == path[k]);
        }
        lemma_target_known(tree, root, parent, above);
        let rest = targets_from(tree, root, parent_of(path));
        let i = rest.index_of(wanted);
        let shift = targets.len() - rest.len();
        assert(targets[shift + i] == rest[i]);
    }
}

/// An answer on a directory that is gone is laid aside: nothing is shown of it,
/// and the directory no longer counts as being listed.
pub proof fn law_late_listing_is_laid_aside(
    s: SidebarState,
    id: u64,
    path: Seq<Part>,
    text: Seq<u8>,
    result: Result<ListingView, Seq<char>>,
)
    requires
        s.pending_loads.contains_key(path),
        s.pending_loads[path] == id,
        !s.tree.contains_key(path),
    ensures
        load_applied(s, id, path, text, result).0 == (SidebarState {
            pending_loads: s.pending_loads.remove(path),
            ..s
        }),
        !load_applied(s, id, path, text, result).1,
{
}

/// Where the selection goes up, its bytes go with it, name by name; where none
/// of its directories is known any more, it is the root's.
pub proof fn law_selected_bytes_follow(s: SidebarState, tree: Tree, path: Seq<Part>)
    requires
        s.selected == Some(path),
        s.selected_text is Some,
    ensures
        ({
            let text = s.selected_text->0;
            let above = SidebarState {
                selected: parent_of(path),
                selected_text: Some(parent_bytes(text)),
                ..s
            };
            let after = selection_text_restored(tree, s);
            &&& tree.contains_key(path) ==> after == Some(text)
            &&& !tree.contains_key(path) && parent_of(path) is Some ==> after
                == selection_text_restored(tree, above)
            &&& !tree.contains_key(path) && parent_of(path) is Some && tree.contains_key(
                parent_of(path)->0,
            ) ==> after == Some(parent_bytes(text))
            &&& !tree.contains_key(path) && parent_of(path) is None ==> after == Some(s.root_text)
        }),
{
    reveal_with_fuel(nearest_known, 3);
    reveal_with_fuel(nearest_text, 3);
}

/// An operation that is turned down says why: another is under way, the worker
/// is gone, or the worker has enough to do.
pub proof fn law_refused_operation_says_why(s: SidebarState, mutation: MutationView)
    ensures
        ({
            let answer = mutation_requested(s, mutation).1;
            &&& s.pending_mutation is Some ==> answer == Err::<(), Seq<char>>(
                "a sidebar file operation is already pending"@,
            )
            &&& s.pending_mutation is None && s.worker_lost ==> answer == Err::<(), Seq<char>>(
                "sidebar worker is unavailable"@,
            )
            &&& s.pending_mutation is None && !s.worker_lost && s.queue.len()
                >= s.config.channel_capacity ==> answer == Err::<(), Seq<char>>(
                "sidebar worker is busy"@,
            )
        }),
{
}

/// A worker that is gone is told where the repository would be told, and not
/// asked again for it.
pub proof fn law_lost_worker_is_told(s: SidebarState, path: Seq<Part>, text: Seq<u8>, now: u128)
    requires
        s.worker_lost,
        s.pending_git is None,
    ensures
        ({
            let (after, asked) = git_requested(s, now);
            let again = reload_requested(s, path, text).0;
            &&& !asked
            &&& after.git_error == Some("sidebar worker is unavailable"@)
            &&& !after.git_refresh_due
            &&& after.queue == s.queue
            &&& was_listed(s.tree, path) && s.tree[path].kind == EntryKind::Directory
                ==> again.git_error == Some("sidebar worker is unavailable"@) && again.queue
                == s.queue
        }),
{
}

/// The tree begins with its root, closed over nothing: a directory by its last
/// name, which really is where it is.
pub proof fn law_tree_begins_with_its_root(mode: LaunchMode, facts: LaunchFacts, now: u128)
    requires
        mode is Workbench,
        facts.worker is Ok,
    ensures
        ({
            let root = facts.root.spelled();
            let sidebar = launched(mode, facts, now).0.sidebar->0;
            let node = sidebar.tree[root.path];
            &&& forall|path: Seq<Part>| #[trigger]
                sidebar.tree.contains_key(path) <==> path == root.path
            &&& node.text == root.text
            &&& node.kind == EntryKind::Directory
            &&& node.canonical_dir == Some(root)
            &&& node.children.len() == 0
            &&& node.error is None
            &&& !node.loaded
            &&& node.loading
            &&& !node.synthetic_deleted
            &&& node.git.status is None
            &&& !node.git.dirty_descendant
            &&& root.path.len() > 0 && root.path.last() is Normal ==> node.name
                == root.path.last()->Normal_0
        }),
{
}

/// What could not be read at the start is told, trust before the layout, and
/// nothing is told where all went well.
pub proof fn law_trouble_at_the_start_is_told(
    mode: LaunchMode,
    facts: LaunchFacts,
    now: u128,
    error: Seq<char>,
)
    ensures
        ({
            let s = launched(mode, facts, now).0;
            let workbench = mode == LaunchMode::Workbench;
            let agent = workbench || mode == LaunchMode::Pi;
            let unknown = agent && !(facts.trust is Resolved);
            &&& agent && ((facts.trust matches TrustLoad::Unavailable(why) && why@ == error) || (
            facts.trust matches TrustLoad::Unresolved(why) && why@ == error)) ==> s.status == Some(
                "workspace trust unavailable: "@ + error,
            ) && s.trust_status_message == s.status
            &&& !unknown ==> s.trust_status_message is None
            &&& !unknown && workbench && (facts.saved matches LayoutLoad::Unavailable(why) && why@
                == error) ==> s.status == Some("layout persistence unavailable: "@ + error)
            &&& !unknown && workbench && (facts.saved matches LayoutLoad::Ignored(why) && why@
                == error) ==> s.status == Some("saved layout ignored: "@ + error)
            &&& !unknown && (!workbench || (!(facts.saved is Unavailable) && !(facts.saved
                is Ignored))) ==> s.status is None
        }),
{
}

} // verus!
