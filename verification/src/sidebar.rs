//! The file sidebar: what it shows, what it asks of its worker, and how it
//! takes the replies.
//!
//! No operation waits. Jobs go into a bounded queue that the worker empties,
//! and requests are turned down while the queue is full. Replies come in
//! through [`Sidebar::tick`].

use vstd::prelude::*;
use vstd::string::*;

use crate::collections::{with_path, without_path, PathMap, PathSet};
use crate::decorate::{clear_git, lemma_tree_insert, reconcile_git};
use crate::git::{changes_view, GitChange, GitDecoration};
use crate::jobs::{
    activation_view, are_valid_responses, is_valid_response, jobs_view, responses_view,
    signals_view, unit_result, Job, JobView, MutationOutcome, Response, ResponseView,
    SidebarActivation, SidebarMutation, SidebarMutationCompletion, SignalView, WatchSignal,
};
use crate::listing::{apply_listing, LoadedDirectory};
use crate::path::{
    option_spelled, option_view, option_written, parent_of, paths_view, plain_paths, spelled_paths,
    Part, PathBuf, WrittenPath,
};
use crate::rooted::{
    lemma_cleared_rooted, lemma_listing_rooted, lemma_node_changed, lemma_reconciled_rooted,
};
use crate::state::{
    activated, all_dirty_handled, all_rows, collapsed, default_config, expand_requested, fresh,
    git_applied, git_requested, has_room, id_taken, initial_requested, is_rooted, is_valid, is_walk,
    listing_entered, load_applied, load_job, loaded_queued, mutation_applied, mutation_requested,
    nearest_known, nearest_loaded, nearest_text, path_marked, paths_marked, reconciliation_run,
    reload_requested, reload_resumed, reloads_scheduled, response_applied, responses_applied,
    row_paths, row_selected, scroll_showing, scrolled, selection_restored, selection_text_restored,
    signals_marked, spelled_root, spelled_selection, targets_from, ticked, tree_settled,
    watch_collected, watch_settled, window, SidebarConfig, SidebarState,
};
use crate::text::{copy_option, same_option, text_view};
use crate::tree::{flatten_rows, rows_view, tree_of, EntryKind, Node, NodeView, SidebarRow};

verus! {

impl Default for SidebarConfig {
    fn default() -> (config: SidebarConfig)
        ensures
            config == default_config(),
    {
        SidebarConfig {
            entry_cap: crate::git::DEFAULT_ENTRY_CAP,
            channel_capacity: 8,
            git_refresh_interval: 3_000_000_000,
            fs_debounce_interval: 150_000_000,
            fs_reconcile_interval: 5_000_000_000,
        }
    }
}

/// The sidebar.
pub struct Sidebar {
    root: PathBuf,
    config: SidebarConfig,
    nodes: PathMap<Node>,
    selected: Option<PathBuf>,
    scroll: usize,
    queue: Vec<Job>,
    worker_lost: bool,
    next_id: u64,
    pending_loads: PathMap<u64>,
    pending_git: Option<u64>,
    git_refresh_due: bool,
    last_git_request: u128,
    git_error: Option<String>,
    git_changes: Vec<GitChange>,
    dirty_dirs: PathSet,
    watch_dirty_since: Option<u128>,
    reload_after_pending: PathSet,
    next_fs_reconcile: u128,
    trust: bool,
    pending_mutation: Option<u64>,
    mutation_completion: Option<SidebarMutationCompletion>,
}

/// The completion in an option.
pub open spec fn completion_view(completion: Option<SidebarMutationCompletion>) -> Option<
    Result<(), Seq<char>>,
> {
    match completion {
        Some(completion) => Some(unit_result(completion.result)),
        None => None,
    }
}

impl View for Sidebar {
    type V = SidebarState;

    closed spec fn view(&self) -> SidebarState {
        SidebarState {
            root: self.root@,
            root_text: self.root.written(),
            config: self.config,
            tree: tree_of(self.nodes@),
            selected: option_view(self.selected),
            selected_text: option_written(self.selected),
            scroll: self.scroll as nat,
            queue: jobs_view(self.queue@),
            worker_lost: self.worker_lost,
            next_id: self.next_id,
            pending_loads: self.pending_loads@,
            pending_git: self.pending_git,
            git_refresh_due: self.git_refresh_due,
            last_git_request: self.last_git_request,
            git_error: text_view(self.git_error),
            git_changes: changes_view(self.git_changes@),
            dirty_dirs: self.dirty_dirs@,
            watch_dirty_since: self.watch_dirty_since,
            reload_after_pending: self.reload_after_pending@,
            next_fs_reconcile: self.next_fs_reconcile,
            trust: self.trust,
            pending_mutation: self.pending_mutation,
            mutation_completion: completion_view(self.mutation_completion),
        }
    }
}

/// Why the worker got no job.
enum Refusal {
    Full,
    Lost,
}

impl Sidebar {
    /// What holds of a sidebar at all times.
    pub closed spec fn wf(&self) -> bool {
        &&& self.nodes.wf()
        &&& self.pending_loads.wf()
        &&& is_valid(self@)
    }

    /// Whatever was done with a sidebar, its state is valid.
    pub proof fn law_sidebar_is_valid(&self)
        requires
            self.wf(),
        ensures
            is_valid(self@),
            self@.scroll <= usize::MAX,
    {
    }

    /// A sidebar with the default limits and no store of trust.
    pub fn new(root: PathBuf, now: u128) -> (sidebar: Sidebar)
        requires
            now + default_config().fs_reconcile_interval <= u128::MAX,
        ensures
            sidebar.wf(),
            sidebar@ == fresh(root@, root.written(), default_config(), false, now),
    {
        Sidebar::start(root, SidebarConfig::default(), false, now)
    }

    /// A sidebar with the default limits. `trust` says whether there is a store
    /// to ask for the workspace's trust.
    pub fn with_trust(root: PathBuf, trust: bool, now: u128) -> (sidebar: Sidebar)
        requires
            now + default_config().fs_reconcile_interval <= u128::MAX,
        ensures
            sidebar.wf(),
            sidebar@ == fresh(root@, root.written(), default_config(), trust, now),
    {
        Sidebar::start(root, SidebarConfig::default(), trust, now)
    }

    /// A sidebar with given limits and no store of trust.
    pub fn with_config(root: PathBuf, config: SidebarConfig, now: u128) -> (sidebar: Result<
        Sidebar,
        String,
    >)
        requires
            now + config.fs_reconcile_interval <= u128::MAX,
        ensures
            is_started(sidebar, root@, root.written(), config, false, now),
    {
        Sidebar::with_config_and_trust(root, config, false, now)
    }

    /// A sidebar with given limits, which must not be zero.
    pub fn with_config_and_trust(
        root: PathBuf,
        config: SidebarConfig,
        trust: bool,
        now: u128,
    ) -> (sidebar: Result<Sidebar, String>)
        requires
            now + config.fs_reconcile_interval <= u128::MAX,
        ensures
            is_started(sidebar, root@, root.written(), config, trust, now),
    {
        if config.entry_cap == 0 || config.channel_capacity == 0 {
            return Err("sidebar entry cap and channel capacity must be non-zero".to_owned());
        }
        Ok(Sidebar::start(root, config, trust, now))
    }

    fn start(root: PathBuf, config: SidebarConfig, trust: bool, now: u128) -> (sidebar: Sidebar)
        requires
            config.entry_cap > 0,
            config.channel_capacity > 0,
            now + config.fs_reconcile_interval <= u128::MAX,
        ensures
            sidebar.wf(),
            sidebar@ == fresh(root@, root.written(), config, trust, now),
    {
        let name: Vec<u8> = match root.file_name() {
            Some(name) => name,
            None => root.to_bytes(),
        };
        let node = Node {
            text: root.to_bytes(),
            name,
            kind: EntryKind::Directory,
            expanded: false,
            loading: false,
            loaded: false,
            error: None,
            children: Vec::new(),
            canonical_dir: Some(root.duplicate()),
            synthetic_deleted: false,
            git: GitDecoration { status: None, dirty_descendant: false },
        };
        let mut nodes: PathMap<Node> = PathMap::new();
        let ghost none = nodes@;
        nodes.insert(root.duplicate(), node);
        let sidebar = Sidebar {
            root,
            config,
            nodes,
            selected: None,
            scroll: 0,
            queue: Vec::new(),
            worker_lost: false,
            next_id: 1,
            pending_loads: PathMap::new(),
            pending_git: None,
            git_refresh_due: false,
            last_git_request: now,
            git_error: None,
            git_changes: Vec::new(),
            dirty_dirs: PathSet::new(),
            watch_dirty_since: None,
            reload_after_pending: PathSet::new(),
            next_fs_reconcile: now + config.fs_reconcile_interval,
            trust,
            pending_mutation: None,
            mutation_completion: None,
        };
        proof {
            let state = fresh(root@, root.written(), config, trust, now);
            assert(paths_view(node.children@) =~= Seq::<Seq<Part>>::empty());
            lemma_tree_insert(none, root@, node);
            assert(tree_of(none) =~= Map::<Seq<Part>, NodeView>::empty());
            assert(sidebar@.queue =~= state.queue);
            assert(sidebar@.git_changes =~= state.git_changes);
            assert(sidebar@ == state);
            assert(state.tree.dom() =~= Set::<Seq<Part>>::empty().insert(root@));
            assert(root@.take(root@.len() as int) =~= root@);
            assert(is_rooted(state.tree, root@));
        }
        sidebar
    }

    /// The root of the workspace.
    pub fn root(&self) -> (root: &PathBuf)
        ensures
            root@ == self@.root,
            root.written() == self@.root_text,
    {
        &self.root
    }

    /// Takes the oldest job out of the queue.
    pub fn take_job(&mut self) -> (job: Option<Job>)
        requires
            old(self).wf(),
        ensures
            final(self).wf(),
            match job {
                Some(job) => old(self)@.queue.len() > 0 && job@ == old(self)@.queue[0]
                    && final(self)@ == (SidebarState {
                    queue: old(self)@.queue.skip(1),
                    ..old(self)@
                }),
                None => old(self)@.queue.len() == 0 && final(self)@ == old(self)@,
            },
    {
        if self.queue.len() == 0 {
            return None;
        }
        let ghost before = self.queue@;
        let job = self.queue.remove(0);
        assert(jobs_view(self.queue@) =~= jobs_view(before).skip(1));
        Some(job)
    }

    /// Notes that the worker is gone. Its queue goes with it.
    pub fn lose_worker(&mut self)
        requires
            old(self).wf(),
        ensures
            final(self).wf(),
            final(self)@ == (SidebarState {
                worker_lost: true,
                queue: Seq::empty(),
                ..old(self)@
            }),
    {
        self.worker_lost = true;
        self.queue.clear();
        assert(jobs_view(self.queue@) =~= Seq::<JobView>::empty());
    }

    /// Takes the next number.
    fn take_id(&mut self) -> (id: u64)
        requires
            old(self).wf(),
        ensures
            final(self).wf(),
            id == old(self)@.next_id,
            final(self)@ == id_taken(old(self)@),
            final(self).nodes == old(self).nodes,
            final(self).root == old(self).root,
            final(self).config == old(self).config,
    {
        let id = self.next_id;
        self.next_id = if id == u64::MAX {
            1
        } else {
            id + 1
        };
        id
    }

    /// Hands a job to the worker, if it takes it.
    fn try_send(&mut self, job: Job) -> (sent: Result<(), Refusal>)
        requires
            old(self).wf(),
        ensures
            final(self).wf(),
            match sent {
                Ok(()) => has_room(old(self)@) && final(self)@ == (SidebarState {
                    queue: old(self)@.queue.push(job@),
                    ..old(self)@
                }),
                Err(Refusal::Lost) => !has_room(old(self)@) && old(self)@.worker_lost
                    && final(self)@ == old(self)@,
                Err(Refusal::Full) => !has_room(old(self)@) && !old(self)@.worker_lost
                    && final(self)@ == old(self)@,
            },
    {
        if self.worker_lost {
            return Err(Refusal::Lost);
        }
        if self.queue.len() >= self.config.channel_capacity {
            return Err(Refusal::Full);
        }
        let ghost before = self.queue@;
        self.queue.push(job);
        assert(jobs_view(self.queue@) =~= jobs_view(before).push(job@));
        Ok(())
    }

    /// The resolved directories above `path`, nearest first.
    fn ancestor_targets(&self, path: &PathBuf) -> (targets: Vec<PathBuf>)
        requires
            self.wf(),
        ensures
            spelled_paths(targets@) == targets_from(self@.tree, self@.root, parent_of(path@)),
    {
        let ghost tree = self@.tree;
        let ghost root = self@.root;
        let ghost all = targets_from(tree, root, parent_of(path@));
        let mut targets: Vec<PathBuf> = Vec::new();
        let mut cursor = path.parent();
        assert(spelled_paths(targets@) =~= Seq::<WrittenPath>::empty());
        assert(spelled_paths(targets@) + all =~= all);
        let mut more = true;
        while more
            invariant
                self.wf(),
                tree == self@.tree,
                root == self@.root,
                all == spelled_paths(targets@) + (if more {
                    targets_from(tree, root, option_view(cursor))
                } else {
                    Seq::empty()
                }),
            decreases
                    if more {
                        match option_view(cursor) {
                            Some(path) => path.len() + 2,
                            None => 1,
                        }
                    } else {
                        0
                    },
        {
            let ghost found = spelled_paths(targets@);
            match cursor {
                None => {
                    more = false;
                },
                Some(parent) => {
                    let ghost from = targets_from(tree, root, Some(parent@));
                    if let Some(node) = self.nodes.get(&parent) {
                        if let Some(target) = &node.canonical_dir {
                            let ghost before = targets@;
                            targets.push(target.duplicate());
                            assert(spelled_paths(targets@) =~= found.push(target.spelled()));
                        }
                    }
                    let next = parent.parent();
                    let done = parent.same(&self.root);
                    proof {
                        let rest = if done {
                            Seq::empty()
                        } else {
                            targets_from(tree, root, option_view(next))
                        };
                        assert(spelled_paths(targets@) + rest =~= found + from);
                    }
                    more = !done;
                    cursor = next;
                },
            }
        }
        assert(spelled_paths(targets@) + Seq::<WrittenPath>::empty() =~= spelled_paths(targets@));
        targets
    }
}

impl Sidebar {
    /// Expands and loads the root and requests Git state.
    pub fn request_initial(&mut self, now: u128)
        requires
            old(self).wf(),
        ensures
            final(self).wf(),
            final(self)@ == initial_requested(old(self)@, now),
    {
        let root = self.root.duplicate();
        self.request_expand(&root);
        self.request_git_refresh(now);
    }

    /// The job that lists `path`, with the number `id`.
    fn loading_job(&self, id: u64, path: &PathBuf) -> (job: Job)
        requires
            self.wf(),
        ensures
            job@ == load_job(SidebarState { next_id: id, ..self@ }, path@, path.written()),
    {
        Job::Load {
            id,
            path: path.duplicate(),
            root: self.root.duplicate(),
            ancestor_targets: self.ancestor_targets(path),
            cap: self.config.entry_cap,
        }
    }

    /// Expands `path`, queueing a load if necessary. Returns whether a load was
    /// queued (an already-loaded directory is still expanded and returns false).
    pub fn request_expand(&mut self, path: &PathBuf) -> (queued: bool)
        requires
            old(self).wf(),
        ensures
            final(self).wf(),
            (final(self)@, queued) == expand_requested(
                old(self)@,
                path@,
                path.written(),
            ),
    {
        let ghost s = self@;
        let ghost nodes = self.nodes@;
        let loaded = match self.nodes.get(path) {
            Some(node) => {
                if !node.kind.is_directory() {
                    return false;
                }
                node.loaded
            },
            None => return false,
        };
        if loaded {
            if let Some(node) = self.nodes.get_mut(path) {
                node.expanded = true;
                proof {
                    lemma_tree_insert(nodes, path@, *node);
                    lemma_node_changed(s.tree, s.root, path@, node@);
                }
            }
            return false;
        }
        let id = self.take_id();
        let job = self.loading_job(id, path);
        match self.try_send(job) {
            Ok(()) => {
                let ghost nodes = self.nodes@;
                if let Some(node) = self.nodes.get_mut(path) {
                    node.expanded = true;
                    node.loading = true;
                    node.error = None;
                    proof {
                        lemma_tree_insert(nodes, path@, *node);
                        lemma_node_changed(s.tree, s.root, path@, node@);
                    }
                }
                self.pending_loads.insert(path.duplicate(), id);
                true
            },
            Err(_) => false,
        }
    }

    /// Collapses `path` and no longer waits for its listing.
    pub fn collapse(&mut self, path: &PathBuf)
        requires
            old(self).wf(),
        ensures
            final(self).wf(),
            final(self)@ == collapsed(old(self)@, path@),
    {
        let ghost s = self@;
        let ghost nodes = self.nodes@;
        if let Some(node) = self.nodes.get_mut(path) {
            node.expanded = false;
            node.loading = false;
            proof {
                lemma_tree_insert(nodes, path@, *node);
                lemma_node_changed(s.tree, s.root, path@, node@);
            }
        }
        self.pending_loads.remove(path);
    }

    /// Asks for a Git snapshot, unless one is under way. Returns whether it was
    /// asked for.
    pub fn request_git_refresh(&mut self, now: u128) -> (queued: bool)
        requires
            old(self).wf(),
        ensures
            final(self).wf(),
            (final(self)@, queued) == git_requested(old(self)@, now),
    {
        if self.pending_git.is_some() {
            return false;
        }
        let id = self.take_id();
        let job = Job::Git { id, root: self.root.duplicate(), cap: self.config.entry_cap };
        match self.try_send(job) {
            Ok(()) => {
                self.pending_git = Some(id);
                self.git_refresh_due = false;
                self.last_git_request = now;
                true
            },
            Err(Refusal::Full) => {
                self.git_refresh_due = true;
                false
            },
            Err(Refusal::Lost) => {
                self.git_error = Some("sidebar worker is unavailable".to_owned());
                self.git_refresh_due = false;
                false
            },
        }
    }

    /// Asks for a fresh listing of a loaded directory. Returns `false` when the
    /// worker has no room and the directory is to be tried again.
    pub fn request_reload(&mut self, path: &PathBuf) -> (settled: bool)
        requires
            old(self).wf(),
        ensures
            final(self).wf(),
            (final(self)@, settled) == reload_requested(
                old(self)@,
                path@,
                path.written(),
            ),
    {
        match self.nodes.get(path) {
            Some(node) => {
                if !node.loaded || !node.kind.is_directory() {
                    return true;
                }
            },
            None => return true,
        }
        let id = self.take_id();
        let job = self.loading_job(id, path);
        match self.try_send(job) {
            Ok(()) => {
                self.pending_loads.insert(path.duplicate(), id);
                true
            },
            Err(Refusal::Full) => false,
            Err(Refusal::Lost) => {
                self.git_error = Some("sidebar worker is unavailable".to_owned());
                true
            },
        }
    }

    /// Asks for fresh listings of all dirty directories.
    pub fn schedule_dirty_reloads(&mut self)
        requires
            old(self).wf(),
        ensures
            final(self).wf(),
            final(self)@ == reloads_scheduled(old(self)@),
    {
        let ghost emptied = SidebarState { dirty_dirs: Seq::empty(), ..self@ };
        let dirty = self.dirty_dirs.take();
        let ghost all = spelled_paths(dirty@);
        let mut i: usize = 0;
        assert(all.take(0) =~= Seq::<WrittenPath>::empty());
        while i < dirty.len()
            invariant
                i <= dirty@.len(),
                all == spelled_paths(dirty@),
                self.wf(),
                self@ == all_dirty_handled(emptied, all.take(i as int)),
            decreases dirty@.len() - i,
        {
            let path = &dirty[i];
            proof {
                assert(all.take(i + 1).drop_last() =~= all.take(i as int));
                assert(all.take(i + 1).last() == path.spelled());
            }
            if self.pending_loads.contains_key(path) {
                proof {
                    lemma_with_path_once(self@.reload_after_pending, path.spelled());
                }
                self.reload_after_pending.insert(path.duplicate());
            } else if !self.request_reload(path) {
                proof {
                    lemma_with_path_once(self@.dirty_dirs, path.spelled());
                }
                self.dirty_dirs.insert(path.duplicate());
            }
            i += 1;
        }
        assert(all.take(i as int) =~= all);
    }

    /// Marks the directory in which something happened at `path`.
    pub fn mark_affected_directory(&mut self, path: &PathBuf)
        requires
            old(self).wf(),
        ensures
            final(self).wf(),
            final(self)@ == (SidebarState {
                dirty_dirs: path_marked(
                    old(self)@.tree,
                    spelled_root(old(self)@),
                    old(self)@.dirty_dirs,
                    path.spelled(),
                ),
                ..old(self)@
            }),
    {
        let candidate = if path.same(&self.root) {
            self.root.duplicate()
        } else {
            match path.parent() {
                Some(parent) => parent,
                None => self.root.duplicate(),
            }
        };
        let found = find_loaded(&self.nodes, &self.root, candidate);
        let affected = match found {
            Some(directory) => Some(directory),
            None => {
                let root_loaded = match self.nodes.get(&self.root) {
                    Some(node) => node.loaded,
                    None => false,
                };
                if root_loaded {
                    Some(self.root.duplicate())
                } else {
                    None
                }
            },
        };
        if let Some(directory) = affected {
            proof {
                lemma_with_path_once(self@.dirty_dirs, directory.spelled());
            }
            self.dirty_dirs.insert(directory);
        }
    }

    /// Marks all loaded directories.
    pub fn queue_all_loaded_dirs(&mut self)
        requires
            old(self).wf(),
        ensures
            final(self).wf(),
            exists|order: Seq<Seq<Part>>| #[trigger]
                is_walk(order, old(self)@.tree) && final(self)@ == (SidebarState {
                    dirty_dirs: loaded_queued(old(self)@.tree, old(self)@.dirty_dirs, order),
                    ..old(self)@
                }),
    {
        let keys = self.nodes.keys();
        assert(is_walk(paths_view(keys@), self@.tree));
        self.queue_loaded(&keys);
    }

    /// Marks the loaded directories among `keys`, in order.
    fn queue_loaded(&mut self, keys: &Vec<PathBuf>)
        requires
            old(self).wf(),
        ensures
            final(self).wf(),
            final(self)@ == (SidebarState {
                dirty_dirs: loaded_queued(
                    old(self)@.tree,
                    old(self)@.dirty_dirs,
                    paths_view(keys@),
                ),
                ..old(self)@
            }),
    {
        let ghost s = self@;
        let ghost all = paths_view(keys@);
        let mut i: usize = 0;
        assert(all.take(0) =~= Seq::<Seq<Part>>::empty());
        while i < keys.len()
            invariant
                i <= keys@.len(),
                all == paths_view(keys@),
                self.wf(),
                self@ == (SidebarState {
                    dirty_dirs: loaded_queued(s.tree, s.dirty_dirs, all.take(i as int)),
                    ..s
                }),
            decreases keys@.len() - i,
        {
            proof {
                assert(all.take(i + 1).drop_last() =~= all.take(i as int));
                assert(all.take(i + 1).last() == keys@[i as int]@);
            }
            let loaded = match self.nodes.get(&keys[i]) {
                Some(node) => if node.loaded && node.kind.is_directory() {
                    Some(keys[i].written_as(&node.text))
                } else {
                    None
                },
                None => None,
            };
            if let Some(directory) = loaded {
                proof {
                    lemma_with_path_once(self@.dirty_dirs, directory.spelled());
                }
                self.dirty_dirs.insert(directory);
            }
            i += 1;
        }
        assert(all.take(i as int) =~= all);
    }
}

/// The nearest loaded path from `from` up to the root.
fn find_loaded(nodes: &PathMap<Node>, root: &PathBuf, from: PathBuf) -> (found: Option<PathBuf>)
    requires
        nodes.wf(),
    ensures
        option_spelled(found) == nearest_loaded(tree_of(nodes@), root@, Some(from.spelled())),
{
    let ghost tree = tree_of(nodes@);
    let mut path = from;
    let mut searching = true;
    while searching
        invariant
            nodes.wf(),
            tree == tree_of(nodes@),
            nearest_loaded(tree, root@, Some(from.spelled())) == (if searching {
                nearest_loaded(tree, root@, Some(path.spelled()))
            } else {
                None
            }),
        decreases
                if searching {
                    path@.len() + 1
                } else {
                    0
                },
    {
        let loaded = match nodes.get(&path) {
            Some(node) => node.loaded,
            None => false,
        };
        if loaded {
            return Some(path);
        }
        if path.same(root) {
            searching = false;
        } else {
            match path.parent() {
                Some(parent) => {
                    path = parent;
                },
                None => {
                    assert(nearest_loaded(tree, root@, None) is None);
                    searching = false;
                },
            }
        }
    }
    None
}

/// Adding a path to paths that occur once each keeps it so.
proof fn lemma_with_path_once(paths: Seq<WrittenPath>, path: WrittenPath)
    requires
        plain_paths(paths).no_duplicates(),
    ensures
        plain_paths(with_path(paths, path)).no_duplicates(),
{
    assert(plain_paths(paths.push(path)) =~= plain_paths(paths).push(path.path));
}

/// Where the row of a path stands.
fn row_position(rows: &Vec<SidebarRow>, path: &PathBuf) -> (position: Option<usize>)
    ensures
        (match position {
            Some(i) => Some(i as int),
            None => None,
        }) == row_paths(rows_view(rows@)).index_of_first(path@),
        position is Some ==> position->0 < rows@.len(),
{
    let ghost paths = row_paths(rows_view(rows@));
    let mut i: usize = 0;
    while i < rows.len()
        invariant
            i <= rows@.len(),
            paths == row_paths(rows_view(rows@)),
            forall|j: int| 0 <= j < i ==> paths[j] != path@,
        decreases rows@.len() - i,
    {
        if rows[i].path.same(path) {
            proof {
                assert(paths[i as int] == path@);
                paths.index_of_first_ensures(path@);
            }
            return Some(i);
        }
        i += 1;
    }
    proof {
        paths.index_of_first_ensures(path@);
    }
    None
}

impl Sidebar {
    /// All rows, before scrolling.
    pub fn all_visible_rows(&self) -> (rows: Vec<SidebarRow>)
        requires
            self.wf(),
        ensures
            rows_view(rows@) == all_rows(self@),
    {
        flatten_rows(&self.nodes, &self.selected, &self.root)
    }

    /// Rows after expansion and scroll are applied, limited to `viewport_rows`.
    pub fn visible_rows(&self, viewport_rows: usize) -> (rows: Vec<SidebarRow>)
        requires
            self.wf(),
        ensures
            rows_view(rows@) == window(all_rows(self@), self@.scroll, viewport_rows as nat),
    {
        let mut rows = self.all_visible_rows();
        let ghost all = rows@;
        let from = if self.scroll <= rows.len() {
            self.scroll
        } else {
            rows.len()
        };
        let mut shown = rows.split_off(from);
        if shown.len() > viewport_rows {
            shown.truncate(viewport_rows);
        }
        assert(rows_view(shown@) =~= window(
            rows_view(all),
            self@.scroll,
            viewport_rows as nat,
        ));
        shown
    }

    /// Selects a row relative to the current viewport without activating it.
    pub fn select_visible_row(&mut self, row: usize, viewport_rows: usize) -> (path: Option<
        PathBuf,
    >)
        requires
            old(self).wf(),
        ensures
            final(self).wf(),
            (final(self)@, option_spelled(path)) == row_selected(
                old(self)@,
                row as nat,
                viewport_rows as nat,
            ),
    {
        if row >= viewport_rows {
            return None;
        }
        let rows = self.all_visible_rows();
        let ghost all = all_rows(self@);
        assert(rows.len() == all.len());
        let index = self.scroll.saturating_add(row);
        if index >= rows.len() {
            return None;
        }
        assert(all[index as int] == rows@[index as int]@);
        let path = rows[index].path.duplicate();
        self.selected = Some(path.duplicate());
        Some(path)
    }

    /// Opens the selected file or toggles the selected directory.
    pub fn activate_selected(&mut self) -> (activation: Option<SidebarActivation>)
        requires
            old(self).wf(),
        ensures
            final(self).wf(),
            (final(self)@, activation_view(activation)) == activated(old(self)@),
    {
        let path = match &self.selected {
            Some(path) => path.duplicate(),
            None => return None,
        };
        let (directory, expanded, open_file) = match self.nodes.get(&path) {
            Some(node) => {
                let file = match node.kind {
                    EntryKind::File => true,
                    EntryKind::Symlink => true,
                    _ => false,
                };
                (node.kind.is_directory(), node.expanded, file && node.error.is_none())
            },
            None => return None,
        };
        if directory {
            if expanded {
                self.collapse(&path);
            } else {
                self.request_expand(&path);
            }
        }
        if open_file {
            Some(SidebarActivation::OpenFile(path))
        } else {
            Some(SidebarActivation::SelectOnly)
        }
    }

    /// Moves the viewport by `delta` rows.
    pub fn scroll(&mut self, delta: isize, viewport_rows: usize)
        requires
            old(self).wf(),
        ensures
            final(self).wf(),
            final(self)@ == (SidebarState {
                scroll: scrolled(old(self)@, delta as int, viewport_rows as nat),
                ..old(self)@
            }),
    {
        let total = self.all_visible_rows().len();
        assert(total == all_rows(self@).len());
        let maximum = total.saturating_sub(viewport_rows);
        let moved: usize = match self.scroll.checked_add_signed(delta) {
            Some(moved) => moved,
            None => if delta < 0 {
                0
            } else {
                usize::MAX
            },
        };
        self.scroll = if moved <= maximum {
            moved
        } else {
            maximum
        };
    }

    /// Moves the viewport so that it shows `path` and `trailing_rows` rows
    /// behind it.
    pub fn ensure_path_visible_with_trailing(
        &mut self,
        path: &PathBuf,
        viewport_rows: usize,
        trailing_rows: usize,
    )
        requires
            old(self).wf(),
        ensures
            final(self).wf(),
            final(self)@ == (SidebarState {
                scroll: scroll_showing(
                    old(self)@,
                    path@,
                    viewport_rows as nat,
                    trailing_rows as nat,
                ),
                ..old(self)@
            }),
    {
        if viewport_rows == 0 {
            return;
        }
        let rows = self.all_visible_rows();
        assert(rows.len() == all_rows(self@).len());
        let position = match row_position(&rows, path) {
            Some(position) => position,
            None => return,
        };
        if position < self.scroll {
            self.scroll = position;
        } else if position.saturating_add(trailing_rows) >= self.scroll.saturating_add(
            viewport_rows,
        ) {
            let wanted = position.saturating_add(trailing_rows).saturating_add(1).saturating_sub(
                viewport_rows,
            );
            let last = rows.len().saturating_sub(1);
            self.scroll = if wanted <= last {
                wanted
            } else {
                last
            };
        }
    }

    /// The selected path.
    pub fn selected_path(&self) -> (path: Option<&PathBuf>)
        ensures
            (match path {
                Some(path) => Some(path.spelled()),
                None => None,
            }) == spelled_selection(self@),
    {
        self.selected.as_ref()
    }

    /// The kind of a known path.
    pub fn entry_kind(&self, path: &PathBuf) -> (kind: Option<EntryKind>)
        requires
            self.wf(),
        ensures
            kind == (if self@.tree.contains_key(path@) {
                Some(self@.tree[path@].kind)
            } else {
                None
            }),
    {
        match self.nodes.get(path) {
            Some(node) => Some(node.kind),
            None => None,
        }
    }

    /// Asks for a file operation, one at a time.
    pub fn request_mutation(&mut self, mutation: SidebarMutation) -> (answer: Result<(), String>)
        requires
            old(self).wf(),
        ensures
            final(self).wf(),
            (final(self)@, unit_result(answer)) == mutation_requested(old(self)@, mutation@),
    {
        if self.pending_mutation.is_some() {
            return Err("a sidebar file operation is already pending".to_owned());
        }
        let id = self.take_id();
        let job = Job::Mutation { id, root: self.root.duplicate(), trust: self.trust, mutation };
        match self.try_send(job) {
            Ok(()) => {
                self.pending_mutation = Some(id);
                Ok(())
            },
            Err(Refusal::Full) => Err("sidebar worker is busy".to_owned()),
            Err(Refusal::Lost) => Err("sidebar worker is unavailable".to_owned()),
        }
    }

    /// Takes the end of the last file operation, once.
    pub fn take_mutation_completion(&mut self) -> (completion: Option<SidebarMutationCompletion>)
        requires
            old(self).wf(),
        ensures
            final(self).wf(),
            completion_view(completion) == old(self)@.mutation_completion,
            final(self)@ == (SidebarState { mutation_completion: None, ..old(self)@ }),
    {
        self.mutation_completion.take()
    }

    /// Last Git worker error. Non-Git workspaces and command failures degrade to
    /// an undecorated tree rather than making filesystem browsing unavailable.
    pub fn git_error(&self) -> (error: Option<&String>)
        ensures
            (match error {
                Some(error) => Some(error@),
                None => None,
            }) == self@.git_error,
    {
        self.git_error.as_ref()
    }

    /// Moves the selection to the nearest known ancestor when its node is gone.
    pub fn restore_selection(&mut self)
        requires
            old(self).wf(),
        ensures
            final(self).wf(),
            final(self)@ == (SidebarState {
                selected: selection_restored(
                    old(self)@.tree,
                    old(self)@.root,
                    old(self)@.selected,
                ),
                selected_text: selection_text_restored(old(self)@.tree, old(self)@),
                ..old(self)@
            }),
    {
        let ghost tree = self@.tree;
        let mut path = match &self.selected {
            Some(path) => path.duplicate(),
            None => return,
        };
        let ghost first = path@;
        let ghost text = path.written();
        let mut searching = true;
        while searching
            invariant
                self.wf(),
                self@ == old(self)@,
                tree == self@.tree,
                self@.selected == Some(first),
                self@.selected_text == Some(text),
                nearest_known(tree, Some(first)) == (if searching {
                    nearest_known(tree, Some(path@))
                } else {
                    None
                }),
                searching ==> nearest_text(tree, first, text) == nearest_text(
                    tree,
                    path@,
                    path.written(),
                ),
            decreases
                    if searching {
                        path@.len() + 1
                    } else {
                        0
                    },
        {
            if self.nodes.contains_key(&path) {
                self.selected = Some(path);
                return;
            }
            match path.parent() {
                Some(parent) => {
                    path = parent;
                },
                None => {
                    assert(nearest_known(tree, None) is None);
                    searching = false;
                },
            }
        }
        self.selected = Some(self.root.duplicate());
    }
}

impl Sidebar {
    /// Enters the listing of `path`, or notes why there is none.
    fn enter_listing(&mut self, path: &PathBuf, result: Result<LoadedDirectory, String>)
        requires
            old(self).wf(),
            old(self)@.tree.contains_key(path@),
            result is Ok ==> crate::listing::entries_of(result->Ok_0@.entries, path@),
        ensures
            final(self).wf(),
            final(self)@ == listing_entered(
                old(self)@,
                path@,
                match result {
                    Ok(listing) => Ok(listing@),
                    Err(error) => Err(error@),
                },
            ),
    {
        let ghost s = self@;
        match result {
            Ok(listing) => {
                proof {
                    lemma_listing_rooted(
                        s.tree,
                        s.root,
                        path@,
                        listing@,
                        s.config.entry_cap as nat,
                    );
                }
                apply_listing(
                    &mut self.nodes,
                    &mut self.pending_loads,
                    path,
                    listing,
                    self.config.entry_cap,
                );
            },
            Err(error) => {
                let ghost nodes = self.nodes@;
                if let Some(node) = self.nodes.get_mut(path) {
                    node.loading = false;
                    node.error = Some(error);
                    proof {
                        lemma_tree_insert(nodes, path@, *node);
                        lemma_node_changed(s.tree, s.root, path@, node@);
                    }
                }
            },
        }
    }

    /// Brings decorations, selection and scroll position in line with the tree.
    fn settle_tree(&mut self, before: &Vec<SidebarRow>)
        requires
            old(self).wf(),
        ensures
            final(self).wf(),
            final(self)@ == tree_settled(old(self)@, rows_view(before@)),
    {
        let ghost s = self@;
        proof {
            lemma_reconciled_rooted(s.tree, s.root, s.root_text, s.git_changes);
        }
        reconcile_git(&mut self.nodes, &self.root, &self.git_changes);
        self.restore_selection();
        let rows = self.all_visible_rows();
        assert(rows.len() == all_rows(self@).len());
        let last = rows.len().saturating_sub(1);
        let kept = if self.scroll <= last {
            self.scroll
        } else {
            last
        };
        let found: Option<usize> = if self.scroll < before.len() {
            assert(rows_view(before@)[self.scroll as int] == before@[self.scroll as int]@);
            row_position(&rows, &before[self.scroll].path)
        } else {
            None
        };
        self.scroll = match found {
            Some(position) => position,
            None => kept,
        };
    }

    /// Lists a directory again that changed while it was being listed.
    fn resume_reload(&mut self, path: &PathBuf)
        requires
            old(self).wf(),
        ensures
            final(self).wf(),
            final(self)@ == reload_resumed(old(self)@, path@, path.written()),
    {
        if self.reload_after_pending.remove(path) {
            proof {
                lemma_with_path_once(self@.dirty_dirs, path.spelled());
            }
            self.dirty_dirs.insert(path.duplicate());
            self.schedule_dirty_reloads();
        }
    }

    fn apply_load(&mut self, id: u64, path: PathBuf, result: Result<LoadedDirectory, String>) -> (
        awaited: bool)
        requires
            old(self).wf(),
            result is Ok ==> crate::listing::entries_of(result->Ok_0@.entries, path@),
        ensures
            final(self).wf(),
            (final(self)@, awaited) == load_applied(
                old(self)@,
                id,
                path@,
                path.written(),
                match result {
                    Ok(listing) => Ok(listing@),
                    Err(error) => Err(error@),
                },
            ),
    {
        match self.pending_loads.get(&path) {
            Some(pending) => {
                if *pending != id {
                    return false;
                }
            },
            None => return false,
        }
        self.pending_loads.remove(&path);
        if !self.nodes.contains_key(&path) {
            return false;
        }
        let before = self.all_visible_rows();
        self.enter_listing(&path, result);
        self.settle_tree(&before);
        self.resume_reload(&path);
        true
    }

    /// Decorates the tree with a new snapshot.
    pub fn apply_git(&mut self, changes: Vec<GitChange>)
        requires
            old(self).wf(),
        ensures
            final(self).wf(),
            final(self)@ == (SidebarState {
                git_changes: changes_view(changes@),
                tree: crate::decorate::reconciled(
                    old(self)@.tree,
                    old(self)@.root,
                    old(self)@.root_text,
                    changes_view(changes@),
                ),
                ..old(self)@
            }),
    {
        let ghost s = self@;
        self.git_changes = changes;
        proof {
            lemma_reconciled_rooted(s.tree, s.root, s.root_text, changes_view(changes@));
        }
        reconcile_git(&mut self.nodes, &self.root, &self.git_changes);
    }

    fn apply_git_result(&mut self, id: u64, result: Result<Vec<GitChange>, String>) -> (
        awaited: bool)
        requires
            old(self).wf(),
        ensures
            final(self).wf(),
            (final(self)@, awaited) == git_applied(
                old(self)@,
                id,
                match result {
                    Ok(changes) => Ok(changes_view(changes@)),
                    Err(error) => Err(error@),
                },
            ),
    {
        match self.pending_git {
            Some(pending) => {
                if pending != id {
                    return false;
                }
            },
            None => return false,
        }
        self.pending_git = None;
        match result {
            Ok(changes) => {
                self.git_error = None;
                self.apply_git(changes);
            },
            Err(error) => {
                let ghost s = self@;
                self.git_error = Some(error);
                self.git_changes.clear();
                proof {
                    assert(changes_view(self.git_changes@) =~= Seq::empty());
                    lemma_cleared_rooted(s.tree, s.root);
                }
                clear_git(&mut self.nodes);
            },
        }
        true
    }

    fn apply_mutation(&mut self, id: u64, result: Result<MutationOutcome, String>, now: u128) -> (
        awaited: bool)
        requires
            old(self).wf(),
        ensures
            final(self).wf(),
            (final(self)@, awaited) == mutation_applied(
                old(self)@,
                id,
                match result {
                    Ok(outcome) => Ok(outcome@),
                    Err(error) => Err(error@),
                },
                now,
            ),
    {
        match self.pending_mutation {
            Some(pending) => {
                if pending != id {
                    return false;
                }
            },
            None => return false,
        }
        self.pending_mutation = None;
        match result {
            Ok(outcome) => {
                let MutationOutcome { affected_parent, selected } = outcome;
                self.selected = Some(selected);
                proof {
                    lemma_with_path_once(self@.dirty_dirs, affected_parent.spelled());
                }
                self.dirty_dirs.insert(affected_parent);
                self.schedule_dirty_reloads();
                self.request_git_refresh(now);
                self.mutation_completion = Some(SidebarMutationCompletion { result: Ok(()) });
            },
            Err(error) => {
                self.mutation_completion = Some(SidebarMutationCompletion { result: Err(error) });
            },
        }
        true
    }

    /// Takes one reply in. Returns whether it was awaited; one that is not
    /// changes nothing that is shown.
    pub fn apply_response(&mut self, response: Response, now: u128) -> (awaited: bool)
        requires
            old(self).wf(),
            is_valid_response(response@),
        ensures
            final(self).wf(),
            (final(self)@, awaited) == response_applied(old(self)@, response@, now),
    {
        match response {
            Response::Load { id, path, result } => self.apply_load(id, path, result),
            Response::Git { id, result } => self.apply_git_result(id, result),
            Response::Mutation { id, result } => self.apply_mutation(id, result, now),
        }
    }

    /// Takes the signals of the watcher in.
    fn collect_watch_events(&mut self, signals: Vec<WatchSignal>, now: u128)
        requires
            old(self).wf(),
        ensures
            final(self).wf(),
            exists|order: Seq<Seq<Part>>| #[trigger]
                is_walk(order, old(self)@.tree) && final(self)@ == watch_collected(
                    old(self)@,
                    signals_view(signals@),
                    now,
                    order,
                ),
    {
        let ghost s = self@;
        let ghost all = signals_view(signals@);
        let keys: Vec<PathBuf> = if signals.len() > 0 {
            self.nodes.keys()
        } else {
            Vec::new()
        };
        let ghost order = if signals@.len() > 0 {
            paths_view(keys@)
        } else {
            some_walk(s)
        };
        proof {
            lemma_some_walk(s);
            assert(is_walk(order, s.tree));
        }
        let mut i: usize = 0;
        assert(all.take(0) =~= Seq::<SignalView>::empty());
        while i < signals.len()
            invariant
                i <= signals@.len(),
                all == signals_view(signals@),
                self.wf(),
                signals@.len() > 0 ==> order == paths_view(keys@),
                self@ == (SidebarState {
                    dirty_dirs: signals_marked(
                        s.tree,
                        spelled_root(s),
                        s.dirty_dirs,
                        all.take(i as int),
                        order,
                    ),
                    ..s
                }),
            decreases signals@.len() - i,
        {
            proof {
                assert(all.take(i + 1).drop_last() =~= all.take(i as int));
                assert(all.take(i + 1).last() == signals@[i as int]@);
            }
            match &signals[i] {
                WatchSignal::Paths(paths) => self.mark_paths(paths),
                WatchSignal::Rescan => self.queue_loaded(&keys),
            }
            i += 1;
        }
        assert(all.take(i as int) =~= all);
        if signals.len() > 0 {
            self.watch_dirty_since = Some(now);
        }
        assert(self@ == watch_collected(s, all, now, order));
    }

    fn mark_paths(&mut self, paths: &Vec<PathBuf>)
        requires
            old(self).wf(),
        ensures
            final(self).wf(),
            final(self)@ == (SidebarState {
                dirty_dirs: paths_marked(
                    old(self)@.tree,
                    spelled_root(old(self)@),
                    old(self)@.dirty_dirs,
                    spelled_paths(paths@),
                ),
                ..old(self)@
            }),
    {
        let ghost s = self@;
        let ghost all = spelled_paths(paths@);
        let mut i: usize = 0;
        assert(all.take(0) =~= Seq::<WrittenPath>::empty());
        while i < paths.len()
            invariant
                i <= paths@.len(),
                all == spelled_paths(paths@),
                self.wf(),
                self@ == (SidebarState {
                    dirty_dirs: paths_marked(
                        s.tree,
                        spelled_root(s),
                        s.dirty_dirs,
                        all.take(i as int),
                    ),
                    ..s
                }),
            decreases paths@.len() - i,
        {
            proof {
                assert(all.take(i + 1).drop_last() =~= all.take(i as int));
                assert(all.take(i + 1).last() == paths@[i as int].spelled());
            }
            self.mark_affected_directory(&paths[i]);
            i += 1;
        }
        assert(all.take(i as int) =~= all);
    }

    fn apply_responses(&mut self, responses: Vec<Response>, now: u128) -> (changed: bool)
        requires
            old(self).wf(),
            are_valid_responses(responses_view(responses@)),
        ensures
            final(self).wf(),
            (final(self)@, changed) == responses_applied(
                old(self)@,
                responses_view(responses@),
                now,
            ),
    {
        let ghost s = self@;
        let ghost all = responses_view(responses@);
        let mut rest = responses;
        let ghost mut done: nat = 0;
        let mut changed = false;
        assert(all.take(0) =~= Seq::<ResponseView>::empty());
        assert(all.skip(0) =~= all);
        while rest.len() > 0
            invariant
                done + rest@.len() == all.len(),
                responses_view(rest@) == all.skip(done as int),
                are_valid_responses(all),
                self.wf(),
                (self@, changed) == responses_applied(s, all.take(done as int), now),
            decreases rest@.len(),
        {
            let ghost before = rest@;
            let response = rest.remove(0);
            proof {
                assert(response@ == responses_view(before)[0]);
                assert(response@ == all[done as int]);
                assert(rest@ == before.remove(0));
                assert forall|j: int| 0 <= j < rest@.len() implies #[trigger] responses_view(
                    rest@,
                )[j] == all.skip(done + 1int)[j] by {
                    assert(responses_view(before)[j + 1] == all.skip(done as int)[j + 1]);
                }
                assert(responses_view(rest@) =~= all.skip(done + 1int));
                assert(all.take(done + 1int).drop_last() =~= all.take(done as int));
                assert(all.take(done + 1int).last() == response@);
                done = done + 1;
            }
            if self.apply_response(response, now) {
                changed = true;
            }
        }
        assert(all.take(done as int) =~= all);
        changed
    }

    /// One round. Returns whether a reply was awaited.
    fn run_round(
        &mut self,
        now: u128,
        responses: Vec<Response>,
        signals: Vec<WatchSignal>,
    ) -> (changed: bool)
        requires
            old(self).wf(),
            are_valid_responses(responses_view(responses@)),
            now + old(self)@.config.fs_reconcile_interval <= u128::MAX,
        ensures
            final(self).wf(),
            changed == responses_applied(old(self)@, responses_view(responses@), now).1,
            exists|first: Seq<Seq<Part>>, second: Seq<Seq<Part>>|
                #![trigger ticked(
                    old(self)@,
                    now,
                    responses_view(responses@),
                    signals_view(signals@),
                    first,
                    second,
                )]
                {
                    let tree = responses_applied(
                        old(self)@,
                        responses_view(responses@),
                        now,
                    ).0.tree;
                    &&& is_walk(first, tree)
                    &&& is_walk(second, tree)
                    &&& final(self)@ == ticked(
                        old(self)@,
                        now,
                        responses_view(responses@),
                        signals_view(signals@),
                        first,
                        second,
                    )
                },
    {
        let ghost s = self@;
        let changed = self.apply_responses(responses, now);
        let ghost replied = self@;
        proof {
            lemma_responses_keep(s, responses_view(responses@), now);
        }
        self.collect_watch_events(signals, now);
        let ghost first = choose|order: Seq<Seq<Part>>| #[trigger]
            is_walk(order, replied.tree) && self@ == watch_collected(
                replied,
                signals_view(signals@),
                now,
                order,
            );
        let quiet = match self.watch_dirty_since {
            Some(since) => now.saturating_sub(since) >= self.config.fs_debounce_interval,
            None => false,
        };
        let ghost collected = self@;
        if quiet {
            self.watch_dirty_since = None;
            self.schedule_dirty_reloads();
            proof {
                lemma_scheduled_keeps(SidebarState { watch_dirty_since: None, ..collected });
            }
        }
        let ghost watched = self@;
        assert(watched == watch_settled(collected, now));
        let ghost mut second = first;
        if now >= self.next_fs_reconcile {
            self.next_fs_reconcile = now + self.config.fs_reconcile_interval;
            let ghost set = self@;
            self.queue_all_loaded_dirs();
            proof {
                second = choose|order: Seq<Seq<Part>>| #[trigger]
                    is_walk(order, set.tree) && self@ == (SidebarState {
                        dirty_dirs: loaded_queued(set.tree, set.dirty_dirs, order),
                        ..set
                    });
            }
            self.schedule_dirty_reloads();
        }
        assert(self@ == reconciliation_run(watched, now, second));
        if self.pending_git.is_none() && (self.git_refresh_due || now.saturating_sub(
            self.last_git_request,
        ) >= self.config.git_refresh_interval) {
            self.request_git_refresh(now);
        }
        proof {
            assert(is_walk(first, replied.tree));
            assert(collected.tree == replied.tree && watched.tree == replied.tree);
            assert(is_walk(second, replied.tree));
            assert(self@ == ticked(
                s,
                now,
                responses_view(responses@),
                signals_view(signals@),
                first,
                second,
            ));
        }
        changed
    }

    /// Applies worker replies, filesystem changes, and periodic refreshes.
    /// Returns `true` if model state changed: a reply was awaited, or the trouble
    /// with the repository is another one than before.
    pub fn tick(&mut self, now: u128, responses: Vec<Response>, signals: Vec<WatchSignal>) -> (
        changed: bool)
        requires
            old(self).wf(),
            are_valid_responses(responses_view(responses@)),
            now + old(self)@.config.fs_reconcile_interval <= u128::MAX,
        ensures
            final(self).wf(),
            changed == (responses_applied(old(self)@, responses_view(responses@), now).1
                || final(self)@.git_error != old(self)@.git_error),
            exists|first: Seq<Seq<Part>>, second: Seq<Seq<Part>>|
                #![trigger ticked(
                    old(self)@,
                    now,
                    responses_view(responses@),
                    signals_view(signals@),
                    first,
                    second,
                )]
                {
                    let tree = responses_applied(
                        old(self)@,
                        responses_view(responses@),
                        now,
                    ).0.tree;
                    &&& is_walk(first, tree)
                    &&& is_walk(second, tree)
                    &&& final(self)@ == ticked(
                        old(self)@,
                        now,
                        responses_view(responses@),
                        signals_view(signals@),
                        first,
                        second,
                    )
                },
    {
        let trouble = copy_option(&self.git_error);
        let changed = self.run_round(now, responses, signals);
        changed || !same_option(&self.git_error, &trouble)
    }
}

/// Some walk over the nodes.
spec fn some_walk(s: SidebarState) -> Seq<Seq<Part>> {
    s.tree.dom().to_seq()
}

proof fn lemma_some_walk(s: SidebarState)
    requires
        is_valid(s),
    ensures
        is_walk(some_walk(s), s.tree),
{
    let names = s.tree.dom();
    lemma_to_seq_once(names);
    names.lemma_to_seq_to_set_id();
    assert forall|path: Seq<Part>| #[trigger] names.to_seq().contains(path) <==> s.tree.contains_key(
        path,
    ) by {
        assert(names.to_seq().to_set().contains(path) == names.contains(path));
    }
}

proof fn lemma_to_seq_once(paths: Set<Seq<Part>>)
    requires
        paths.finite(),
    ensures
        paths.to_seq().no_duplicates(),
    decreases paths.len(),
{
    if paths.len() > 0 {
        let first = paths.choose();
        let rest = paths.remove(first);
        lemma_to_seq_once(rest);
        rest.lemma_to_seq_to_set_id();
        assert(!rest.to_seq().to_set().contains(first));
        assert(!rest.to_seq().contains(first));
        let all = Seq::<Seq<Part>>::empty().push(first) + rest.to_seq();
        assert(forall|i: int| 0 < i < all.len() ==> all[i] == rest.to_seq()[i - 1]);
        assert(all.no_duplicates());
    }
}

/// Taking a dirty directory up leaves the nodes and the limits alone.
proof fn lemma_all_dirty_keeps(s: SidebarState, dirty: Seq<WrittenPath>)
    ensures
        all_dirty_handled(s, dirty).tree == s.tree,
        all_dirty_handled(s, dirty).root == s.root,
        all_dirty_handled(s, dirty).config == s.config,
    decreases dirty.len(),
{
    if dirty.len() > 0 {
        lemma_all_dirty_keeps(s, dirty.drop_last());
    }
}

pub proof fn lemma_scheduled_keeps(s: SidebarState)
    ensures
        reloads_scheduled(s).tree == s.tree,
        reloads_scheduled(s).root == s.root,
        reloads_scheduled(s).config == s.config,
{
    lemma_all_dirty_keeps(SidebarState { dirty_dirs: Seq::empty(), ..s }, s.dirty_dirs);
}

/// Replies leave the root and the limits alone.
pub proof fn lemma_responses_keep(s: SidebarState, responses: Seq<ResponseView>, now: u128)
    ensures
        responses_applied(s, responses, now).0.root == s.root,
        responses_applied(s, responses, now).0.config == s.config,
    decreases responses.len(),
{
    if responses.len() > 0 {
        lemma_responses_keep(s, responses.drop_last(), now);
        let before = responses_applied(s, responses.drop_last(), now).0;
        lemma_response_keeps(before, responses.last(), now);
    }
}

proof fn lemma_response_keeps(s: SidebarState, response: ResponseView, now: u128)
    ensures
        response_applied(s, response, now).0.root == s.root,
        response_applied(s, response, now).0.config == s.config,
{
    match response {
        ResponseView::Load { path, text, result, .. } => {
            let taken = SidebarState { pending_loads: s.pending_loads.remove(path), ..s };
            let settled = tree_settled(listing_entered(taken, path, result), all_rows(s));
            lemma_scheduled_keeps(
                SidebarState {
                    reload_after_pending: without_path(settled.reload_after_pending, path),
                    dirty_dirs: with_path(settled.dirty_dirs, WrittenPath { path, text }),
                    ..settled
                },
            );
        },
        ResponseView::Git { .. } => {},
        ResponseView::Mutation { result, .. } => {
            if let Ok(outcome) = result {
                lemma_scheduled_keeps(
                    SidebarState {
                        pending_mutation: None,
                        selected: Some(outcome.selected.path),
                        selected_text: Some(outcome.selected.text),
                        dirty_dirs: with_path(s.dirty_dirs, outcome.affected_parent),
                        ..s
                    },
                );
            }
        },
    }
}

/// A sidebar was made, unless a limit is zero.
pub open spec fn is_started(
    sidebar: Result<Sidebar, String>,
    root: Seq<Part>,
    root_text: Seq<u8>,
    config: SidebarConfig,
    trust: bool,
    now: u128,
) -> bool {
    match sidebar {
        Ok(sidebar) => {
            &&& config.entry_cap > 0 && config.channel_capacity > 0
            &&& sidebar.wf()
            &&& sidebar@ == fresh(root, root_text, config, trust, now)
        },
        Err(error) => {
            &&& config.entry_cap == 0 || config.channel_capacity == 0
            &&& error@ == "sidebar entry cap and channel capacity must be non-zero"@
        },
    }
}

} // verus!
