//! What the sidebar asks of its worker and what comes back.

use vstd::prelude::*;
use vstd::string::*;

use crate::git::{changes_view, Change, GitChange};
use crate::listing::{entries_of, ListingView, LoadedDirectory};
use crate::path::{child_path, dot_git, is_under, spelled_paths, Part, PathBuf, WrittenPath};

verus! {

/// A file operation that a user asked for.
#[derive(Debug, Clone, PartialEq, Eq)]
pub enum SidebarMutation {
    CreateFile { parent: PathBuf, name: String },
    CreateDirectory { parent: PathBuf, name: String },
    Rename { source: PathBuf, name: String },
    Trash { target: PathBuf },
}

/// What a [`SidebarMutation`] is, as a value.
pub enum MutationView {
    CreateFile { parent: WrittenPath, name: Seq<char> },
    CreateDirectory { parent: WrittenPath, name: Seq<char> },
    Rename { source: WrittenPath, name: Seq<char> },
    Trash { target: WrittenPath },
}

impl View for SidebarMutation {
    type V = MutationView;

    open spec fn view(&self) -> MutationView {
        match *self {
            SidebarMutation::CreateFile { parent, name } => MutationView::CreateFile {
                parent: parent.spelled(),
                name: name@,
            },
            SidebarMutation::CreateDirectory { parent, name } => MutationView::CreateDirectory {
                parent: parent.spelled(),
                name: name@,
            },
            SidebarMutation::Rename { source, name } => MutationView::Rename {
                source: source.spelled(),
                name: name@,
            },
            SidebarMutation::Trash { target } => MutationView::Trash {
                target: target.spelled(),
            },
        }
    }
}

/// The end of a file operation.
#[derive(Debug)]
pub struct SidebarMutationCompletion {
    pub result: Result<(), String>,
}

/// The outcome of an operation that has nothing to return.
pub open spec fn unit_result(result: Result<(), String>) -> Result<(), Seq<char>> {
    match result {
        Ok(()) => Ok(()),
        Err(error) => Err(error@),
    }
}

/// What activating a row asks for.
#[derive(Debug, Clone, PartialEq, Eq)]
pub enum SidebarActivation {
    /// A file-like row that may be validated and opened by the backend.
    OpenFile(PathBuf),
    /// A real row was selected, but it must not cause an editor open.
    SelectOnly,
}

/// What a [`SidebarActivation`] is, as a value.
pub enum ActivationView {
    OpenFile(WrittenPath),
    SelectOnly,
}

impl View for SidebarActivation {
    type V = ActivationView;

    open spec fn view(&self) -> ActivationView {
        match *self {
            SidebarActivation::OpenFile(path) => ActivationView::OpenFile(path.spelled()),
            SidebarActivation::SelectOnly => ActivationView::SelectOnly,
        }
    }
}

/// The activation in an option.
pub open spec fn activation_view(activation: Option<SidebarActivation>) -> Option<ActivationView> {
    match activation {
        Some(activation) => Some(activation@),
        None => None,
    }
}

/// Work for the worker.
#[derive(Debug)]
pub enum Job {
    Load {
        id: u64,
        path: PathBuf,
        root: PathBuf,
        ancestor_targets: Vec<PathBuf>,
        cap: usize,
    },
    Git { id: u64, root: PathBuf, cap: usize },
    /// `trust` says whether there is a store to ask for the workspace's trust.
    Mutation { id: u64, root: PathBuf, trust: bool, mutation: SidebarMutation },
}

/// What a [`Job`] is, as a value.
pub enum JobView {
    Load {
        id: u64,
        path: WrittenPath,
        root: WrittenPath,
        ancestor_targets: Seq<WrittenPath>,
        cap: nat,
    },
    Git { id: u64, root: WrittenPath, cap: nat },
    Mutation { id: u64, root: WrittenPath, trust: bool, mutation: MutationView },
}

impl View for Job {
    type V = JobView;

    open spec fn view(&self) -> JobView {
        match *self {
            Job::Load { id, path, root, ancestor_targets, cap } => JobView::Load {
                id,
                path: path.spelled(),
                root: root.spelled(),
                ancestor_targets: spelled_paths(ancestor_targets@),
                cap: cap as nat,
            },
            Job::Git { id, root, cap } => JobView::Git {
                id,
                root: root.spelled(),
                cap: cap as nat,
            },
            Job::Mutation { id, root, trust, mutation } => JobView::Mutation {
                id,
                root: root.spelled(),
                trust,
                mutation: mutation@,
            },
        }
    }
}

/// The jobs in a list.
pub open spec fn jobs_view(jobs: Seq<Job>) -> Seq<JobView> {
    jobs.map_values(|job: Job| job@)
}

/// What a file operation changed.
#[derive(Debug, Clone, PartialEq, Eq)]
pub struct MutationOutcome {
    pub affected_parent: PathBuf,
    pub selected: PathBuf,
}

/// What a [`MutationOutcome`] is, as a value.
pub struct OutcomeView {
    pub affected_parent: WrittenPath,
    pub selected: WrittenPath,
}

impl View for MutationOutcome {
    type V = OutcomeView;

    open spec fn view(&self) -> OutcomeView {
        OutcomeView {
            affected_parent: self.affected_parent.spelled(),
            selected: self.selected.spelled(),
        }
    }
}

/// A worker's reply to the job with the same number.
#[derive(Debug)]
pub enum Response {
    Load { id: u64, path: PathBuf, result: Result<LoadedDirectory, String> },
    Git { id: u64, result: Result<Vec<GitChange>, String> },
    Mutation { id: u64, result: Result<MutationOutcome, String> },
}

/// What a [`Response`] is, as a value.
pub enum ResponseView {
    /// `text` are the bytes that the path is written with.
    Load { id: u64, path: Seq<Part>, text: Seq<u8>, result: Result<ListingView, Seq<char>> },
    Git { id: u64, result: Result<Seq<Change>, Seq<char>> },
    Mutation { id: u64, result: Result<OutcomeView, Seq<char>> },
}

impl View for Response {
    type V = ResponseView;

    open spec fn view(&self) -> ResponseView {
        match *self {
            Response::Load { id, path, result } => ResponseView::Load {
                id,
                path: path@,
                text: path.written(),
                result: match result {
                    Ok(listing) => Ok(listing@),
                    Err(error) => Err(error@),
                },
            },
            Response::Git { id, result } => ResponseView::Git {
                id,
                result: match result {
                    Ok(changes) => Ok(changes_view(changes@)),
                    Err(error) => Err(error@),
                },
            },
            Response::Mutation { id, result } => ResponseView::Mutation {
                id,
                result: match result {
                    Ok(outcome) => Ok(outcome@),
                    Err(error) => Err(error@),
                },
            },
        }
    }
}

/// The replies in a list.
pub open spec fn responses_view(responses: Seq<Response>) -> Seq<ResponseView> {
    responses.map_values(|response: Response| response@)
}

/// Whether a reply lists only what lies directly below the directory that it
/// names, and nothing twice.
pub open spec fn is_valid_response(response: ResponseView) -> bool {
    match response {
        ResponseView::Load { path, result, .. } => match result {
            Ok(listing) => entries_of(listing.entries, path),
            Err(_) => true,
        },
        _ => true,
    }
}

/// Whether all replies are valid.
pub open spec fn are_valid_responses(responses: Seq<ResponseView>) -> bool {
    forall|i: int| 0 <= i < responses.len() ==> is_valid_response(#[trigger] responses[i])
}

/// News from the file system watcher.
#[derive(Debug, Clone, PartialEq, Eq)]
pub enum WatchSignal {
    /// Something happened at these paths.
    Paths(Vec<PathBuf>),
    /// Something happened, and it is not known where.
    Rescan,
}

/// What a [`WatchSignal`] is, as a value.
pub enum SignalView {
    Paths(Seq<WrittenPath>),
    Rescan,
}

impl View for WatchSignal {
    type V = SignalView;

    open spec fn view(&self) -> SignalView {
        match *self {
            WatchSignal::Paths(paths) => SignalView::Paths(spelled_paths(paths@)),
            WatchSignal::Rescan => SignalView::Rescan,
        }
    }
}

/// The signals in a list.
pub open spec fn signals_view(signals: Seq<WatchSignal>) -> Seq<SignalView> {
    signals.map_values(|signal: WatchSignal| signal@)
}

/// The paths outside the repository directory of the workspace.
pub open spec fn watched_paths(root: Seq<Part>, paths: Seq<WrittenPath>) -> Seq<WrittenPath> {
    paths.filter(|path: WrittenPath| !is_under(path.path, child_path(root, dot_git())))
}

/// The signal for an event of the watcher, which names paths or has failed.
/// Events inside the repository directory give no signal.
pub open spec fn event_signal(root: Seq<Part>, event: Option<Seq<WrittenPath>>) -> Option<
    SignalView,
> {
    match event {
        Some(paths) => if watched_paths(root, paths).len() == 0 {
            None
        } else {
            Some(SignalView::Paths(watched_paths(root, paths)))
        },
        None => Some(SignalView::Rescan),
    }
}

/// The signal for an event of the watcher: the paths that it names, or `None`
/// when the watcher failed.
pub fn watch_signal(root: &PathBuf, event: Option<Vec<PathBuf>>) -> (signal: Option<WatchSignal>)
    ensures
        (match signal {
            Some(signal) => Some(signal@),
            None => None,
        }) == event_signal(
            root@,
            match event {
                Some(paths) => Some(spelled_paths(paths@)),
                None => None,
            },
        ),
{
    let paths = match event {
        Some(paths) => paths,
        None => return Some(WatchSignal::Rescan),
    };
    let mut name: Vec<u8> = Vec::new();
    name.push(0x2e);
    name.push(0x67);
    name.push(0x69);
    name.push(0x74);
    assert(name@ =~= dot_git());
    let ignored = root.child(&name);
    let ghost outside = |path: WrittenPath| !is_under(path.path, ignored@);
    let ghost all = spelled_paths(paths@);
    let mut kept: Vec<PathBuf> = Vec::new();
    let mut i: usize = 0;
    assert(all.take(0) =~= Seq::<WrittenPath>::empty());
    assert(spelled_paths(kept@) =~= Seq::<WrittenPath>::empty().filter(outside));
    while i < paths.len()
        invariant
            i <= paths@.len(),
            all == spelled_paths(paths@),
            outside == (|path: WrittenPath| !is_under(path.path, ignored@)),
            spelled_paths(kept@) == all.take(i as int).filter(outside),
        decreases paths@.len() - i,
    {
        proof {
            reveal(Seq::filter);
            assert(all.take(i + 1).drop_last() =~= all.take(i as int));
            assert(all.take(i + 1).last() == paths@[i as int].spelled());
        }
        if !paths[i].starts_with(&ignored) {
            let ghost before = kept@;
            kept.push(paths[i].duplicate());
            assert(spelled_paths(kept@) =~= spelled_paths(before).push(
                paths@[i as int].spelled(),
            ));
        }
        i += 1;
    }
    assert(all.take(i as int) =~= all);
    if kept.len() == 0 {
        return None;
    }
    Some(WatchSignal::Paths(kept))
}

} // verus!
