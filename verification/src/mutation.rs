//! File operations, step by step: what is asked of the file system next, and
//! what each answer leads to.
//!
//! An operation walks from the workspace root to the directory that it is
//! about, one name at a time, and never through a link. Trust is asked for
//! before the root is opened and again before the walk starts.

use vstd::prelude::*;
use vstd::string::*;
use vstd::utf8::*;

use crate::bytes::copy_bytes;
use crate::jobs::{MutationOutcome, MutationView, OutcomeView, SidebarMutation};
use crate::path::{
    bytes_below, child_path, dot_git, is_dot_git_name, is_under, joined_bytes, parse_path,
    Component, Part, PathBuf, WrittenPath,
};
use crate::text::{failure, failure_text, join2, join3, lossy_text};
use crate::trust::WorkspaceTrustState;

verus! {

/// The name that `text` stands for, if it is one name and not `.git`.
pub open spec fn checked_name(text: Seq<u8>) -> Result<Seq<u8>, Seq<char>> {
    let parts = parse_path(text);
    if parts.len() == 0 || !(parts[0] is Normal) {
        Err("name must be one non-empty path component"@)
    } else if parts.len() > 1 || parts[0] == Part::Normal(dot_git()) {
        Err("name must be one non-.git path component"@)
    } else {
        Ok(parts[0]->Normal_0)
    }
}

/// A result that carries a name.
pub open spec fn name_result(result: Result<Vec<u8>, String>) -> Result<Seq<u8>, Seq<char>> {
    match result {
        Ok(name) => Ok(name@),
        Err(error) => Err(error@),
    }
}

/// Checks that a name is one path component and not `.git`.
pub fn validate_mutation_name(name: &str) -> (checked: Result<Vec<u8>, String>)
    ensures
        name_result(checked) == checked_name(encode_utf8(name@)),
{
    let path = PathBuf::from_bytes(name.as_bytes());
    if path.count() == 0 {
        return Err("name must be one non-empty path component".to_owned());
    }
    match path.component(0) {
        Component::Normal(component) => if path.count() > 1 || is_dot_git_name(component) {
            Err("name must be one non-.git path component".to_owned())
        } else {
            Ok(copy_bytes(component))
        },
        _ => Err("name must be one non-empty path component".to_owned()),
    }
}

/// What the trust store answered.
pub open spec fn trust_checked(answer: Result<WorkspaceTrustState, Seq<char>>) -> Result<
    (),
    Seq<char>,
> {
    match answer {
        Ok(WorkspaceTrustState::Trusted) => Ok(()),
        Ok(_) => Err("workspace is not trusted"@),
        Err(error) => Err("failed to verify workspace trust: "@ + error),
    }
}

/// Checks the answer of the trust store.
pub fn verify_mutation_trust(answer: Result<WorkspaceTrustState, String>) -> (checked: Result<
    (),
    String,
>)
    ensures
        crate::jobs::unit_result(checked) == trust_checked(
            match answer {
                Ok(state) => Ok(state),
                Err(error) => Err(error@),
            },
        ),
{
    match answer {
        Ok(WorkspaceTrustState::Trusted) => Ok(()),
        Ok(_) => Err("workspace is not trusted".to_owned()),
        Err(error) => Err(join2("failed to verify workspace trust: ", error.as_str())),
    }
}

/// How far an operation is: what it waits for.
#[derive(Debug, Clone, Copy, PartialEq, Eq, Structural)]
pub enum MutationPhase {
    /// The trust store.
    Trust,
    /// The resolved workspace root.
    Root,
    /// A handle of the root.
    Handle,
    /// The trust store, once more.
    TrustAgain,
    /// A copy of the root's handle, to walk with.
    Walk,
    /// Whether the next directory is a link.
    Inspect,
    /// The next directory.
    Open,
    /// Whether the directory that was opened has become a link.
    Recheck,
    /// Whether the target is there.
    Leaf,
    /// Whether the root's path still leads to the root's handle.
    Compare,
    /// The operation itself.
    Apply,
}

/// An operation under way.
#[derive(Debug)]
pub struct MutationRun {
    root: PathBuf,
    mutation: SidebarMutation,
    phase: MutationPhase,
    /// The way from the root to the directory, and how much of it is behind.
    steps: PathBuf,
    taken: usize,
    /// The name that the target has now.
    leaf: Vec<u8>,
    /// The name that is made.
    name: Vec<u8>,
}

/// What a [`MutationRun`] is, as a value.
pub struct RunView {
    pub root: Seq<Part>,
    /// The bytes that the root is written with.
    pub root_text: Seq<u8>,
    pub mutation: MutationView,
    pub phase: MutationPhase,
    pub steps: Seq<Part>,
    pub taken: nat,
    pub leaf: Seq<u8>,
    pub name: Seq<u8>,
}

impl View for MutationRun {
    type V = RunView;

    closed spec fn view(&self) -> RunView {
        RunView {
            root: self.root@,
            root_text: self.root.written(),
            mutation: self.mutation@,
            phase: self.phase,
            steps: self.steps@,
            taken: self.taken as nat,
            leaf: self.leaf@,
            name: self.name@,
        }
    }
}

/// What is asked of the file system and the trust store. Names are looked up in
/// the directory that the walk has reached.
#[derive(Debug, Clone, PartialEq, Eq)]
pub enum MutationAction {
    ResolveTrust,
    ResolveRoot(PathBuf),
    OpenRoot(PathBuf),
    StartWalk,
    /// Ask whether a name is a link.
    InspectDirectory(Vec<u8>),
    /// Go to a directory. The directory before it stays open until the name was
    /// asked about again.
    OpenDirectory(Vec<u8>),
    /// Ask once more whether the name is a link.
    RecheckDirectory(Vec<u8>),
    /// Ask whether a name is there, without following it.
    InspectLeaf(Vec<u8>),
    CompareRoot(PathBuf),
    /// Make a file that does not exist yet.
    CreateFile(Vec<u8>),
    CreateDirectory(Vec<u8>),
    /// Rename without replacing anything.
    Rename { from: Vec<u8>, to: Vec<u8> },
    Trash(PathBuf),
}

/// What a [`MutationAction`] is, as a value.
pub enum ActionView {
    ResolveTrust,
    ResolveRoot(WrittenPath),
    OpenRoot(WrittenPath),
    StartWalk,
    InspectDirectory(Seq<u8>),
    OpenDirectory(Seq<u8>),
    RecheckDirectory(Seq<u8>),
    InspectLeaf(Seq<u8>),
    CompareRoot(WrittenPath),
    CreateFile(Seq<u8>),
    CreateDirectory(Seq<u8>),
    Rename { from: Seq<u8>, to: Seq<u8> },
    Trash(WrittenPath),
}

impl View for MutationAction {
    type V = ActionView;

    open spec fn view(&self) -> ActionView {
        match *self {
            MutationAction::ResolveTrust => ActionView::ResolveTrust,
            MutationAction::ResolveRoot(path) => ActionView::ResolveRoot(path.spelled()),
            MutationAction::OpenRoot(path) => ActionView::OpenRoot(path.spelled()),
            MutationAction::StartWalk => ActionView::StartWalk,
            MutationAction::InspectDirectory(name) => ActionView::InspectDirectory(name@),
            MutationAction::OpenDirectory(name) => ActionView::OpenDirectory(name@),
            MutationAction::RecheckDirectory(name) => ActionView::RecheckDirectory(name@),
            MutationAction::InspectLeaf(name) => ActionView::InspectLeaf(name@),
            MutationAction::CompareRoot(path) => ActionView::CompareRoot(path.spelled()),
            MutationAction::CreateFile(name) => ActionView::CreateFile(name@),
            MutationAction::CreateDirectory(name) => ActionView::CreateDirectory(name@),
            MutationAction::Rename { from, to } => ActionView::Rename { from: from@, to: to@ },
            MutationAction::Trash(path) => ActionView::Trash(path.spelled()),
        }
    }
}

/// Why an action failed.
#[derive(Debug, Clone, PartialEq, Eq)]
pub struct ActionFailure {
    /// Whether something stands where the action would put something.
    pub already_exists: bool,
    pub message: String,
}

/// An answer.
#[derive(Debug)]
pub enum MutationEvent {
    /// The trust store answered.
    Trust(Result<WorkspaceTrustState, String>),
    /// The root was resolved.
    Resolved(Result<PathBuf, String>),
    /// A name is a link, or not.
    Link(Result<bool, String>),
    /// Two things are the same, or not.
    Same(bool),
    /// Something was done.
    Done(Result<(), ActionFailure>),
}

/// A failure, as a value.
pub struct FailureView {
    pub already_exists: bool,
    pub message: Seq<char>,
}

/// What a [`MutationEvent`] is, as a value.
pub enum EventView {
    Trust(Result<WorkspaceTrustState, Seq<char>>),
    Resolved(Result<WrittenPath, Seq<char>>),
    Link(Result<bool, Seq<char>>),
    Same(bool),
    Done(Result<(), FailureView>),
}

impl View for MutationEvent {
    type V = EventView;

    open spec fn view(&self) -> EventView {
        match *self {
            MutationEvent::Trust(answer) => EventView::Trust(
                match answer {
                    Ok(state) => Ok(state),
                    Err(error) => Err(error@),
                },
            ),
            MutationEvent::Resolved(answer) => EventView::Resolved(
                match answer {
                    Ok(path) => Ok(path.spelled()),
                    Err(error) => Err(error@),
                },
            ),
            MutationEvent::Link(answer) => EventView::Link(
                match answer {
                    Ok(link) => Ok(link),
                    Err(error) => Err(error@),
                },
            ),
            MutationEvent::Same(same) => EventView::Same(same),
            MutationEvent::Done(answer) => EventView::Done(
                match answer {
                    Ok(()) => Ok(()),
                    Err(failure) => Err(
                        FailureView {
                            already_exists: failure.already_exists,
                            message: failure.message@,
                        },
                    ),
                },
            ),
        }
    }
}

/// Whether an answer is one to what an operation waits for.
pub open spec fn answers(phase: MutationPhase, event: EventView) -> bool {
    match phase {
        MutationPhase::Trust => event is Trust,
        MutationPhase::TrustAgain => event is Trust,
        MutationPhase::Root => event is Resolved,
        MutationPhase::Inspect => event is Link,
        MutationPhase::Recheck => event is Link,
        MutationPhase::Compare => event is Same,
        _ => event is Done,
    }
}

/// The directory that the walk has reached.
pub open spec fn reached(run: RunView) -> Seq<Part> {
    run.root + run.steps.take(run.taken as int)
}

/// The bytes that the directory is written with that the walk has reached.
pub open spec fn reached_text(run: RunView) -> Seq<u8> {
    bytes_below(run.root_text, run.steps.take(run.taken as int))
}

/// What a message calls a name in the directory that the walk has reached.
pub open spec fn text_of_name(run: RunView, name: Seq<u8>) -> Seq<char> {
    lossy_text(joined_bytes(reached_text(run), name))
}

/// The name that the walk comes to next.
pub open spec fn next_name(run: RunView) -> Seq<u8> {
    run.steps[run.taken as int]->Normal_0
}

/// The path that a rename or a move to the trash is about.
pub open spec fn target_of(mutation: MutationView) -> Seq<Part> {
    match mutation {
        MutationView::Rename { source, .. } => source.path,
        MutationView::Trash { target } => target.path,
        _ => Seq::empty(),
    }
}

/// The bytes that this path is written with.
pub open spec fn target_text(mutation: MutationView) -> Seq<u8> {
    match mutation {
        MutationView::Rename { source, .. } => source.text,
        MutationView::Trash { target } => target.text,
        _ => Seq::empty(),
    }
}

/// The root, with its bytes.
pub open spec fn written_root(run: RunView) -> WrittenPath {
    WrittenPath { path: run.root, text: run.root_text }
}

/// What an operation asks for next.
pub open spec fn action_of(run: RunView) -> ActionView {
    match run.phase {
        MutationPhase::Trust => ActionView::ResolveTrust,
        MutationPhase::TrustAgain => ActionView::ResolveTrust,
        MutationPhase::Root => ActionView::ResolveRoot(written_root(run)),
        MutationPhase::Handle => ActionView::OpenRoot(written_root(run)),
        MutationPhase::Walk => ActionView::StartWalk,
        MutationPhase::Inspect => ActionView::InspectDirectory(next_name(run)),
        MutationPhase::Open => ActionView::OpenDirectory(next_name(run)),
        MutationPhase::Recheck => ActionView::RecheckDirectory(next_name(run)),
        MutationPhase::Leaf => ActionView::InspectLeaf(run.leaf),
        MutationPhase::Compare => ActionView::CompareRoot(written_root(run)),
        MutationPhase::Apply => match run.mutation {
            MutationView::CreateFile { .. } => ActionView::CreateFile(run.name),
            MutationView::CreateDirectory { .. } => ActionView::CreateDirectory(run.name),
            MutationView::Rename { .. } => ActionView::Rename { from: run.leaf, to: run.name },
            MutationView::Trash { target } => ActionView::Trash(target),
        },
    }
}

/// Where an operation goes from an answer.
pub enum ProgressView {
    Running(RunView),
    Finished(Result<OutcomeView, Seq<char>>),
}

pub open spec fn failed(message: Seq<char>) -> ProgressView {
    ProgressView::Finished(Err(message))
}

pub open spec fn escapes_message() -> Seq<char> {
    "file operation escapes the workspace"@
}

pub open spec fn repository_message() -> Seq<char> {
    "workspace .git cannot be modified"@
}

pub open spec fn invalid_message() -> Seq<char> {
    "invalid file operation path"@
}

/// Whether all components are names.
pub open spec fn all_names(parts: Seq<Part>) -> bool {
    forall|i: int| 0 <= i < parts.len() ==> #[trigger] parts[i] is Normal
}

/// The walk to a directory begins.
pub open spec fn walk_begun(run: RunView, parent: Seq<Part>) -> ProgressView {
    if !is_under(parent, run.root) {
        failed(escapes_message())
    } else {
        ProgressView::Running(
            RunView {
                phase: MutationPhase::Walk,
                steps: parent.skip(run.root.len() as int),
                taken: 0,
                ..run
            },
        )
    }
}

/// The walk to the directory of a target begins.
pub open spec fn leaf_walk_begun(run: RunView, target: Seq<Part>) -> ProgressView {
    let parts = target.skip(run.root.len() as int);
    let front = parts.drop_last();
    if target == run.root {
        failed("workspace root cannot be modified"@)
    } else if !is_under(target, run.root) {
        failed(escapes_message())
    } else if !(parts.last() is Normal) {
        failed("file operation target has no name"@)
    } else if front.len() > 0 && front[0] == Part::Normal(dot_git()) {
        failed(repository_message())
    } else if !all_names(front) {
        failed(invalid_message())
    } else {
        ProgressView::Running(
            RunView {
                phase: MutationPhase::Walk,
                steps: front,
                taken: 0,
                leaf: parts.last()->Normal_0,
                ..run
            },
        )
    }
}

/// The operation proper begins.
pub open spec fn begun(run: RunView) -> ProgressView {
    match run.mutation {
        MutationView::CreateFile { parent, .. } => walk_begun(run, parent.path),
        MutationView::CreateDirectory { parent, .. } => walk_begun(run, parent.path),
        MutationView::Rename { source, .. } => leaf_walk_begun(run, source.path),
        MutationView::Trash { target } => leaf_walk_begun(run, target.path),
    }
}

/// With the new name checked, the operation can be applied.
pub open spec fn name_settled(run: RunView, name: Seq<char>) -> ProgressView {
    match checked_name(encode_utf8(name)) {
        Ok(name) => ProgressView::Running(RunView { phase: MutationPhase::Apply, name, ..run }),
        Err(error) => failed(error),
    }
}

/// The walk has reached the directory.
pub open spec fn arrived(run: RunView) -> ProgressView {
    match run.mutation {
        MutationView::CreateFile { name, .. } => name_settled(run, name),
        MutationView::CreateDirectory { name, .. } => name_settled(run, name),
        _ => ProgressView::Running(RunView { phase: MutationPhase::Leaf, ..run }),
    }
}

/// The walk goes on.
pub open spec fn stepped(run: RunView) -> ProgressView {
    if run.taken >= run.steps.len() {
        arrived(run)
    } else if !(run.steps[run.taken as int] is Normal) {
        failed(invalid_message())
    } else if run.taken == 0 && run.steps[0] == Part::Normal(dot_git()) {
        failed(repository_message())
    } else {
        ProgressView::Running(RunView { phase: MutationPhase::Inspect, ..run })
    }
}

/// The operation was applied, or failed.
pub open spec fn applied(run: RunView, answer: Result<(), FailureView>) -> ProgressView {
    let parent = WrittenPath { path: reached(run), text: reached_text(run) };
    let made = WrittenPath {
        path: child_path(reached(run), run.name),
        text: joined_bytes(reached_text(run), run.name),
    };
    let made_text = text_of_name(run, run.name);
    let target = lossy_text(target_text(run.mutation));
    match answer {
        Ok(()) => ProgressView::Finished(
            Ok(
                OutcomeView {
                    affected_parent: parent,
                    selected: match run.mutation {
                        MutationView::Trash { .. } => parent,
                        _ => made,
                    },
                },
            ),
        ),
        Err(failure) => failed(
            match run.mutation {
                MutationView::Rename { .. } => if failure.already_exists {
                    made_text + " already exists"@
                } else {
                    failure_text(
                        "failed to rename "@ + target + " to "@,
                        made_text,
                        failure.message,
                    )
                },
                MutationView::Trash { .. } => "failed to move "@ + target
                    + " to trash; original was not permanently deleted: "@ + failure.message,
                _ => failure_text("failed to create "@, made_text, failure.message),
            },
        ),
    }
}

/// What an answer leads to.
pub open spec fn advanced(run: RunView, event: EventView) -> ProgressView {
    match run.phase {
        MutationPhase::Trust => match trust_checked(event->Trust_0) {
            Ok(()) => ProgressView::Running(RunView { phase: MutationPhase::Root, ..run }),
            Err(error) => failed(error),
        },
        MutationPhase::Root => match event->Resolved_0 {
            Ok(root) => ProgressView::Running(
                RunView {
                    root: root.path,
                    root_text: root.text,
                    phase: MutationPhase::Handle,
                    ..run
                },
            ),
            Err(error) => failed("failed to resolve workspace root: "@ + error),
        },
        MutationPhase::Handle => match event->Done_0 {
            Ok(()) => ProgressView::Running(RunView { phase: MutationPhase::TrustAgain, ..run }),
            Err(failure) => failed("failed to open workspace root: "@ + failure.message),
        },
        MutationPhase::TrustAgain => match trust_checked(event->Trust_0) {
            Ok(()) => begun(run),
            Err(error) => failed(error),
        },
        MutationPhase::Walk => match event->Done_0 {
            Ok(()) => stepped(run),
            Err(failure) => failed("failed to clone workspace handle: "@ + failure.message),
        },
        MutationPhase::Inspect => match event->Link_0 {
            Ok(false) => ProgressView::Running(RunView { phase: MutationPhase::Open, ..run }),
            Ok(true) => failed("file operations inside symlink directories are not allowed"@),
            Err(error) => failed(
                failure_text(
                    "failed to inspect "@,
                    text_of_name(run, next_name(run)),
                    error,
                ),
            ),
        },
        MutationPhase::Open => match event->Done_0 {
            Ok(()) => ProgressView::Running(RunView { phase: MutationPhase::Recheck, ..run }),
            Err(failure) => failed(
                failure_text(
                    "failed to open "@,
                    text_of_name(run, next_name(run)),
                    failure.message,
                ),
            ),
        },
        MutationPhase::Recheck => match event->Link_0 {
            Ok(false) => stepped(RunView { taken: run.taken + 1, ..run }),
            _ => failed("file operation path changed during validation"@),
        },
        MutationPhase::Leaf => match event->Done_0 {
            Ok(()) => match run.mutation {
                MutationView::Rename { name, .. } => name_settled(run, name),
                _ => ProgressView::Running(RunView { phase: MutationPhase::Compare, ..run }),
            },
            Err(failure) => failed(
                failure_text(
                    "failed to inspect "@,
                    lossy_text(target_text(run.mutation)),
                    failure.message,
                ),
            ),
        },
        MutationPhase::Compare => if event->Same_0 {
            ProgressView::Running(RunView { phase: MutationPhase::Apply, ..run })
        } else {
            failed("workspace path changed before trash"@)
        },
        MutationPhase::Apply => applied(run, event->Done_0),
    }
}

/// An operation that begins.
pub open spec fn started(root: WrittenPath, trust: bool, mutation: MutationView) -> ProgressView {
    if trust {
        ProgressView::Running(
            RunView {
                root: root.path,
                root_text: root.text,
                mutation,
                phase: MutationPhase::Trust,
                steps: Seq::empty(),
                taken: 0,
                leaf: Seq::empty(),
                name: Seq::empty(),
            },
        )
    } else {
        failed("workspace trust is unavailable"@)
    }
}

/// Whether an operation is past the second look at trust.
pub open spec fn is_walking(phase: MutationPhase) -> bool {
    !(phase is Trust) && !(phase is Root) && !(phase is Handle) && !(phase is TrustAgain)
}

/// Whether an operation has a name in its way to come to.
pub open spec fn is_at_step(phase: MutationPhase) -> bool {
    phase is Inspect || phase is Open || phase is Recheck
}

/// What holds of an operation at all times: the way lies below the root, what
/// is behind are names, and it does not lead into the repository directory.
pub open spec fn run_ok(run: RunView) -> bool {
    &&& run.taken <= run.steps.len()
    &&& is_at_step(run.phase) ==> run.taken < run.steps.len()
        && run.steps[run.taken as int] is Normal
    &&& is_at_step(run.phase) ==> !(run.taken == 0 && run.steps[0] == Part::Normal(dot_git()))
    &&& run.taken > 0 ==> run.steps[0] != Part::Normal(dot_git())
    &&& all_names(run.steps.take(run.taken as int))
    &&& run.phase is Apply && !(run.mutation is Trash) ==> run.name != dot_git()
    &&& run.phase is Apply || run.phase is Leaf || run.phase is Compare ==> run.taken
        == run.steps.len()
    &&& run.phase is Compare ==> run.mutation is Trash
    &&& run.phase is Leaf ==> run.mutation is Trash || run.mutation is Rename
    &&& is_walking(run.phase) && (run.mutation is Trash || run.mutation is Rename) ==> target_of(
        run.mutation,
    ) == child_path(run.root + run.steps, run.leaf)
}

/// What became of an operation.
#[derive(Debug)]
pub enum MutationProgress {
    Running(MutationRun),
    Finished(Result<MutationOutcome, String>),
}

impl View for MutationProgress {
    type V = ProgressView;

    open spec fn view(&self) -> ProgressView {
        match *self {
            MutationProgress::Running(run) => ProgressView::Running(run@),
            MutationProgress::Finished(result) => ProgressView::Finished(
                match result {
                    Ok(outcome) => Ok(outcome@),
                    Err(error) => Err(error@),
                },
            ),
        }
    }
}

/// Whether an operation that is still under way is in order.
pub open spec fn progress_ok(progress: ProgressView) -> bool {
    match progress {
        ProgressView::Running(run) => run_ok(run),
        ProgressView::Finished(_) => true,
    }
}

proof fn lemma_stepped_ok(run: RunView)
    requires
        run.taken <= run.steps.len(),
        run.taken > 0 ==> run.steps[0] != Part::Normal(dot_git()),
        all_names(run.steps.take(run.taken as int)),
        is_walking(run.phase) && (run.mutation is Trash || run.mutation is Rename) ==> target_of(
            run.mutation,
        ) == child_path(run.root + run.steps, run.leaf),
        is_walking(run.phase),
    ensures
        progress_ok(stepped(run)),
{
}

/// An operation stays in order.
pub proof fn lemma_advanced_ok(run: RunView, event: EventView)
    requires
        run_ok(run),
        answers(run.phase, event),
    ensures
        progress_ok(advanced(run, event)),
{
    match run.phase {
        MutationPhase::TrustAgain => {
            if let Ok(()) = trust_checked(event->Trust_0) {
                if run.mutation is Rename || run.mutation is Trash {
                    let target = target_of(run.mutation);
                    if is_under(target, run.root) && target != run.root {
                        let parts = target.skip(run.root.len() as int);
                        assert(target =~= run.root + parts);
                        if parts.last() is Normal {
                            assert(target =~= child_path(
                                run.root + parts.drop_last(),
                                parts.last()->Normal_0,
                            ));
                        }
                    }
                }
                if let ProgressView::Running(after) = begun(run) {
                    assert(after.steps.take(0) =~= Seq::<Part>::empty());
                }
            }
        },
        MutationPhase::Recheck => {
            let after = RunView { taken: run.taken + 1, ..run };
            assert(after.steps.take(after.taken as int) =~= run.steps.take(
                run.taken as int,
            ).push(run.steps[run.taken as int]));
            lemma_stepped_ok(after);
        },
        MutationPhase::Walk => {
            lemma_stepped_ok(run);
        },
        _ => {},
    }
}

fn finish_with(message: &str) -> (progress: MutationProgress)
    ensures
        progress@ == failed(message@),
{
    MutationProgress::Finished(Err(message.to_owned()))
}

fn finish_because(what: &str, reason: &str) -> (progress: MutationProgress)
    ensures
        progress@ == failed(what@ + reason@),
{
    MutationProgress::Finished(Err(join2(what, reason)))
}

impl MutationRun {
    /// What holds of an operation at all times.
    pub open spec fn wf(&self) -> bool {
        run_ok(self@)
    }

    /// Begins an operation. `trust` says whether there is a store to ask for
    /// the workspace's trust.
    pub fn start(root: PathBuf, trust: bool, mutation: SidebarMutation) -> (progress:
        MutationProgress)
        ensures
            progress@ == started(root.spelled(), trust, mutation@),
            progress_ok(progress@),
    {
        if !trust {
            return finish_with("workspace trust is unavailable");
        }
        let run = MutationRun {
            root,
            mutation,
            phase: MutationPhase::Trust,
            steps: PathBuf::empty(),
            taken: 0,
            leaf: Vec::new(),
            name: Vec::new(),
        };
        proof {
            assert(run@.leaf =~= Seq::<u8>::empty());
            assert(run@.name =~= Seq::<u8>::empty());
        }
        MutationProgress::Running(run)
    }

    /// The name that the walk comes to next.
    fn step_name(&self) -> (name: Vec<u8>)
        requires
            self@.taken < self@.steps.len(),
            self@.steps[self@.taken as int] is Normal,
        ensures
            name@ == next_name(self@),
    {
        match self.steps.component(self.taken) {
            Component::Normal(name) => copy_bytes(name),
            _ => Vec::new(),
        }
    }

    /// What is to be asked or done next.
    pub fn action(&self) -> (action: MutationAction)
        requires
            self.wf(),
        ensures
            action@ == action_of(self@),
    {
        match self.phase {
            MutationPhase::Trust => MutationAction::ResolveTrust,
            MutationPhase::TrustAgain => MutationAction::ResolveTrust,
            MutationPhase::Root => MutationAction::ResolveRoot(self.root.duplicate()),
            MutationPhase::Handle => MutationAction::OpenRoot(self.root.duplicate()),
            MutationPhase::Walk => MutationAction::StartWalk,
            MutationPhase::Inspect => MutationAction::InspectDirectory(self.step_name()),
            MutationPhase::Open => MutationAction::OpenDirectory(self.step_name()),
            MutationPhase::Recheck => MutationAction::RecheckDirectory(self.step_name()),
            MutationPhase::Leaf => MutationAction::InspectLeaf(copy_bytes(&self.leaf)),
            MutationPhase::Compare => MutationAction::CompareRoot(self.root.duplicate()),
            MutationPhase::Apply => match &self.mutation {
                SidebarMutation::CreateFile { .. } => MutationAction::CreateFile(
                    copy_bytes(&self.name),
                ),
                SidebarMutation::CreateDirectory { .. } => MutationAction::CreateDirectory(
                    copy_bytes(&self.name),
                ),
                SidebarMutation::Rename { .. } => MutationAction::Rename {
                    from: copy_bytes(&self.leaf),
                    to: copy_bytes(&self.name),
                },
                SidebarMutation::Trash { target } => MutationAction::Trash(target.duplicate()),
            },
        }
    }

    /// The directory that the walk has reached.
    fn directory(&self) -> (path: PathBuf)
        requires
            run_ok(self@),
        ensures
            path@ == reached(self@),
            path.written() == reached_text(self@),
    {
        let ghost walked = self@.steps.take(self@.taken as int);
        let mut path = self.root.duplicate();
        let mut i: usize = 0;
        assert(walked.take(0) =~= Seq::<Part>::empty());
        assert(path@ =~= self@.root + walked.take(0));
        while i < self.taken
            invariant
                run_ok(self@),
                i <= self.taken == self@.taken,
                self@.steps == self.steps@,
                walked == self@.steps.take(self@.taken as int),
                path@ == self@.root + walked.take(i as int),
                path.written() == bytes_below(self@.root_text, walked.take(i as int)),
            decreases self.taken - i,
        {
            let ghost before = path@;
            assert(walked[i as int] is Normal);
            if let Component::Normal(name) = self.steps.component(i) {
                path = path.child(name);
            }
            i += 1;
            proof {
                assert(walked.take(i as int).drop_last() =~= walked.take(i - 1));
                assert(walked.take(i as int).last() == walked[i - 1]);
                assert(path@ =~= self@.root + walked.take(i as int));
            }
        }
        assert(walked.take(i as int) =~= walked);
        path
    }

    fn with_phase(self, phase: MutationPhase) -> (progress: MutationProgress)
        ensures
            progress@ == ProgressView::Running(RunView { phase, ..self@ }),
    {
        let mut run = self;
        run.phase = phase;
        MutationProgress::Running(run)
    }

    fn begin_walk(self, parent: PathBuf) -> (progress: MutationProgress)
        ensures
            progress@ == walk_begun(self@, parent@),
    {
        let steps = match parent.strip_prefix(&self.root) {
            Some(steps) => steps,
            None => return finish_with("file operation escapes the workspace"),
        };
        let mut run = self;
        run.steps = steps;
        run.taken = 0;
        run.phase = MutationPhase::Walk;
        MutationProgress::Running(run)
    }

    fn begin_leaf_walk(self, target: PathBuf) -> (progress: MutationProgress)
        ensures
            progress@ == leaf_walk_begun(self@, target@),
    {
        if target.same(&self.root) {
            return finish_with("workspace root cannot be modified");
        }
        let parts = match target.strip_prefix(&self.root) {
            Some(parts) => parts,
            None => return finish_with("file operation escapes the workspace"),
        };
        let count = parts.count();
        proof {
            if count == 0 {
                assert(target@ =~= self.root@);
            }
        }
        let leaf = match parts.component(count - 1) {
            Component::Normal(name) => copy_bytes(name),
            _ => return finish_with("file operation target has no name"),
        };
        let front = parts.take(count - 1);
        assert(front@ =~= parts@.drop_last());
        if count > 1 {
            if front.component(0).is_dot_git() {
                return finish_with("workspace .git cannot be modified");
            }
        }
        let mut i: usize = 0;
        while i < count - 1
            invariant
                count >= 1,
                i <= count - 1,
                front@.len() == count - 1,
                forall|j: int| 0 <= j < i ==> #[trigger] front@[j] is Normal,
            ensures
                all_names(front@) == (i == count - 1),
            decreases count - 1 - i,
        {
            if let Component::Normal(_) = front.component(i) {
                i += 1;
            } else {
                assert(!all_names(front@));
                break;
            }
        }
        if i < count - 1 {
            return finish_with("invalid file operation path");
        }
        let mut run = self;
        run.steps = front;
        run.taken = 0;
        run.leaf = leaf;
        run.phase = MutationPhase::Walk;
        MutationProgress::Running(run)
    }

    fn begin(self) -> (progress: MutationProgress)
        ensures
            progress@ == begun(self@),
    {
        match &self.mutation {
            SidebarMutation::CreateFile { parent, .. } => {
                let parent = parent.duplicate();
                self.begin_walk(parent)
            },
            SidebarMutation::CreateDirectory { parent, .. } => {
                let parent = parent.duplicate();
                self.begin_walk(parent)
            },
            SidebarMutation::Rename { source, .. } => {
                let target = source.duplicate();
                self.begin_leaf_walk(target)
            },
            SidebarMutation::Trash { target } => {
                let target = target.duplicate();
                self.begin_leaf_walk(target)
            },
        }
    }

    fn settle_name(self, checked: Result<Vec<u8>, String>, Ghost(text): Ghost<Seq<char>>) -> (
        progress: MutationProgress)
        requires
            name_result(checked) == checked_name(encode_utf8(text)),
        ensures
            progress@ == name_settled(self@, text),
    {
        match checked {
            Ok(name) => {
                let mut run = self;
                run.name = name;
                run.phase = MutationPhase::Apply;
                MutationProgress::Running(run)
            },
            Err(error) => MutationProgress::Finished(Err(error)),
        }
    }

    fn arrive(self) -> (progress: MutationProgress)
        ensures
            progress@ == arrived(self@),
    {
        match &self.mutation {
            SidebarMutation::CreateFile { name, .. } => {
                let checked = validate_mutation_name(name.as_str());
                let ghost text = name@;
                self.settle_name(checked, Ghost(text))
            },
            SidebarMutation::CreateDirectory { name, .. } => {
                let checked = validate_mutation_name(name.as_str());
                let ghost text = name@;
                self.settle_name(checked, Ghost(text))
            },
            _ => self.with_phase(MutationPhase::Leaf),
        }
    }

    fn step(self) -> (progress: MutationProgress)
        ensures
            progress@ == stepped(self@),
    {
        if self.taken >= self.steps.count() {
            return self.arrive();
        }
        let repository = match self.steps.component(self.taken) {
            Component::Normal(name) => is_dot_git_name(name),
            _ => return finish_with("invalid file operation path"),
        };
        if self.taken == 0 && repository {
            return finish_with("workspace .git cannot be modified");
        }
        self.with_phase(MutationPhase::Inspect)
    }

    fn step_failure(&self, what: &str, reason: &str) -> (progress: MutationProgress)
        requires
            run_ok(self@),
            is_at_step(self@.phase),
        ensures
            progress@ == failed(
                failure_text(
                    what@,
                    text_of_name(self@, next_name(self@)),
                    reason@,
                ),
            ),
    {
        let place = self.directory().child(&self.step_name());
        MutationProgress::Finished(Err(failure(what, place.display().as_str(), reason)))
    }

    fn apply(self, answer: Result<(), ActionFailure>) -> (progress: MutationProgress)
        requires
            run_ok(self@),
            self@.phase is Apply,
        ensures
            progress@ == applied(
                self@,
                match answer {
                    Ok(()) => Ok(()),
                    Err(failure) => Err(
                        FailureView {
                            already_exists: failure.already_exists,
                            message: failure.message@,
                        },
                    ),
                },
            ),
    {
        let parent = self.directory();
        let made = parent.child(&self.name);
        match answer {
            Ok(()) => {
                let selected = match &self.mutation {
                    SidebarMutation::Trash { .. } => parent.duplicate(),
                    _ => made,
                };
                MutationProgress::Finished(
                    Ok(MutationOutcome { affected_parent: parent, selected }),
                )
            },
            Err(reason) => {
                let message = match &self.mutation {
                    SidebarMutation::Rename { source, .. } => {
                        if reason.already_exists {
                            join2(made.display().as_str(), " already exists")
                        } else {
                            let what = join3(
                                "failed to rename ",
                                source.display().as_str(),
                                " to ",
                            );
                            failure(
                                what.as_str(),
                                made.display().as_str(),
                                reason.message.as_str(),
                            )
                        }
                    },
                    SidebarMutation::Trash { target } => {
                        let what = join3(
                            "failed to move ",
                            target.display().as_str(),
                            " to trash; original was not permanently deleted: ",
                        );
                        join2(what.as_str(), reason.message.as_str())
                    },
                    _ => failure(
                        "failed to create ",
                        made.display().as_str(),
                        reason.message.as_str(),
                    ),
                };
                MutationProgress::Finished(Err(message))
            },
        }
    }

    fn leaf_answered(self, answer: Result<(), ActionFailure>) -> (progress: MutationProgress)
        requires
            run_ok(self@),
            self@.phase is Leaf,
        ensures
            progress@ == advanced(
                self@,
                EventView::Done(
                    match answer {
                        Ok(()) => Ok(()),
                        Err(failure) => Err(
                            FailureView {
                                already_exists: failure.already_exists,
                                message: failure.message@,
                            },
                        ),
                    },
                ),
            ),
    {
        match answer {
            Ok(()) => match &self.mutation {
                SidebarMutation::Rename { name, .. } => {
                    let checked = validate_mutation_name(name.as_str());
                    let ghost text = name@;
                    self.settle_name(checked, Ghost(text))
                },
                _ => self.with_phase(MutationPhase::Compare),
            },
            Err(reason) => {
                let place = match &self.mutation {
                    SidebarMutation::Rename { source, .. } => source.display(),
                    SidebarMutation::Trash { target } => target.display(),
                    _ => String::new(),
                };
                MutationProgress::Finished(
                    Err(
                        failure(
                            "failed to inspect ",
                            place.as_str(),
                            reason.message.as_str(),
                        ),
                    ),
                )
            },
        }
    }

    /// Takes the answer to what was asked or done.
    pub fn next(self, event: MutationEvent) -> (progress: MutationProgress)
        requires
            self.wf(),
            answers(self@.phase, event@),
        ensures
            progress@ == advanced(self@, event@),
            progress_ok(progress@),
    {
        proof {
            lemma_advanced_ok(self@, event@);
        }
        match (self.phase, event) {
            (MutationPhase::Trust, MutationEvent::Trust(answer)) => {
                match verify_mutation_trust(answer) {
                    Ok(()) => self.with_phase(MutationPhase::Root),
                    Err(error) => MutationProgress::Finished(Err(error)),
                }
            },
            (MutationPhase::Root, MutationEvent::Resolved(answer)) => match answer {
                Ok(root) => {
                    let mut run = self;
                    run.root = root;
                    run.phase = MutationPhase::Handle;
                    MutationProgress::Running(run)
                },
                Err(error) => finish_because(
                    "failed to resolve workspace root: ",
                    error.as_str(),
                ),
            },
            (MutationPhase::Handle, MutationEvent::Done(answer)) => match answer {
                Ok(()) => self.with_phase(MutationPhase::TrustAgain),
                Err(reason) => finish_because(
                    "failed to open workspace root: ",
                    reason.message.as_str(),
                ),
            },
            (MutationPhase::TrustAgain, MutationEvent::Trust(answer)) => {
                match verify_mutation_trust(answer) {
                    Ok(()) => self.begin(),
                    Err(error) => MutationProgress::Finished(Err(error)),
                }
            },
            (MutationPhase::Walk, MutationEvent::Done(answer)) => match answer {
                Ok(()) => self.step(),
                Err(reason) => finish_because(
                    "failed to clone workspace handle: ",
                    reason.message.as_str(),
                ),
            },
            (MutationPhase::Inspect, MutationEvent::Link(answer)) => match answer {
                Ok(link) => if link {
                    finish_with("file operations inside symlink directories are not allowed")
                } else {
                    self.with_phase(MutationPhase::Open)
                },
                Err(error) => self.step_failure("failed to inspect ", error.as_str()),
            },
            (MutationPhase::Open, MutationEvent::Done(answer)) => match answer {
                Ok(()) => self.with_phase(MutationPhase::Recheck),
                Err(reason) => self.step_failure("failed to open ", reason.message.as_str()),
            },
            (MutationPhase::Recheck, MutationEvent::Link(answer)) => {
                let link = match answer {
                    Ok(link) => link,
                    Err(_) => true,
                };
                if link {
                    finish_with("file operation path changed during validation")
                } else {
                    assert(self@.taken < self@.steps.len());
                    proof {
                        self.steps.lemma_count();
                    }
                    let mut run = self;
                    run.taken = run.taken + 1;
                    run.step()
                }
            },
            (MutationPhase::Leaf, MutationEvent::Done(answer)) => self.leaf_answered(answer),
            (MutationPhase::Compare, MutationEvent::Same(same)) => if same {
                self.with_phase(MutationPhase::Apply)
            } else {
                finish_with("workspace path changed before trash")
            },
            (MutationPhase::Apply, MutationEvent::Done(answer)) => self.apply(answer),
            _ => finish_with("invalid file operation path"),
        }
    }
}

/// Where a list of answers leads. Nothing follows the end of an operation.
pub open spec fn answered(start: ProgressView, events: Seq<EventView>) -> ProgressView
    decreases events.len(),
{
    if events.len() == 0 {
        start
    } else {
        match answered(start, events.drop_last()) {
            ProgressView::Running(run) => advanced(run, events.last()),
            finished => finished,
        }
    }
}

/// Whether each answer is one to what was asked, up to the end.
pub open spec fn all_answer(start: ProgressView, events: Seq<EventView>) -> bool
    decreases events.len(),
{
    events.len() == 0 || (all_answer(start, events.drop_last()) && (answered(
        start,
        events.drop_last(),
    ) matches ProgressView::Running(run) && answers(run.phase, events.last())))
}

/// How many answers lead to a phase, among the first ones.
spec fn rank(phase: MutationPhase) -> nat {
    match phase {
        MutationPhase::Trust => 0,
        MutationPhase::Root => 1,
        MutationPhase::Handle => 2,
        MutationPhase::TrustAgain => 3,
        _ => 4,
    }
}

proof fn lemma_advance_rank(run: RunView, event: EventView)
    requires
        run_ok(run),
        answers(run.phase, event),
    ensures
        advanced(run, event) matches ProgressView::Running(after) ==> {
            &&& run_ok(after)
            &&& after.mutation == run.mutation
            &&& rank(after.phase) == (if rank(run.phase) < 4 {
                rank(run.phase) + 1
            } else {
                4
            })
            &&& rank(run.phase) == 0 || rank(run.phase) == 3 ==> event == EventView::Trust(
                Ok(WorkspaceTrustState::Trusted),
            )
        },
{
    lemma_advanced_ok(run, event);
}

proof fn lemma_trust_first(
    root: WrittenPath,
    mutation: MutationView,
    events: Seq<EventView>,
)
    requires
        all_answer(started(root, true, mutation), events),
    ensures
        answered(started(root, true, mutation), events) matches ProgressView::Running(run) ==> {
            &&& run_ok(run)
            &&& run.mutation == mutation
            &&& rank(run.phase) <= events.len()
            &&& rank(run.phase) < 4 ==> rank(run.phase) == events.len()
            &&& rank(run.phase) > 0 ==> events[0] == EventView::Trust(
                Ok(WorkspaceTrustState::Trusted),
            )
            &&& rank(run.phase) > 3 ==> events[3] == EventView::Trust(
                Ok(WorkspaceTrustState::Trusted),
            )
        },
    decreases events.len(),
{
    let start = started(root, true, mutation);
    if events.len() > 0 {
        let front = events.drop_last();
        lemma_trust_first(root, mutation, front);
        if let ProgressView::Running(run) = answered(start, front) {
            lemma_advance_rank(run, events.last());
            assert(forall|i: int| 0 <= i < front.len() ==> front[i] == events[i]);
        }
    } else {
        assert(Seq::<Part>::empty().take(0) =~= Seq::<Part>::empty());
    }
}

/// No name is looked up and nothing is changed before the trust store has said
/// twice that the workspace is trusted: at the very start, and again once the
/// root is open.
pub proof fn law_nothing_happens_without_trust(
    root: WrittenPath,
    mutation: MutationView,
    events: Seq<EventView>,
)
    requires
        all_answer(started(root, true, mutation), events),
    ensures
        answered(started(root, true, mutation), events) matches ProgressView::Running(run) ==> (
        is_walking(run.phase) ==> events.len() >= 4 && events[0] == EventView::Trust(
            Ok(WorkspaceTrustState::Trusted),
        ) && events[3] == EventView::Trust(Ok(WorkspaceTrustState::Trusted))),
{
    lemma_trust_first(root, mutation, events);
}

/// Without a store of trust, and with any other answer than trusted, an
/// operation ends.
pub proof fn law_untrusted_workspace_refuses(
    run: RunView,
    answer: Result<WorkspaceTrustState, Seq<char>>,
    root: WrittenPath,
    mutation: MutationView,
)
    requires
        run.phase is Trust || run.phase is TrustAgain,
        answer != Ok::<WorkspaceTrustState, Seq<char>>(WorkspaceTrustState::Trusted),
    ensures
        advanced(run, EventView::Trust(answer)) matches ProgressView::Finished(Err(_)),
        started(root, false, mutation) matches ProgressView::Finished(Err(_)),
{
}

/// An operation never goes through a link, whether it was one before the
/// directory was opened or became one meanwhile.
pub proof fn law_links_are_never_followed(run: RunView)
    requires
        run.phase is Inspect || run.phase is Recheck,
    ensures
        advanced(run, EventView::Link(Ok(true))) matches ProgressView::Finished(Err(_)),
{
}

/// An operation that comes to be applied acts in a directory of the workspace
/// that is reached by names alone and lies outside the repository directory,
/// and what it makes is one name there and not `.git`.
pub proof fn law_operations_stay_in_the_workspace(
    root: WrittenPath,
    mutation: MutationView,
    events: Seq<EventView>,
)
    requires
        all_answer(started(root, true, mutation), events),
    ensures
        answered(started(root, true, mutation), events) matches ProgressView::Running(run) ==> (
        run.phase is Apply ==> {
            &&& is_under(reached(run), run.root)
            &&& all_names(reached(run).skip(run.root.len() as int))
            &&& reached(run).len() > run.root.len() ==> reached(run)[run.root.len() as int]
                != Part::Normal(dot_git())
            &&& mutation is Trash || run.name != dot_git()
            &&& mutation is Trash || mutation is Rename ==> target_of(mutation) == child_path(
                reached(run),
                run.leaf,
            )
        }),
{
    lemma_trust_first(root, mutation, events);
    if let ProgressView::Running(run) = answered(started(root, true, mutation), events) {
        if run.phase is Apply {
            assert(run.steps.take(run.taken as int) =~= run.steps);
            assert(reached(run).take(run.root.len() as int) =~= run.root);
            assert(reached(run).skip(run.root.len() as int) =~= run.steps);
        }
    }
}

/// What an operation that succeeds reports changed lies where it was applied.
pub proof fn law_outcome_is_where_it_was_applied(run: RunView, answer: Result<(), FailureView>)
    ensures
        advanced(
            (RunView { phase: MutationPhase::Apply, ..run }),
            EventView::Done(answer),
        ) matches ProgressView::Finished(Ok(outcome)) ==> {
            &&& outcome.affected_parent.path == reached(run)
            &&& outcome.selected.path == reached(run) || outcome.selected.path == child_path(
                reached(run),
                run.name,
            )
        },
{
}

} // verus!
