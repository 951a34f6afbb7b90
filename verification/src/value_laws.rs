//! What goes between the library and the rest of the program means what it says.

use vstd::prelude::*;

use crate::collections::{with_path, without_path};
use crate::git_status::{GitEvent, GitEventView, Spawn};
use crate::jobs::{ActivationView, Job, Response, SidebarActivation, SidebarMutation, WatchSignal};
use crate::load::FileType;
use crate::mutation::{ActionView, EventView, MutationAction, MutationEvent};
use crate::path::{plain_paths, WrittenPath};
use crate::runtime_state::{Effect, EffectView};
use crate::sessions::{
    DeliveryView, FileOpenDelivery, PollOutcome, PollView, SlotState, SpawnOutcome, StateView,
};

verus! {

/// An operation is the one that was asked for, on the path and with the name
/// that were given.
pub proof fn law_operations_mean_what_they_say(mutation: SidebarMutation)
    ensures
        match mutation {
            SidebarMutation::CreateFile { parent, name } => mutation@ is CreateFile
                && mutation@->CreateFile_parent == parent.spelled() && mutation@->CreateFile_name
                == name@,
            SidebarMutation::CreateDirectory { parent, name } => mutation@ is CreateDirectory
                && mutation@->CreateDirectory_parent == parent.spelled()
                && mutation@->CreateDirectory_name == name@,
            SidebarMutation::Rename { source, name } => mutation@ is Rename
                && mutation@->source == source.spelled() && mutation@->Rename_name == name@,
            SidebarMutation::Trash { target } => mutation@ is Trash && mutation@->target
                == target.spelled(),
        },
{
}

/// A job is of the kind that was asked for, under its number, below its root.
pub proof fn law_jobs_mean_what_they_say(job: Job)
    ensures
        match job {
            Job::Load { id, path, root, ancestor_targets, cap } => {
                &&& job@ is Load
                &&& job@->Load_id == id
                &&& job@->path == path.spelled()
                &&& job@->Load_root == root.spelled()
                &&& job@->Load_cap == cap
                &&& job@->ancestor_targets.len() == ancestor_targets@.len()
                &&& forall|i: int|
                    0 <= i < ancestor_targets@.len() ==> #[trigger] job@->ancestor_targets[i]
                        == ancestor_targets@[i].spelled()
            },
            Job::Git { id, root, cap } => job@ is Git && job@->Git_id == id && job@->Git_root
                == root.spelled() && job@->Git_cap == cap,
            Job::Mutation { id, root, trust, mutation } => job@ is Mutation && job@->Mutation_id
                == id && job@->Mutation_root == root.spelled() && job@->trust == trust
                && job@->mutation == mutation@,
        },
{
}

/// A reply is to the job whose number it has, and brings what was found or why
/// nothing was.
pub proof fn law_replies_mean_what_they_say(response: Response)
    ensures
        match response {
            Response::Load { id, path, result } => {
                &&& response@ is Load
                &&& response@->Load_id == id
                &&& response@->path == path@
                &&& response@->text == path.written()
                &&& result is Ok <==> response@->Load_result is Ok
            },
            Response::Git { id, result } => {
                &&& response@ is Git
                &&& response@->Git_id == id
                &&& result is Ok <==> response@->Git_result is Ok
                &&& result matches Ok(changes) ==> response@->Git_result->Ok_0.len()
                    == changes@.len()
                &&& result matches Err(error) ==> response@->Git_result->Err_0 == error@
            },
            Response::Mutation { id, result } => {
                &&& response@ is Mutation
                &&& response@->Mutation_id == id
                &&& result is Ok <==> response@->Mutation_result is Ok
                &&& result matches Err(error) ==> response@->Mutation_result->Err_0 == error@
                &&& result matches Ok(outcome)
                    ==> response@->Mutation_result->Ok_0.affected_parent
                    == outcome.affected_parent.spelled()
                    && response@->Mutation_result->Ok_0.selected == outcome.selected.spelled()
            },
        },
{
}

/// What a watcher tells, and what a row asks for when it is activated.
pub proof fn law_news_mean_what_they_say(signal: WatchSignal, activation: SidebarActivation)
    ensures
        signal is Rescan <==> signal@ is Rescan,
        signal matches WatchSignal::Paths(paths) ==> signal@->Paths_0.len() == paths@.len()
            && forall|i: int|
            0 <= i < paths@.len() ==> #[trigger] signal@->Paths_0[i] == paths@[i].spelled(),
        activation is SelectOnly <==> activation@ is SelectOnly,
        activation matches SidebarActivation::OpenFile(path) ==> activation@
            == ActivationView::OpenFile(path.spelled()),
{
}

/// An effect is the one that was asked for, on the process it names.
pub proof fn law_effects_mean_what_they_say(effect: Effect)
    ensures
        effect is Session <==> effect@ is Session,
        effect is SendKey <==> effect@ is SendKey,
        effect is SendMouse <==> effect@ is SendMouse,
        effect is SendPaste <==> effect@ is SendPaste,
        effect is ResetScrollback <==> effect@ is ResetScrollback,
        effect is ScrollViewport <==> effect@ is ScrollViewport,
        effect is BeginSelection <==> effect@ is BeginSelection,
        effect is MoveSelection <==> effect@ is MoveSelection,
        effect is ScrollSelection <==> effect@ is ScrollSelection,
        effect is CopySelection <==> effect@ is CopySelection,
        effect is ReadClipboard <==> effect@ is ReadClipboard,
        effect is Toggle <==> effect@ is Toggle,
        effect is Relayout <==> effect@ is Relayout,
        effect is SaveLayout <==> effect@ is SaveLayout,
        effect is SelectTab <==> effect@ is SelectTab,
        effect is CloseTab <==> effect@ is CloseTab,
        effect is OpenTab <==> effect@ is OpenTab,
        effect is PersistTrust <==> effect@ is PersistTrust,
        effect is OpenFile <==> effect@ is OpenFile,
        effect is ResizeSession <==> effect@ is ResizeSession,
        effect matches Effect::PersistTrust(trust) ==> effect@ == EffectView::PersistTrust(trust),
        effect matches Effect::ScrollViewport { key, lines } ==> effect@
            == (EffectView::ScrollViewport { key, lines }),
        effect matches Effect::BeginSelection { key, row, col } ==> effect@
            == (EffectView::BeginSelection { key, row, col }),
        effect matches Effect::MoveSelection { key, row, col } ==> effect@
            == (EffectView::MoveSelection { key, row, col }),
        effect matches Effect::ScrollSelection { key, lines, row, col } ==> effect@
            == (EffectView::ScrollSelection { key, lines, row, col }),
        effect matches Effect::SendMouse { key, identity, event } ==> effect@
            == (EffectView::SendMouse { key, identity, event }),
        effect matches Effect::SendKey { key, identity } ==> effect@ == (EffectView::SendKey {
            key,
            identity,
        }),
        effect matches Effect::SendPaste { key, identity, contents } ==> effect@
            == (EffectView::SendPaste { key, identity, contents: contents@ }),
        effect matches Effect::CopySelection { key, selection } ==> effect@
            == (EffectView::CopySelection { key, selection }),
        effect matches Effect::ResizeSession { key, identity, size } ==> effect@
            == (EffectView::ResizeSession { key, identity, size }),
        effect matches Effect::Toggle(handle) ==> effect@ == EffectView::Toggle(handle),
        effect matches Effect::SelectTab(id) ==> effect@ == EffectView::SelectTab(id),
        effect matches Effect::CloseTab(id) ==> effect@ == EffectView::CloseTab(id),
        effect matches Effect::ResetScrollback(key) ==> effect@ == EffectView::ResetScrollback(key),
        effect matches Effect::Session(inner) ==> effect@ == EffectView::Session(inner),
        effect matches Effect::OpenFile(path) ==> effect@ == EffectView::OpenFile(path.spelled()),
{
}

/// A step of an operation is the one that was asked for, and its answer is what
/// came of it.
pub proof fn law_steps_mean_what_they_say(action: MutationAction, event: MutationEvent)
    ensures
        match action {
            MutationAction::ResolveTrust => action@ is ResolveTrust,
            MutationAction::ResolveRoot(path) => action@ == ActionView::ResolveRoot(path.spelled()),
            MutationAction::OpenRoot(path) => action@ == ActionView::OpenRoot(path.spelled()),
            MutationAction::StartWalk => action@ is StartWalk,
            MutationAction::InspectDirectory(name) => action@ == ActionView::InspectDirectory(
                name@,
            ),
            MutationAction::OpenDirectory(name) => action@ == ActionView::OpenDirectory(name@),
            MutationAction::RecheckDirectory(name) => action@ == ActionView::RecheckDirectory(
                name@,
            ),
            MutationAction::InspectLeaf(name) => action@ == ActionView::InspectLeaf(name@),
            MutationAction::CompareRoot(path) => action@ == ActionView::CompareRoot(path.spelled()),
            MutationAction::CreateFile(name) => action@ == ActionView::CreateFile(name@),
            MutationAction::CreateDirectory(name) => action@ == ActionView::CreateDirectory(name@),
            MutationAction::Rename { from, to } => action@ is Rename && action@->from == from@
                && action@->to == to@,
            MutationAction::Trash(path) => action@ == ActionView::Trash(path.spelled()),
        },
        match event {
            MutationEvent::Trust(answer) => event@ is Trust && (answer is Ok <==> event@->Trust_0
                is Ok) && (answer matches Ok(state) ==> event@->Trust_0 == Ok::<_, Seq<char>>(
                state,
            )),
            MutationEvent::Resolved(answer) => event@ is Resolved && (answer is Ok
                <==> event@->Resolved_0 is Ok) && (answer matches Ok(path) ==> event@->Resolved_0
                == Ok::<_, Seq<char>>(path.spelled())),
            MutationEvent::Link(answer) => event@ is Link && (answer is Ok <==> event@->Link_0
                is Ok) && (answer matches Ok(link) ==> event@->Link_0 == Ok::<_, Seq<char>>(link)),
            MutationEvent::Same(same) => event@ == EventView::Same(same),
            MutationEvent::Done(answer) => event@ is Done && (answer is Ok <==> event@->Done_0
                is Ok) && (answer matches Err(failure) ==> event@->Done_0->Err_0.already_exists
                == failure.already_exists && event@->Done_0->Err_0.message == failure.message@),
        },
{
}

/// What became of a process is what was told of it.
pub proof fn law_processes_mean_what_they_say(
    state: SlotState,
    outcome: SpawnOutcome,
    poll: PollOutcome,
    delivery: FileOpenDelivery,
)
    ensures
        match state {
            SlotState::Starting => state@ is Starting,
            SlotState::Running { identity, started_at } => state@ == (StateView::Running {
                identity,
                started_at,
            }),
            SlotState::Backoff { until, message } => state@ is Backoff && state@->until == until
                && state@->Backoff_message == message@,
            SlotState::Paused { message } => state@ is Paused && state@->Paused_message
                == message@,
        },
        match outcome {
            SpawnOutcome::Started { display_name } => outcome@ is Started
                && outcome@->Started_display_name == display_name@,
            SpawnOutcome::NotPrepared { error, decision } => outcome@ is NotPrepared
                && outcome@->NotPrepared_error == error@ && outcome@->NotPrepared_decision
                == decision,
            SpawnOutcome::NotStarted { display_name, error, decision } => outcome@ is NotStarted
                && outcome@->NotStarted_display_name == display_name@
                && outcome@->NotStarted_error == error@ && outcome@->NotStarted_decision
                == decision,
        },
        match poll {
            PollOutcome::Alive => poll@ is Alive,
            PollOutcome::ShellExited(id) => poll@ == PollView::ShellExited(id),
            PollOutcome::Failed(message) => poll@ == PollView::Failed(message@),
        },
        match delivery {
            FileOpenDelivery::Opened => delivery@ is Opened,
            FileOpenDelivery::Unavailable => delivery@ is Unavailable,
            FileOpenDelivery::Failed(error) => delivery@ == DeliveryView::Failed(error@),
        },
{
}

/// What is told of an entry of a directory, and of a run of Git.
pub proof fn law_findings_mean_what_they_say(found: FileType, event: GitEvent)
    ensures
        match found {
            FileType::Symlink { target, directory } => {
                &&& found@ is Symlink
                &&& target is Ok <==> found@->target is Ok
                &&& target matches Ok(path) ==> found@->target->Ok_0 == path.spelled()
                &&& directory is Ok <==> found@->directory is Ok
                &&& directory matches Ok(yes) ==> found@->directory->Ok_0 == yes
            },
            FileType::Directory { canonical } => found@ is Directory && (canonical is Some
                <==> found@->canonical is Some) && (canonical matches Some(path)
                ==> found@->canonical->0 == path.spelled()),
            FileType::File => found@ is File,
            FileType::Other => found@ is Other,
        },
        match event {
            GitEvent::Spawned(Spawn::Started) => event@ is Started,
            GitEvent::Spawned(Spawn::NoStdout) => event@ is NoStdout,
            GitEvent::Spawned(Spawn::NoStderr) => event@ is NoStderr,
            GitEvent::Spawned(Spawn::Failed(error)) => event@ == GitEventView::NotStarted(error@),
            GitEvent::Polled(answer) => event@ is Polled && (answer is Ok <==> event@->Polled_0
                is Ok) && (answer matches Ok(exit) ==> (exit is Some <==> event@->Polled_0->Ok_0
                is Some)) && (answer matches Ok(Some(exit)) ==> event@->Polled_0->Ok_0->0.success
                == exit.success),
            GitEvent::Slept => event@ is Slept,
            GitEvent::Stopped(answer) => event@ is Stopped && (answer is Ok <==> event@->Stopped_0
                is Ok),
            GitEvent::Reaped(answer) => event@ is Reaped && (answer is Ok <==> event@->Reaped_0
                is Ok),
            GitEvent::Output { stdout, result } => event@ is Output && event@->stdout == stdout && (
            result is Ok <==> event@->result is Ok) && (result matches Ok(capture)
                ==> event@->result->Ok_0.bytes == capture.bytes@ && event@->result->Ok_0.truncated
                == capture.truncated),
            GitEvent::TimedOut => event@ is TimedOut,
            GitEvent::Disconnected => event@ is Disconnected,
        },
{
}

/// A path that is noted is noted once, behind the others, and one that is taken
/// out leaves the others as they were.
pub proof fn law_noted_paths(paths: Seq<WrittenPath>, path: WrittenPath)
    requires
        plain_paths(paths).no_duplicates(),
    ensures
        plain_paths(paths).contains(path.path) ==> with_path(paths, path) == paths,
        !plain_paths(paths).contains(path.path) ==> with_path(paths, path) == paths.push(path)
            && without_path(with_path(paths, path), path.path) == paths,
        !plain_paths(without_path(paths, path.path)).contains(path.path),
        forall|other: WrittenPath|
            other.path != path.path && paths.contains(other) ==> #[trigger] without_path(
                paths,
                path.path,
            ).contains(other),
        forall|other: WrittenPath| #[trigger]
            without_path(paths, path.path).contains(other) ==> paths.contains(other),
{
    let plain = plain_paths(paths);
    let kept = without_path(paths, path.path);
    if plain.contains(path.path) {
        let at = plain.index_of(path.path);
        assert(plain[at] == paths[at].path);
        assert(!plain_paths(kept).contains(path.path)) by {
            if plain_paths(kept).contains(path.path) {
                let i = plain_paths(kept).index_of(path.path);
                assert(kept[i].path == path.path);
                let j = if i < at {
                    i
                } else {
                    i + 1
                };
                assert(paths[j] == kept[i]);
                assert(plain[j] == plain[at]);
            }
        }
        assert forall|other: WrittenPath|
            other.path != path.path && paths.contains(other) implies #[trigger] kept.contains(
            other,
        ) by {
            let i = paths.index_of(other);
            assert(i != at);
            if i < at {
                assert(kept[i] == other);
            } else {
                assert(kept[i - 1] == other);
            }
        }
        assert forall|other: WrittenPath| #[trigger] kept.contains(other) implies paths.contains(
            other,
        ) by {
            let i = kept.index_of(other);
            if i < at {
                assert(paths[i] == other);
            } else {
                assert(paths[i + 1] == other);
            }
        }
    } else {
        let more = paths.push(path);
        let longer = plain_paths(more);
        assert(longer[paths.len() as int] == path.path);
        assert(longer.contains(path.path));
        let at = longer.index_of(path.path);
        assert(at == paths.len()) by {
            if at < paths.len() {
                assert(plain[at] == longer[at]);
                assert(plain.contains(path.path));
            }
        }
        assert(more.remove(at) =~= paths);
    }
}

} // verus!
