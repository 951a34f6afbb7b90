//! What a file operation does, step by step, and which names it accepts.

use vstd::prelude::*;
use vstd::string::*;
use vstd::utf8::*;

use crate::bytes::split;
use crate::jobs::{MutationView, OutcomeView};
use crate::mutation::{
    action_of, advanced, arrived, checked_name, reached, started, stepped, trust_checked,
    ActionView, EventView, FailureView, MutationPhase, ProgressView, RunView,
};
use crate::path::{bytes_below, dot_git, joined_bytes, parse_path, slash, Part, WrittenPath};
use crate::path_laws::{is_name, law_child_bytes_write_the_child, lemma_split_plain};
use crate::text::lossy_text;
use crate::trust::WorkspaceTrustState;

verus! {

/// A name is accepted as it is when it is one component: not empty, without a
/// slash, and neither `.` nor `..` nor `.git`. Anything else is refused.
pub proof fn law_accepted_names(name: Seq<u8>, second: Seq<u8>)
    ensures
        ({
            let this = seq![0x2eu8];
            let above = seq![0x2eu8, 0x2eu8];
            let repository = seq![0x2eu8, 0x67u8, 0x69u8, 0x74u8];
            let plain = name.len() > 0 && !name.contains(0x2f) && name != this && name != above;
            &&& plain && name != repository ==> checked_name(name) == Ok::<_, Seq<char>>(name)
            &&& name.len() == 0 ==> checked_name(name) == Err::<Seq<u8>, _>(
                "name must be one non-empty path component"@,
            )
            &&& name == this || name == above ==> checked_name(name) == Err::<Seq<u8>, _>(
                "name must be one non-empty path component"@,
            )
            &&& name == repository ==> checked_name(name) == Err::<Seq<u8>, _>(
                "name must be one non-.git path component"@,
            )
            &&& name.len() > 0 && name[0] == 0x2f ==> checked_name(name) is Err
            &&& plain && second.len() > 0 && !second.contains(0x2f) && second != this && second
                != above ==> checked_name(name + seq![0x2fu8] + second) == Err::<Seq<u8>, _>(
                "name must be one non-.git path component"@,
            )
        }),
{
    let this = seq![0x2eu8];
    let above = seq![0x2eu8, 0x2eu8];
    let repository = seq![0x2eu8, 0x67u8, 0x69u8, 0x74u8];
    assert(dot_git() =~= repository);
    assert(crate::path::dot() =~= this);
    assert(crate::path::dot_dot() =~= above);
    assert(this.len() == 1 && above.len() == 2 && repository.len() == 4);
    if !name.contains(0x2f) {
        lemma_split_plain(name);
        assert(split(name, slash()).skip(1) =~= Seq::<Seq<u8>>::empty());
        assert(crate::path::rest_parts(split(name, slash()).skip(1)) =~= Seq::<Part>::empty());
        if name.len() > 0 {
            assert(name.contains(name[0]));
        }
        assert(parse_path(name) =~= crate::path::piece_parts(name, true));
    }
    if name == this || name == above || name == repository {
        assert(!name.contains(0x2f)) by {
            if name.contains(0x2f) {
                let i = name.index_of(0x2f);
                assert(name[i] == 0x2f);
            }
        }
    }
    if name.len() > 0 && name[0] == 0x2f {
        assert(parse_path(name)[0] == Part::RootDir);
    }
    if name.len() > 0 && !name.contains(0x2f) && name != this && name != above && second.len() > 0
        && !second.contains(0x2f) && second != this && second != above {
        assert(is_name(second));
        law_child_bytes_write_the_child(name, second);
        assert(parse_path(name) =~= seq![Part::Normal(name)]);
        assert(name.last() != 0x2f) by {
            assert(name.contains(name[name.len() - 1]));
        }
        assert(second[0] != 0x2f) by {
            assert(second.contains(second[0]));
        }
        assert(joined_bytes(name, second) =~= name + seq![0x2fu8] + second);
        let parts = parse_path(name + seq![0x2fu8] + second);
        assert(parts.len() == 2);
        assert(parts[0] == Part::Normal(name));
    }
}

/// The answer to each step where nothing is in the way.
pub open spec fn smooth_answer(phase: MutationPhase, root: WrittenPath) -> EventView {
    match phase {
        MutationPhase::Trust => EventView::Trust(Ok(WorkspaceTrustState::Trusted)),
        MutationPhase::TrustAgain => EventView::Trust(Ok(WorkspaceTrustState::Trusted)),
        MutationPhase::Root => EventView::Resolved(Ok(root)),
        MutationPhase::Inspect => EventView::Link(Ok(false)),
        MutationPhase::Recheck => EventView::Link(Ok(false)),
        MutationPhase::Compare => EventView::Same(true),
        _ => EventView::Done(Ok(())),
    }
}

/// An operation after some steps where nothing was in the way.
pub open spec fn carried(progress: ProgressView, root: WrittenPath, steps: nat) -> ProgressView
    decreases steps,
{
    if steps == 0 {
        progress
    } else {
        match carried(progress, root, (steps - 1) as nat) {
            ProgressView::Running(run) => advanced(run, smooth_answer(run.phase, root)),
            ended => ended,
        }
    }
}

proof fn lemma_carried_on(progress: ProgressView, root: WrittenPath, first: nat, then: nat)
    ensures
        carried(carried(progress, root, first), root, then) == carried(
            progress,
            root,
            first + then,
        ),
    decreases then,
{
    if then > 0 {
        lemma_carried_on(progress, root, first, (then - 1) as nat);
    }
}

/// Names as components of a path.
pub open spec fn as_parts(names: Seq<Seq<u8>>) -> Seq<Part> {
    names.map_values(|name: Seq<u8>| Part::Normal(name))
}

proof fn lemma_walked(run: RunView, root: WrittenPath, names: Seq<Seq<u8>>)
    requires
        run.steps == as_parts(names),
        run.taken <= names.len(),
        names.len() > 0 ==> names[0] != dot_git(),
    ensures
        ({
            let left = (names.len() - run.taken) as nat;
            carried(stepped(run), root, 3 * left) == arrived(
                RunView {
                    phase: if left == 0 {
                        run.phase
                    } else {
                        MutationPhase::Recheck
                    },
                    taken: names.len(),
                    ..run
                },
            )
        }),
    decreases names.len() - run.taken,
{
    let left = (names.len() - run.taken) as nat;
    if left > 0 {
        let at = run.taken as int;
        assert(run.steps[at] == Part::Normal(names[at]));
        assert(run.steps[0] == Part::Normal(names[0]));
        let inspect = RunView { phase: MutationPhase::Inspect, ..run };
        assert(stepped(run) == ProgressView::Running(inspect));
        reveal_with_fuel(carried, 4);
        let recheck = RunView { phase: MutationPhase::Recheck, ..run };
        let next = RunView { taken: run.taken + 1, ..recheck };
        assert(carried(stepped(run), root, 3) == stepped(next));
        lemma_walked(next, root, names);
        lemma_carried_on(stepped(run), root, 3, (3 * (left - 1)) as nat);
        assert(3 + 3 * (left - 1) == 3 * left);
    }
}

/// An operation that comes to its walk, where nothing was in the way.
proof fn lemma_walk_begins(
    root: WrittenPath,
    mutation: MutationView,
    names: Seq<Seq<u8>>,
    leaf: Seq<u8>,
    begun: RunView,
)
    requires
        crate::mutation::begun(
            RunView {
                root: root.path,
                root_text: root.text,
                mutation,
                phase: MutationPhase::TrustAgain,
                steps: Seq::empty(),
                taken: 0,
                leaf: Seq::empty(),
                name: Seq::empty(),
            },
        ) == ProgressView::Running(begun),
        begun.phase is Walk,
        begun.taken == 0,
        begun.steps == as_parts(names),
        names.len() > 0 ==> names[0] != dot_git(),
    ensures
        carried(started(root, true, mutation), root, 5 + 3 * names.len()) == arrived(
            RunView {
                phase: if names.len() == 0 {
                    MutationPhase::Walk
                } else {
                    MutationPhase::Recheck
                },
                taken: names.len(),
                ..begun
            },
        ),
{
    reveal_with_fuel(carried, 6);
    let start = started(root, true, mutation);
    assert(carried(start, root, 5) == stepped(begun));
    lemma_walked(begun, root, names);
    lemma_carried_on(start, root, 5, 3 * names.len());
}

/// Where nothing is in the way, a new file is made under the name that was
/// given in the directory that was given, a new directory likewise, and both
/// are what is selected afterwards.
pub proof fn law_new_entries_are_made(
    root: WrittenPath,
    names: Seq<Seq<u8>>,
    parent: WrittenPath,
    name: Seq<char>,
    folder: bool,
)
    requires
        parent.path == root.path + as_parts(names),
        names.len() > 0 ==> names[0] != dot_git(),
        checked_name(encode_utf8(name)) is Ok,
    ensures
        ({
            let bytes = checked_name(encode_utf8(name))->Ok_0;
            let mutation = if folder {
                MutationView::CreateDirectory { parent, name }
            } else {
                MutationView::CreateFile { parent, name }
            };
            let there = carried(started(root, true, mutation), root, 5 + 3 * names.len());
            let done = carried(started(root, true, mutation), root, 6 + 3 * names.len());
            &&& there is Running
            &&& folder ==> action_of(there->Running_0) == ActionView::CreateDirectory(bytes)
            &&& !folder ==> action_of(there->Running_0) == ActionView::CreateFile(bytes)
            &&& reached(there->Running_0) == parent.path
            &&& done is Finished
            &&& done->Finished_0 is Ok
            &&& done->Finished_0->Ok_0.affected_parent.path == parent.path
            &&& done->Finished_0->Ok_0.selected.path == parent.path.push(Part::Normal(bytes))
        }),
{
    let mutation = if folder {
        MutationView::CreateDirectory { parent, name }
    } else {
        MutationView::CreateFile { parent, name }
    };
    let begun = RunView {
        root: root.path,
        root_text: root.text,
        mutation,
        phase: MutationPhase::Walk,
        steps: parent.path.skip(root.path.len() as int),
        taken: 0,
        leaf: Seq::empty(),
        name: Seq::empty(),
    };
    assert(parent.path.take(root.path.len() as int) =~= root.path);
    assert(begun.steps =~= as_parts(names));
    lemma_walk_begins(root, mutation, names, Seq::empty(), begun);
    let there = carried(started(root, true, mutation), root, 5 + 3 * names.len());
    let run = there->Running_0;
    assert(run.steps.take(run.taken as int) =~= as_parts(names));
    lemma_carried_on(started(root, true, mutation), root, 5 + 3 * names.len(), 1);
    reveal_with_fuel(carried, 2);
}

/// Where nothing is in the way, the file that was named is renamed to the name
/// that was given, in its directory, and is selected under that name.
pub proof fn law_files_are_renamed(
    root: WrittenPath,
    names: Seq<Seq<u8>>,
    source: WrittenPath,
    old_name: Seq<u8>,
    name: Seq<char>,
)
    requires
        source.path == (root.path + as_parts(names)).push(Part::Normal(old_name)),
        names.len() > 0 ==> names[0] != dot_git(),
        checked_name(encode_utf8(name)) is Ok,
    ensures
        ({
            let bytes = checked_name(encode_utf8(name))->Ok_0;
            let start = started(root, true, MutationView::Rename { source, name });
            let looked = carried(start, root, 5 + 3 * names.len());
            let there = carried(start, root, 6 + 3 * names.len());
            let done = carried(start, root, 7 + 3 * names.len());
            &&& looked is Running
            &&& action_of(looked->Running_0) == ActionView::InspectLeaf(old_name)
            &&& there is Running
            &&& action_of(there->Running_0) == (ActionView::Rename { from: old_name, to: bytes })
            &&& reached(there->Running_0) == root.path + as_parts(names)
            &&& done is Finished
            &&& done->Finished_0 is Ok
            &&& done->Finished_0->Ok_0.affected_parent.path == root.path + as_parts(names)
            &&& done->Finished_0->Ok_0.selected.path == (root.path + as_parts(names)).push(
                Part::Normal(bytes),
            )
        }),
{
    let mutation = MutationView::Rename { source, name };
    lemma_leaf_walk(root, names, source.path, old_name);
    let begun = RunView {
        root: root.path,
        root_text: root.text,
        mutation,
        phase: MutationPhase::Walk,
        steps: as_parts(names),
        taken: 0,
        leaf: old_name,
        name: Seq::empty(),
    };
    lemma_walk_begins(root, mutation, names, old_name, begun);
    let start = started(root, true, mutation);
    lemma_carried_on(start, root, 5 + 3 * names.len(), 1);
    lemma_carried_on(start, root, 5 + 3 * names.len(), 2);
    reveal_with_fuel(carried, 3);
    let there = carried(start, root, 6 + 3 * names.len());
    assert(as_parts(names).take(names.len() as int) =~= as_parts(names));
}

proof fn lemma_leaf_walk(
    root: WrittenPath,
    names: Seq<Seq<u8>>,
    target: Seq<Part>,
    leaf: Seq<u8>,
)
    requires
        target == (root.path + as_parts(names)).push(Part::Normal(leaf)),
    ensures
        target != root.path,
        crate::path::is_under(target, root.path),
        target.skip(root.path.len() as int).last() == Part::Normal(leaf),
        target.skip(root.path.len() as int).drop_last() == as_parts(names),
        crate::mutation::all_names(as_parts(names)),
        names.len() > 0 ==> as_parts(names)[0] == Part::Normal(names[0]),
{
    assert(target.len() == root.path.len() + names.len() + 1);
    assert(target.take(root.path.len() as int) =~= root.path);
    let parts = target.skip(root.path.len() as int);
    assert(parts =~= as_parts(names).push(Part::Normal(leaf)));
    assert(parts.drop_last() =~= as_parts(names));
}

/// Where nothing is in the way, exactly the file that was named is moved to the
/// trash, and its directory is selected.
pub proof fn law_files_are_moved_to_the_trash(
    root: WrittenPath,
    names: Seq<Seq<u8>>,
    target: WrittenPath,
    leaf: Seq<u8>,
)
    requires
        target.path == (root.path + as_parts(names)).push(Part::Normal(leaf)),
        names.len() > 0 ==> names[0] != dot_git(),
    ensures
        ({
            let start = started(root, true, MutationView::Trash { target });
            let looked = carried(start, root, 5 + 3 * names.len());
            let compared = carried(start, root, 6 + 3 * names.len());
            let there = carried(start, root, 7 + 3 * names.len());
            let done = carried(start, root, 8 + 3 * names.len());
            &&& looked is Running
            &&& action_of(looked->Running_0) == ActionView::InspectLeaf(leaf)
            &&& compared is Running
            &&& action_of(compared->Running_0) == ActionView::CompareRoot(root)
            &&& there is Running
            &&& action_of(there->Running_0) == ActionView::Trash(target)
            &&& done is Finished
            &&& done->Finished_0 is Ok
            &&& done->Finished_0->Ok_0.affected_parent.path == root.path + as_parts(names)
            &&& done->Finished_0->Ok_0.selected.path == root.path + as_parts(names)
        }),
{
    let mutation = MutationView::Trash { target };
    lemma_leaf_walk(root, names, target.path, leaf);
    let begun = RunView {
        root: root.path,
        root_text: root.text,
        mutation,
        phase: MutationPhase::Walk,
        steps: as_parts(names),
        taken: 0,
        leaf,
        name: Seq::empty(),
    };
    lemma_walk_begins(root, mutation, names, leaf, begun);
    let start = started(root, true, mutation);
    lemma_carried_on(start, root, 5 + 3 * names.len(), 1);
    lemma_carried_on(start, root, 5 + 3 * names.len(), 2);
    lemma_carried_on(start, root, 5 + 3 * names.len(), 3);
    reveal_with_fuel(carried, 4);
    assert(as_parts(names).take(names.len() as int) =~= as_parts(names));
}

/// Each directory on the way is looked at, opened, and looked at again before
/// the next.
pub proof fn law_directories_are_looked_at_twice(run: RunView, name: Seq<u8>, root: WrittenPath)
    requires
        run.phase is Inspect,
        run.taken < run.steps.len(),
        run.steps[run.taken as int] == Part::Normal(name),
    ensures
        ({
            let progress = ProgressView::Running(run);
            let second = carried(progress, root, 1);
            let third = carried(progress, root, 2);
            &&& action_of(run) == ActionView::InspectDirectory(name)
            &&& second is Running
            &&& action_of(second->Running_0) == ActionView::OpenDirectory(name)
            &&& third is Running
            &&& action_of(third->Running_0) == ActionView::RecheckDirectory(name)
        }),
{
    reveal_with_fuel(carried, 3);
}

/// Whether an answer stands in the way of an operation.
pub open spec fn stands_in_the_way(event: EventView) -> bool {
    match event {
        EventView::Trust(answer) => answer != Ok::<_, Seq<char>>(WorkspaceTrustState::Trusted),
        EventView::Resolved(answer) => answer is Err,
        EventView::Link(answer) => answer != Ok::<_, Seq<char>>(false),
        EventView::Same(same) => !same,
        EventView::Done(answer) => answer is Err,
    }
}

/// Whatever stands in the way ends the operation with a message.
pub proof fn law_trouble_ends_the_operation(run: RunView, event: EventView)
    requires
        crate::mutation::answers(run.phase, event),
        stands_in_the_way(event),
    ensures
        advanced(run, event) is Finished,
        advanced(run, event)->Finished_0 is Err,
{
}

/// Each step that goes wrong says which it was.
pub proof fn law_steps_that_go_wrong(run: RunView, failure: FailureView, error: Seq<char>)
    ensures
        ({
            let undone = EventView::Done(Err(failure));
            let says = |event: EventView, message: Seq<char>|
                advanced(run, event) == ProgressView::Finished(Err(message));
            let name = lossy_text(
                joined_bytes(
                    bytes_below(run.root_text, run.steps.take(run.taken as int)),
                    run.steps[run.taken as int]->Normal_0,
                ),
            );
            let trusting = run.phase is Trust || run.phase is TrustAgain;
            &&& trusting ==> says(
                EventView::Trust(Err(error)),
                "failed to verify workspace trust: "@ + error,
            )
            &&& trusting ==> says(
                EventView::Trust(Ok(WorkspaceTrustState::Stale)),
                "workspace is not trusted"@,
            )
            &&& trusting ==> says(
                EventView::Trust(Ok(WorkspaceTrustState::Untrusted)),
                "workspace is not trusted"@,
            )
            &&& run.phase is Root ==> says(
                EventView::Resolved(Err(error)),
                "failed to resolve workspace root: "@ + error,
            )
            &&& run.phase is Handle ==> says(
                undone,
                "failed to open workspace root: "@ + failure.message,
            )
            &&& run.phase is Walk ==> says(
                undone,
                "failed to clone workspace handle: "@ + failure.message,
            )
            &&& run.phase is Inspect ==> says(
                EventView::Link(Ok(true)),
                "file operations inside symlink directories are not allowed"@,
            ) && says(
                EventView::Link(Err(error)),
                "failed to inspect "@ + name + ": "@ + error,
            )
            &&& run.phase is Open ==> says(
                undone,
                "failed to open "@ + name + ": "@ + failure.message,
            )
            &&& run.phase is Recheck ==> says(
                EventView::Link(Ok(true)),
                "file operation path changed during validation"@,
            ) && says(
                EventView::Link(Err(error)),
                "file operation path changed during validation"@,
            )
            &&& run.phase is Leaf ==> (run.mutation matches MutationView::Trash { target }
                ==> says(
                undone,
                "failed to inspect "@ + lossy_text(target.text) + ": "@ + failure.message,
            ))
            &&& run.phase is Compare ==> says(
                EventView::Same(false),
                "workspace path changed before trash"@,
            )
            &&& run.phase is Apply && !failure.already_exists ==> (
            run.mutation matches MutationView::Rename { source, .. } ==> says(
                undone,
                "failed to rename "@ + lossy_text(source.text) + " to "@ + lossy_text(
                    joined_bytes(
                        bytes_below(run.root_text, run.steps.take(run.taken as int)),
                        run.name,
                    ),
                ) + ": "@ + failure.message,
            ))
        }),
{
}

/// What was made under a name that is taken is refused as such, and a file that
/// could not be moved to the trash is told to be there still.
pub proof fn law_refusals_are_told(run: RunView, failure: FailureView)
    requires
        run.phase is Apply,
    ensures
        ({
            let ended = advanced(run, EventView::Done(Err(failure)));
            let made = lossy_text(
                joined_bytes(bytes_below(run.root_text, run.steps.take(run.taken as int)), run.name),
            );
            &&& ended is Finished
            &&& run.mutation is Rename && failure.already_exists ==> ended->Finished_0 == Err::<
                OutcomeView,
                _,
            >(made + " already exists"@)
            &&& run.mutation is CreateFile || run.mutation is CreateDirectory ==> ended->Finished_0
                == Err::<OutcomeView, _>(
                "failed to create "@ + made + ": "@ + failure.message,
            )
            &&& run.mutation matches MutationView::Trash { target } ==> ended->Finished_0 == Err::<
                OutcomeView,
                _,
            >(
                "failed to move "@ + lossy_text(target.text)
                    + " to trash; original was not permanently deleted: "@ + failure.message,
            )
        }),
        trust_checked(Ok(WorkspaceTrustState::Stale)) is Err,
        trust_checked(Ok(WorkspaceTrustState::Untrusted)) is Err,
        trust_checked(Ok(WorkspaceTrustState::Trusted)) is Ok,
{
}

/// Nothing is made inside the repository's own directory, nor along a path that
/// steps upwards or begins anew.
pub proof fn law_protected_directories(run: RunView, parent: WrittenPath, name: Seq<char>)
    requires
        run.phase is Walk,
        run.taken == 0,
        run.steps.len() > 0,
    ensures
        ({
            let ended = advanced(run, EventView::Done(Ok(())));
            &&& run.steps[0] == Part::Normal(dot_git()) ==> ended == ProgressView::Finished(
                Err("workspace .git cannot be modified"@),
            )
            &&& !(run.steps[0] is Normal) ==> ended == ProgressView::Finished(
                Err("invalid file operation path"@),
            )
            &&& run.steps[0] is Normal && run.steps[0] != Part::Normal(dot_git()) ==> ended
                == ProgressView::Running(RunView { phase: MutationPhase::Inspect, ..run })
        }),
        run.mutation == (MutationView::CreateFile { parent, name }) && !crate::path::is_under(
            parent.path,
            run.root,
        ) ==> advanced(
            RunView { phase: MutationPhase::TrustAgain, ..run },
            EventView::Trust(Ok(WorkspaceTrustState::Trusted)),
        ) == ProgressView::Finished(Err("file operation escapes the workspace"@)),
{
}

/// The root itself is neither renamed nor moved to the trash, and nothing
/// outside it or inside the repository's own directory is touched.
pub proof fn law_protected_paths(run: RunView, target: WrittenPath, name: Seq<char>)
    requires
        run.phase is TrustAgain,
        run.mutation == (MutationView::Trash { target }) || run.mutation == (MutationView::Rename {
            source: target,
            name,
        }),
        target.path == run.root || !crate::path::is_under(target.path, run.root) || (
        target.path.len() > run.root.len() + 1 && target.path[run.root.len() as int]
            == Part::Normal(dot_git())),
    ensures
        ({
            let ended = advanced(run, EventView::Trust(Ok(WorkspaceTrustState::Trusted)));
            ended is Finished && ended->Finished_0 is Err
        }),
{
    let parts = target.path.skip(run.root.len() as int);
    if target.path.len() > run.root.len() + 1 {
        assert(parts[0] == target.path[run.root.len() as int]);
        assert(parts.drop_last()[0] == parts[0]);
    }
}

} // verus!
