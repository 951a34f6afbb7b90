//! File operations, step by step.

use ami_workbench::jobs::{MutationOutcome, SidebarMutation};
use ami_workbench::mutation::{
    validate_mutation_name, verify_mutation_trust, ActionFailure, MutationAction, MutationEvent,
    MutationProgress, MutationRun,
};
use ami_workbench::path::PathBuf;
use ami_workbench::trust::WorkspaceTrustState;

fn path(text: &str) -> PathBuf {
    PathBuf::from_bytes(text.as_bytes())
}

fn create(parent: &str, name: &str) -> SidebarMutation {
    SidebarMutation::CreateFile { parent: path(parent), name: name.to_owned() }
}

fn rename(source: &str, name: &str) -> SidebarMutation {
    SidebarMutation::Rename { source: path(source), name: name.to_owned() }
}

fn trash(target: &str) -> SidebarMutation {
    SidebarMutation::Trash { target: path(target) }
}

fn trusted() -> MutationEvent {
    MutationEvent::Trust(Ok(WorkspaceTrustState::Trusted))
}

fn done() -> MutationEvent {
    MutationEvent::Done(Ok(()))
}

fn failed(already_exists: bool) -> MutationEvent {
    MutationEvent::Done(Err(ActionFailure { already_exists, message: "denied".to_owned() }))
}

/// Hands the events in, and gives back what became of the operation.
fn play(mutation: SidebarMutation, events: Vec<MutationEvent>) -> Result<MutationOutcome, String> {
    let mut progress = MutationRun::start(path("/w"), true, mutation);
    for event in events {
        progress = match progress {
            MutationProgress::Running(run) => run.next(event),
            MutationProgress::Finished(_) => panic!("the operation is over"),
        };
    }
    match progress {
        MutationProgress::Finished(result) => result,
        MutationProgress::Running(run) => panic!("the operation waits for {:?}", run.action()),
    }
}

/// The events up to the second look at trust.
fn opened(more: Vec<MutationEvent>) -> Vec<MutationEvent> {
    let mut events = vec![trusted(), MutationEvent::Resolved(Ok(path("/w"))), done(), trusted()];
    events.extend(more);
    events
}

#[test]
fn names_are_single_components() {
    assert_eq!(validate_mutation_name("a b").unwrap(), b"a b".to_vec());
    let empty = "name must be one non-empty path component";
    let several = "name must be one non-.git path component";
    assert_eq!(validate_mutation_name("").unwrap_err(), empty);
    assert_eq!(validate_mutation_name(".").unwrap_err(), empty);
    assert_eq!(validate_mutation_name("..").unwrap_err(), empty);
    assert_eq!(validate_mutation_name("/a").unwrap_err(), empty);
    assert_eq!(validate_mutation_name("a/b").unwrap_err(), several);
    assert_eq!(validate_mutation_name(".git").unwrap_err(), several);
    assert_eq!(validate_mutation_name("a/").unwrap(), b"a".to_vec());
}

#[test]
fn only_a_trusted_workspace_is_trusted() {
    assert!(verify_mutation_trust(Ok(WorkspaceTrustState::Trusted)).is_ok());
    for state in [WorkspaceTrustState::Untrusted, WorkspaceTrustState::Stale] {
        assert_eq!(verify_mutation_trust(Ok(state)).unwrap_err(), "workspace is not trusted");
    }
    assert_eq!(
        verify_mutation_trust(Err("denied".to_owned())).unwrap_err(),
        "failed to verify workspace trust: denied"
    );
}

#[test]
fn without_a_store_nothing_is_done() {
    match MutationRun::start(path("/w"), false, trash("/w/a")) {
        MutationProgress::Finished(result) => {
            assert_eq!(result.err().unwrap(), "workspace trust is unavailable");
        }
        MutationProgress::Running(_) => panic!("the operation goes on"),
    }
}

#[test]
fn trust_is_asked_for_twice() {
    let untrusted = || MutationEvent::Trust(Ok(WorkspaceTrustState::Untrusted));
    assert_eq!(
        play(create("/w", "a"), vec![untrusted()]).err().unwrap(),
        "workspace is not trusted"
    );
    let root = MutationEvent::Resolved(Ok(path("/w")));
    assert_eq!(
        play(create("/w", "a"), vec![trusted(), root, done(), untrusted()]).err().unwrap(),
        "workspace is not trusted"
    );
}

#[test]
fn a_file_is_made_below_the_root() {
    let outcome = play(
        create("/w/dir", "fresh"),
        opened(vec![
            done(),
            MutationEvent::Link(Ok(false)),
            done(),
            MutationEvent::Link(Ok(false)),
            done(),
        ]),
    )
    .ok()
    .unwrap();
    assert_eq!(outcome.affected_parent, path("/w/dir"));
    assert_eq!(outcome.selected, path("/w/dir/fresh"));
}

#[test]
fn the_steps_of_an_operation_are_asked_for_in_order() {
    let mut run = match MutationRun::start(path("/w"), true, rename("/w/d/a", "b")) {
        MutationProgress::Running(run) => run,
        MutationProgress::Finished(_) => panic!("the operation is over"),
    };
    let mut actions = Vec::new();
    for event in opened(vec![
        done(),
        MutationEvent::Link(Ok(false)),
        done(),
        MutationEvent::Link(Ok(false)),
        done(),
    ]) {
        actions.push(run.action());
        run = match run.next(event) {
            MutationProgress::Running(run) => run,
            MutationProgress::Finished(_) => panic!("the operation is over"),
        };
    }
    actions.push(run.action());
    assert_eq!(
        actions,
        [
            MutationAction::ResolveTrust,
            MutationAction::ResolveRoot(path("/w")),
            MutationAction::OpenRoot(path("/w")),
            MutationAction::ResolveTrust,
            MutationAction::StartWalk,
            MutationAction::InspectDirectory(b"d".to_vec()),
            MutationAction::OpenDirectory(b"d".to_vec()),
            MutationAction::RecheckDirectory(b"d".to_vec()),
            MutationAction::InspectLeaf(b"a".to_vec()),
            MutationAction::Rename { from: b"a".to_vec(), to: b"b".to_vec() },
        ]
    );
}

#[test]
fn paths_outside_and_special_places_are_refused() {
    let refused = |mutation: SidebarMutation| play(mutation, opened(Vec::new())).err().unwrap();
    assert_eq!(refused(create("/x", "a")), "file operation escapes the workspace");
    assert_eq!(refused(trash("/x/a")), "file operation escapes the workspace");
    assert_eq!(refused(trash("/w")), "workspace root cannot be modified");
    assert_eq!(refused(trash("/w/a/..")), "file operation target has no name");
    assert_eq!(refused(trash("/w/.git/index")), "workspace .git cannot be modified");
    assert_eq!(refused(rename("/w/../a", "b")), "invalid file operation path");
    let walked = |mutation: SidebarMutation| play(mutation, opened(vec![done()])).err().unwrap();
    assert_eq!(walked(create("/w/.git", "a")), "workspace .git cannot be modified");
    assert_eq!(walked(create("/w/..", "a")), "invalid file operation path");
    assert_eq!(walked(create("/w", "a/b")), "name must be one non-.git path component");
    assert_eq!(walked(create("/w", "")), "name must be one non-empty path component");
}

#[test]
fn links_on_the_way_are_refused() {
    let link = |linked: bool| MutationEvent::Link(Ok(linked));
    assert_eq!(
        play(create("/w/d", "a"), opened(vec![done(), link(true)])).err().unwrap(),
        "file operations inside symlink directories are not allowed"
    );
    let changed = "file operation path changed during validation";
    assert_eq!(
        play(create("/w/d", "a"), opened(vec![done(), link(false), done(), link(true)]))
            .err()
            .unwrap(),
        changed
    );
    let gone = MutationEvent::Link(Err("gone".to_owned()));
    assert_eq!(
        play(create("/w/d", "a"), opened(vec![done(), link(false), done(), gone]))
            .err()
            .unwrap(),
        changed
    );
}

#[test]
fn every_way_an_operation_fails_is_told() {
    let link = |linked: bool| MutationEvent::Link(Ok(linked));
    assert_eq!(
        play(
            create("/w", "a"),
            vec![trusted(), MutationEvent::Resolved(Err("denied".to_owned()))]
        )
        .err()
        .unwrap(),
        "failed to resolve workspace root: denied"
    );
    let root = MutationEvent::Resolved(Ok(path("/w")));
    assert_eq!(
        play(create("/w", "a"), vec![trusted(), root, failed(false)]).err().unwrap(),
        "failed to open workspace root: denied"
    );
    assert_eq!(
        play(create("/w", "a"), opened(vec![failed(false)])).err().unwrap(),
        "failed to clone workspace handle: denied"
    );
    let denied_link = || MutationEvent::Link(Err("denied".to_owned()));
    assert_eq!(
        play(create("/w/d", "a"), opened(vec![done(), denied_link()])).err().unwrap(),
        "failed to inspect /w/d: denied"
    );
    assert_eq!(
        play(create("/w/d", "a"), opened(vec![done(), link(false), failed(false)]))
            .err()
            .unwrap(),
        "failed to open /w/d: denied"
    );
    assert_eq!(
        play(trash("/w/a"), opened(vec![done(), failed(false)])).err().unwrap(),
        "failed to inspect /w/a: denied"
    );
    assert_eq!(
        play(trash("/w/a"), opened(vec![done(), done(), MutationEvent::Same(false)]))
            .err()
            .unwrap(),
        "workspace path changed before trash"
    );
    assert_eq!(
        play(
            trash("/w/a"),
            opened(vec![done(), done(), MutationEvent::Same(true), failed(false)])
        )
        .err()
        .unwrap(),
        "failed to move /w/a to trash; original was not permanently deleted: denied"
    );
    assert_eq!(
        play(create("/w", "a"), opened(vec![done(), failed(true)])).err().unwrap(),
        "failed to create /w/a: denied"
    );
    assert_eq!(
        play(trash("/w/./a/"), opened(vec![done(), failed(false)])).err().unwrap(),
        "failed to inspect /w/./a/: denied"
    );
    assert_eq!(
        play(create("/w//d/", "a"), opened(vec![done(), denied_link()])).err().unwrap(),
        "failed to inspect /w/d: denied"
    );
    assert_eq!(
        play(rename("/w/a", "b"), opened(vec![done(), done(), failed(true)])).err().unwrap(),
        "/w/b already exists"
    );
    assert_eq!(
        play(rename("/w/a", "b"), opened(vec![done(), done(), failed(false)])).err().unwrap(),
        "failed to rename /w/a to /w/b: denied"
    );
}
