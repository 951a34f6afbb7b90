//! The lifecycle of the processes in the panes.

use ami_workbench::sessions::{
    can_open_file, file_open_delivery, operation_failure, poll_outcome, single_source,
    workbench_sources, BackendOperation, FileOpenDelivery, PaneSizes, PollOutcome, PollReport,
    ProcessKind, ProcessSource, RestartDecision, SessionEffect, SessionIdentity, SessionKey,
    SessionRegistry, SlotSource, SpawnOutcome,
};
use ami_workbench::trust::{generation_trust, WorkspaceTrustState};
use ami_workbench::workbench::{LaunchMode, PaneId, ShellTabId, TerminalSize};

const MILLISECOND: u128 = 1_000_000;
const SECOND: u128 = 1_000_000_000;
const QUICK_FAILURES_TO_PAUSE: usize = 6;

const EDITOR: SessionKey = SessionKey::Pane(PaneId::Editor);
const AGENT: SessionKey = SessionKey::Pane(PaneId::Agent);

fn size(cols: u16, rows: u16) -> TerminalSize {
    TerminalSize { cols, rows }
}

fn source(key: SessionKey) -> SlotSource {
    SlotSource {
        key,
        source: ProcessSource { kind: ProcessKind::Static, display_name: "shell".to_owned() },
        size: size(20, 5),
    }
}

/// Starts whatever is to be started.
fn start(registry: &mut SessionRegistry, effects: Vec<SessionEffect>, now: u128) {
    for effect in effects {
        if let SessionEffect::Spawn { key, identity, .. } = effect {
            registry.finish_spawn(
                key,
                identity,
                now,
                SpawnOutcome::Started { display_name: "shell".to_owned() },
            );
        }
    }
}

fn registry(keys: Vec<SessionKey>) -> SessionRegistry {
    let sources = keys.into_iter().map(source).collect();
    let (mut registry, effects) =
        SessionRegistry::from_sources(sources, Some("shell".to_owned()));
    start(&mut registry, effects, 0);
    registry
}

#[test]
fn stale_generation_does_not_stop_current_session() {
    let mut registry = registry(vec![EDITOR]);
    let current = registry.get(EDITOR).unwrap();
    let stale =
        SessionIdentity { generation: current.generation.saturating_sub(1), ..current };
    let effects = registry
        .handle_failure(EDITOR, stale, 0, "stale exit".to_owned(), RestartDecision::Paused)
        .unwrap();
    assert!(effects.is_empty());
    assert_eq!(registry.get(EDITOR), Some(current));
    assert_eq!(registry.failure_runtime(EDITOR, stale, 5), None);
    assert_eq!(registry.failure_runtime(EDITOR, current, 5), Some(5));
    registry.shutdown();
}

#[test]
fn shutdown_suppresses_retry_and_due_respawn() {
    let mut registry = registry(vec![EDITOR]);
    assert_eq!(
        registry.shutdown(),
        [SessionEffect::Terminate(EDITOR), SessionEffect::Cleanup(EDITOR)]
    );
    assert!(registry.retry(EDITOR).is_empty());
    let (effects, exited) = registry.poll(Vec::new(), 60 * SECOND);
    assert!(effects.is_empty());
    assert!(exited.is_empty());
    assert_eq!(registry.get(EDITOR), None);
    assert_eq!(
        registry.status(EDITOR, 60 * SECOND, true).unwrap(),
        "shut down; paused (click to retry)"
    );
}

fn crash_until_paused(registry: &mut SessionRegistry, key: SessionKey, start_at: u128) -> u128 {
    let mut now = start_at;
    for failure in 0..QUICK_FAILURES_TO_PAUSE {
        let identity = registry.get(key).unwrap();
        now += MILLISECOND;
        let last = failure + 1 == QUICK_FAILURES_TO_PAUSE;
        let decision = if last {
            RestartDecision::Paused
        } else {
            RestartDecision::Backoff(250 * MILLISECOND)
        };
        let effects = registry
            .handle_failure(key, identity, now, format!("quick failure {failure}"), decision)
            .unwrap();
        assert_eq!(
            effects,
            [SessionEffect::Terminate(key), SessionEffect::Cleanup(key)]
        );
        if last {
            assert_eq!(
                registry.status(key, now, false).unwrap(),
                format!("quick failure {failure}; paused (press any key to retry)")
            );
            break;
        }
        assert_eq!(
            registry.status(key, now, true).unwrap(),
            format!("quick failure {failure}; retrying in 250ms (click to retry)")
        );
        let until = now + 250 * MILLISECOND;
        assert!(registry.poll(Vec::new(), until - 1).0.is_empty());
        let (effects, _) = registry.poll(Vec::new(), until);
        assert_eq!(effects.len(), 1);
        start(registry, effects, until);
        assert!(registry.get(key).is_some());
        now = until;
    }
    now
}

#[test]
fn nvim_and_pi_crash_loops_pause_independently() {
    let mut registry = registry(vec![EDITOR, AGENT]);
    let now = crash_until_paused(&mut registry, AGENT, 0);
    assert!(registry.get(EDITOR).is_some());
    crash_until_paused(&mut registry, EDITOR, now);
    assert!(registry.get(AGENT).is_none());
    registry.shutdown();
}

#[test]
fn registry_keeps_independent_shell_slots_and_resizes_inactive_slot() {
    let first = SessionKey::Shell(ShellTabId(1));
    let second = SessionKey::Shell(ShellTabId(2));
    let mut registry = SessionRegistry::new(Some("shell".to_owned()));
    for key in [first, second] {
        let SlotSource { source, .. } = source(key);
        registry.add_slot(key, source, size(10, 4));
    }
    assert_eq!(registry.resize_slot(first, size(40, 12)), None);
    assert_eq!(registry.resize_slot(second, size(40, 12)), None);
    for key in [first, second] {
        let effects = registry.spawn(key);
        assert!(matches!(
            effects[0],
            SessionEffect::Spawn { size: TerminalSize { cols: 40, rows: 12 }, .. }
        ));
    }
}

#[test]
fn a_running_process_is_told_its_size() {
    let mut registry = registry(vec![EDITOR]);
    assert_eq!(registry.resize_slot(EDITOR, size(1, 1)), registry.get(EDITOR));
    assert_eq!(registry.resize_slot(AGENT, size(1, 1)), None);
}

#[test]
fn a_failure_in_no_place_is_an_error() {
    let mut registry = registry(vec![EDITOR]);
    let identity = registry.get(EDITOR).unwrap();
    assert_eq!(
        registry
            .handle_failure(AGENT, identity, 0, "exit".to_owned(), RestartDecision::Paused)
            .unwrap_err(),
        "lifecycle event for unknown session slot"
    );
}

#[test]
fn processes_that_do_not_start_say_why() {
    let sources = vec![source(EDITOR)];
    let (mut registry, effects) = SessionRegistry::from_sources(sources, None);
    assert_eq!(registry.status(EDITOR, 0, true).unwrap(), "starting…");
    let identity = match effects[0] {
        SessionEffect::Spawn { identity, .. } => identity,
        _ => panic!("nothing is to be started"),
    };
    registry.finish_spawn(
        EDITOR,
        identity,
        0,
        SpawnOutcome::NotPrepared {
            error: "no profile".to_owned(),
            decision: RestartDecision::Paused,
        },
    );
    assert_eq!(
        registry.status(EDITOR, 0, true).unwrap(),
        "failed to prepare shell: no profile; paused (click to retry)"
    );
    let effects = registry.retry(EDITOR);
    assert_eq!(effects.len(), 2);
    assert_eq!(effects[0], SessionEffect::ResetPolicy(EDITOR));
    let late = SpawnOutcome::Started { display_name: "late".to_owned() };
    assert!(!registry.finish_spawn(EDITOR, identity, 0, late));
    assert_eq!(registry.status(EDITOR, 0, true).unwrap(), "starting…");
    let identity = match effects[1] {
        SessionEffect::Spawn { identity, .. } => identity,
        _ => panic!("nothing is to be started"),
    };
    registry.finish_spawn(
        EDITOR,
        identity,
        0,
        SpawnOutcome::NotStarted {
            display_name: "zsh".to_owned(),
            error: "denied".to_owned(),
            decision: RestartDecision::Backoff(1_500_000),
        },
    );
    assert_eq!(
        registry.status(EDITOR, 0, false).unwrap(),
        "failed to start zsh: denied; retrying in 1ms (press any key to retry)"
    );
    assert_eq!(registry.display_name(EDITOR).unwrap(), "zsh");
}

#[test]
fn a_restart_replaces_the_process() {
    let mut registry = registry(vec![EDITOR, AGENT]);
    let before = registry.get(AGENT).unwrap();
    let editor = registry.get(EDITOR);
    let effects = registry.restart(AGENT);
    assert_eq!(
        effects[..3],
        [
            SessionEffect::Terminate(AGENT),
            SessionEffect::Cleanup(AGENT),
            SessionEffect::ResetPolicy(AGENT),
        ]
    );
    assert_eq!(registry.get(AGENT), None);
    start(&mut registry, effects, 9);
    let after = registry.get(AGENT).unwrap();
    assert_ne!(before, after);
    assert_eq!(after.generation, before.generation + 1);
    assert_eq!(registry.get(EDITOR), editor);
    assert!(registry.retry(AGENT).is_empty());
}

#[test]
fn tabs_come_and_go() {
    let mut registry = registry(vec![SessionKey::Shell(ShellTabId(1))]);
    let effects = registry.add_shell(ShellTabId(2), size(9, 9)).unwrap();
    start(&mut registry, effects, 0);
    assert!(registry.get(SessionKey::Shell(ShellTabId(2))).is_some());
    let effects = registry.close_shell(ShellTabId(2), None);
    assert_eq!(effects, [SessionEffect::Terminate(SessionKey::Shell(ShellTabId(2)))]);
    assert!(!registry.contains(SessionKey::Shell(ShellTabId(2))));
    let effects = registry.close_shell(ShellTabId(1), Some(ShellTabId(3)));
    start(&mut registry, effects, 0);
    assert!(registry.get(SessionKey::Shell(ShellTabId(3))).is_some());
    assert!(!registry.contains(SessionKey::Shell(ShellTabId(1))));
    let mut bare = SessionRegistry::new(None);
    assert_eq!(
        bare.add_shell(ShellTabId(1), size(9, 9)).unwrap_err(),
        "shell tab registry is missing its process spec"
    );
}

#[test]
fn reports_decide_what_happens_to_a_process() {
    let shell = SessionKey::Shell(ShellTabId(1));
    assert!(matches!(poll_outcome(EDITOR, Ok(false)), PollOutcome::Alive));
    assert!(matches!(
        poll_outcome(shell, Ok(true)),
        PollOutcome::ShellExited(ShellTabId(1))
    ));
    assert!(matches!(
        poll_outcome(EDITOR, Ok(true)),
        PollOutcome::Failed(message) if message == "backend exited"
    ));
    assert!(matches!(
        poll_outcome(shell, Err("gone".to_owned())),
        PollOutcome::Failed(message) if message == "backend error: gone"
    ));
    let mut registry = registry(vec![EDITOR, AGENT, shell]);
    let report = |registry: &SessionRegistry, key: SessionKey| PollReport {
        key,
        identity: registry.get(key).unwrap(),
        exited: Ok(true),
        decision: RestartDecision::Backoff(0),
    };
    let reports = vec![report(&registry, EDITOR), report(&registry, shell)];
    let (effects, exited) = registry.poll(reports, SECOND);
    assert_eq!(exited, [ShellTabId(1)]);
    assert_eq!(effects[0], SessionEffect::Terminate(EDITOR));
    assert_eq!(effects[1], SessionEffect::Cleanup(EDITOR));
    assert!(matches!(effects[2], SessionEffect::Spawn { key: EDITOR, .. }));
    assert_eq!(effects.len(), 3);
    assert!(registry.get(AGENT).is_some());
}

#[test]
fn failed_operations_say_what_failed() {
    assert_eq!(operation_failure(BackendOperation::Resize, "x"), "backend resize error: x");
    assert_eq!(operation_failure(BackendOperation::Input, "x"), "backend input error: x");
    assert_eq!(operation_failure(BackendOperation::Mouse, "x"), "backend mouse error: x");
    assert_eq!(operation_failure(BackendOperation::Paste, "x"), "backend paste error: x");
    assert_eq!(operation_failure(BackendOperation::Poll, "x"), "backend error: x");
}

#[test]
fn files_are_opened_by_a_running_editor_only() {
    let ready = ProcessKind::ManagedNvim { ready: true };
    assert!(can_open_file(ready, true));
    assert!(!can_open_file(ready, false));
    assert!(!can_open_file(ProcessKind::ManagedNvim { ready: false }, true));
    assert!(!can_open_file(ProcessKind::Static, true));
    assert_eq!(file_open_delivery(Some(Ok(()))), FileOpenDelivery::Opened);
    assert_eq!(
        file_open_delivery(Some(Err("remote failed".to_owned()))),
        FileOpenDelivery::Failed("remote failed".to_owned())
    );
    assert_eq!(file_open_delivery(None), FileOpenDelivery::Unavailable);
}

#[test]
fn places_follow_from_how_the_program_was_started() {
    let nvim = single_source(LaunchMode::Nvim, "zsh".to_owned(), size(1, 2));
    assert_eq!(nvim.source.kind, ProcessKind::ManagedNvim { ready: false });
    assert_eq!(nvim.source.display_name, "nvim");
    let pi = single_source(LaunchMode::Pi, "zsh".to_owned(), size(1, 2));
    assert_eq!(pi.source.display_name, "pi");
    let shell = single_source(LaunchMode::Shell, "zsh".to_owned(), size(1, 2));
    assert_eq!(shell.source.display_name, "zsh");
    let sizes = PaneSizes { editor: size(1, 1), agent: size(2, 2), shell: size(3, 3) };
    let keys: Vec<SessionKey> = workbench_sources("zsh".to_owned(), sizes)
        .iter()
        .map(|source| source.key)
        .collect();
    assert_eq!(keys, [EDITOR, AGENT, SessionKey::Shell(ShellTabId(1))]);
}

#[test]
fn a_process_starts_with_the_trust_that_is_known() {
    let trusted = WorkspaceTrustState::Trusted;
    assert_eq!(generation_trust(Some(Ok(trusted))), trusted);
    assert_eq!(
        generation_trust(Some(Ok(WorkspaceTrustState::Stale))),
        WorkspaceTrustState::Stale
    );
    let untrusted = WorkspaceTrustState::Untrusted;
    assert_eq!(generation_trust(Some(Err("denied".to_owned()))), untrusted);
    assert_eq!(generation_trust(None), untrusted);
}

#[test]
fn a_place_without_a_process_is_cleaned_up_at_the_end() {
    let mut registry = registry(vec![EDITOR]);
    let current = registry.get(EDITOR).unwrap();
    registry
        .handle_failure(EDITOR, current, 0, "exited".to_owned(), RestartDecision::Paused)
        .unwrap();
    assert_eq!(registry.shutdown(), [SessionEffect::Cleanup(EDITOR)]);
    let late = SpawnOutcome::Started { display_name: "late".to_owned() };
    assert!(!registry.finish_spawn(EDITOR, current, 0, late));
    assert_eq!(registry.get(EDITOR), None);
    for _ in 0..3 {
        assert!(registry.retry(EDITOR).is_empty());
        assert!(registry.generations_left());
        assert!(registry.due_slots(60 * SECOND).is_empty());
        assert_eq!(
            registry.status(EDITOR, 0, false).unwrap(),
            "shut down; paused (press any key to retry)"
        );
    }
}
