//! What happens to the processes in the panes: how they are started, fail, are
//! tried again, and are shown.

use vstd::prelude::*;
use vstd::string::*;

use crate::geometry::Rect;
use crate::runtime_replies::{launched, paste_answered, tab_opened, LaunchFacts, PasteRefusal};
use crate::runtime_state::{
    layout_saved, resize_finished, resize_plan, tab_closed, viewport_changed, EffectView,
    RuntimeState,
};
use crate::sessions::{
    editor_takes_files, failed, is_due, keys_spawned, operation_text, polled, prepared,
    reports_taken, resized, restarted, retried, round_polled, running, shell_added, shell_closed,
    shut_down, shutdown_effects, single_kind, single_name, spawn_begun, spawn_finished, status_text,
    workbench_places, BackendOperation, OutcomeView, PaneSizes, PollView, ProcessKind, RegistryView,
    ReportView, RestartDecision, SessionEffect, SessionIdentity, SessionKey, SlotView, SourceView,
    StateView,
};
use crate::text::decimal;
use crate::workbench::{
    LaunchMode, PaneId, PaneMinimums, ShellTabId, TerminalSize, WorkbenchLayout, WorkbenchState,
};

verus! {

/// Whether a place is there and may be started.
pub open spec fn can_start(r: RegistryView, key: SessionKey) -> bool {
    &&& !r.shutting_down
    &&& r.slots.contains_key(key)
    &&& r.next_id < u64::MAX
    &&& r.slots[key].generation < u64::MAX
}

/// A start asks for one process in the place, in the size of the place, under
/// the next number and the next generation.
pub proof fn law_start_asks_for_a_process(r: RegistryView, key: SessionKey)
    requires
        can_start(r, key),
    ensures
        ({
            let (after, effects) = spawn_begun(r, key);
            let identity = SessionIdentity {
                id: r.next_id,
                generation: (r.slots[key].generation + 1) as u64,
            };
            &&& effects =~= seq![
                SessionEffect::Spawn { key, identity, size: r.slots[key].size },
            ]
            &&& after.next_id == r.next_id + 1
            &&& after.slots[key] == (SlotView {
                generation: identity.generation,
                ..r.slots[key]
            })
        }),
{
}

/// A process that was started runs under its identity and its own name. One
/// that was not started does not run: it waits for its time, or for the user,
/// and the message says what failed.
pub proof fn law_start_ends(
    r: RegistryView,
    key: SessionKey,
    identity: SessionIdentity,
    now: u128,
    name: Seq<char>,
    error: Seq<char>,
    delay: u128,
)
    requires
        !r.shutting_down,
        r.slots.contains_key(key),
        r.slots[key].generation == identity.generation,
        now + delay <= u128::MAX,
    ensures
        ({
            let started = spawn_finished(
                r,
                key,
                identity,
                now,
                OutcomeView::Started { display_name: name },
            );
            &&& running(started, key) == Some(identity)
            &&& started.slots[key].display_name == name
            &&& started.slots[key].size == r.slots[key].size
        }),
        ({
            let waits = spawn_finished(
                r,
                key,
                identity,
                now,
                OutcomeView::NotStarted {
                    display_name: name,
                    error,
                    decision: RestartDecision::Backoff(delay),
                },
            );
            &&& running(waits, key) is None
            &&& waits.slots[key].state is Backoff
            &&& waits.slots[key].state->until == now + delay
            &&& waits.slots[key].state->Backoff_message == "failed to start "@ + name + ": "@
                + error
        }),
        ({
            let waits = spawn_finished(
                r,
                key,
                identity,
                now,
                OutcomeView::NotPrepared { error, decision: RestartDecision::Paused },
            );
            &&& running(waits, key) is None
            &&& waits.slots[key].state == (StateView::Paused {
                message: "failed to prepare "@ + r.slots[key].source_name + ": "@ + error,
            })
        }),
{
}

/// A process that fails is ended and cleaned up after, its place keeps its size
/// and generation, and the place says why.
pub proof fn law_failure_ends_the_process(
    r: RegistryView,
    key: SessionKey,
    identity: SessionIdentity,
    now: u128,
    message: Seq<char>,
    delay: u128,
)
    requires
        !r.shutting_down,
        running(r, key) == Some(identity),
        now + delay <= u128::MAX,
    ensures
        ({
            let (after, effects) = failed(
                r,
                key,
                identity,
                now,
                message,
                RestartDecision::Backoff(delay),
            );
            &&& effects =~= seq![SessionEffect::Terminate(key), SessionEffect::Cleanup(key)]
            &&& after.slots[key].state == (StateView::Backoff {
                until: (now + delay) as u128,
                message,
            })
            &&& after.slots[key].size == r.slots[key].size
            &&& after.slots[key].generation == r.slots[key].generation
            &&& after.next_id == r.next_id
        }),
        failed(r, key, identity, now, message, RestartDecision::Paused).0.slots[key].state
            == (StateView::Paused { message }),
{
}

/// An editor whose process has failed, is started anew, could not be started or
/// is shut down takes no more files; one that was started does. What the other
/// processes are does not change.
pub proof fn law_editor_is_given_up_with_its_process(
    r: RegistryView,
    identity: SessionIdentity,
    now: u128,
    message: Seq<char>,
    name: Seq<char>,
    decision: RestartDecision,
    ready: bool,
)
    requires
        !r.shutting_down,
        r.slots.contains_key(SessionKey::Pane(PaneId::Editor)),
        r.slots[SessionKey::Pane(PaneId::Editor)].kind == (ProcessKind::ManagedNvim { ready }),
        r.slots[SessionKey::Pane(PaneId::Editor)].generation == identity.generation,
    ensures
        ({
            let key = SessionKey::Pane(PaneId::Editor);
            let idle = ProcessKind::ManagedNvim { ready: false };
            let ended = failed(r, key, identity, now, message, decision).0;
            let unprepared = spawn_finished(
                r,
                key,
                identity,
                now,
                OutcomeView::NotPrepared { error: message, decision },
            );
            let unstarted = spawn_finished(
                r,
                key,
                identity,
                now,
                OutcomeView::NotStarted { display_name: name, error: message, decision },
            );
            let started = spawn_finished(
                r,
                key,
                identity,
                now,
                OutcomeView::Started { display_name: name },
            );
            &&& running(r, key) == Some(identity) ==> ended.slots[key].kind == idle
                && !editor_takes_files(ended)
            &&& restarted(r, key).0.slots[key].kind == idle
            &&& unprepared.slots[key].kind == idle && !editor_takes_files(unprepared)
            &&& unstarted.slots[key].kind == idle && !editor_takes_files(unstarted)
            &&& shut_down(r).slots[key].kind == idle && !editor_takes_files(shut_down(r))
            &&& editor_takes_files(started)
        }),
{
}

/// What happens to one process leaves the places of all others as they are.
pub proof fn law_other_places_stay(
    r: RegistryView,
    key: SessionKey,
    other: SessionKey,
    identity: SessionIdentity,
    now: u128,
    message: Seq<char>,
    decision: RestartDecision,
    outcome: OutcomeView,
    size: TerminalSize,
)
    requires
        key != other,
    ensures
        ({
            let same = |after: RegistryView|
                {
                    &&& after.slots.contains_key(other) == r.slots.contains_key(other)
                    &&& r.slots.contains_key(other) ==> after.slots[other] == r.slots[other]
                    &&& after.shutting_down == r.shutting_down
                    &&& after.shell == r.shell
                };
            &&& same(spawn_begun(r, key).0)
            &&& same(spawn_finished(r, key, identity, now, outcome))
            &&& same(failed(r, key, identity, now, message, decision).0)
            &&& same(restarted(r, key).0)
            &&& same(retried(r, key).0)
            &&& same(resized(r, key, size))
        }),
{
}

/// Starting a place anew ends its process, cleans up after it, forgets its
/// failures and starts the next one, in that order.
pub proof fn law_restart_replaces_the_process(r: RegistryView, key: SessionKey)
    requires
        can_start(r, key),
    ensures
        ({
            let (after, effects) = restarted(r, key);
            let identity = SessionIdentity {
                id: r.next_id,
                generation: (r.slots[key].generation + 1) as u64,
            };
            let spawn = SessionEffect::Spawn { key, identity, size: r.slots[key].size };
            &&& running(after, key) is None
            &&& after.slots[key].state is Starting
            &&& r.slots[key].state is Running ==> effects =~= seq![
                SessionEffect::Terminate(key),
                SessionEffect::Cleanup(key),
                SessionEffect::ResetPolicy(key),
                spawn,
            ]
            &&& !(r.slots[key].state is Running) ==> effects =~= seq![
                SessionEffect::Cleanup(key),
                SessionEffect::ResetPolicy(key),
                spawn,
            ]
        }),
{
}

/// A place that the user tries again forgets its failures and is started; one
/// that runs is left alone.
pub proof fn law_retry_starts_what_does_not_run(r: RegistryView, key: SessionKey)
    requires
        can_start(r, key),
    ensures
        r.slots[key].state is Running ==> retried(r, key).0 == r && retried(r, key).1 =~= seq![],
        !(r.slots[key].state is Running) ==> ({
            let (after, effects) = retried(r, key);
            let identity = SessionIdentity {
                id: r.next_id,
                generation: (r.slots[key].generation + 1) as u64,
            };
            &&& after.slots[key].state is Starting
            &&& effects =~= seq![
                SessionEffect::ResetPolicy(key),
                SessionEffect::Spawn { key, identity, size: r.slots[key].size },
            ]
        }),
{
}

/// A shell that has ended closes its tab; an editor or an agent that has ended
/// has failed; and a process that lives is left alone.
pub proof fn law_ended_processes(pane: PaneId, id: ShellTabId, error: Seq<char>)
    ensures
        polled(SessionKey::Shell(id), Ok(true)) == PollView::ShellExited(id),
        polled(SessionKey::Pane(pane), Ok(true)) == PollView::Failed("backend exited"@),
        polled(SessionKey::Shell(id), Ok(false)) == PollView::Alive,
        polled(SessionKey::Pane(pane), Ok(false)) == PollView::Alive,
        polled(SessionKey::Shell(id), Err(error)) == PollView::Failed("backend error: "@ + error),
        polled(SessionKey::Pane(pane), Err(error)) == PollView::Failed("backend error: "@ + error),
{
}

/// A round of reports names the tabs whose shells have ended, in the order in
/// which they were told, and nothing runs any longer that failed.
pub proof fn law_round_names_ended_tabs(
    r: RegistryView,
    reports: Seq<ReportView>,
    report: ReportView,
    now: u128,
)
    ensures
        ({
            let before = reports_taken(r, reports, now);
            let after = reports_taken(r, reports.push(report), now);
            &&& report.exited == Ok::<bool, Seq<char>>(false) ==> after == before
            &&& (report.exited == Ok::<bool, Seq<char>>(true) && report.key is Shell)
                ==> after.exited == before.exited.push(report.key->Shell_0) && after.registry
                == before.registry && after.effects == before.effects
            &&& (report.exited is Err || report.key is Pane && report.exited == Ok::<
                bool,
                Seq<char>,
            >(true)) && running(before.registry, report.key) == Some(report.identity)
                && !before.registry.shutting_down ==> {
                &&& running(after.registry, report.key) is None
                &&& after.exited == before.exited
                &&& after.effects =~= before.effects + seq![
                    SessionEffect::Terminate(report.key),
                    SessionEffect::Cleanup(report.key),
                ]
            }
        }),
{
    assert(reports.push(report).drop_last() =~= reports);
    assert(reports.push(report).last() == report);
}

/// What is told of a process that is no longer the one in its place changes
/// nothing, neither that it was started nor that it failed.
pub proof fn law_stale_answers_are_ignored(
    r: RegistryView,
    key: SessionKey,
    identity: SessionIdentity,
    now: u128,
    message: Seq<char>,
    decision: RestartDecision,
    outcome: OutcomeView,
)
    ensures
        r.shutting_down || !r.slots.contains_key(key) || r.slots[key].generation
            != identity.generation ==> spawn_finished(r, key, identity, now, outcome) == r,
        r.shutting_down || running(r, key) != Some(identity) ==> failed(
            r,
            key,
            identity,
            now,
            message,
            decision,
        ) == (r, Seq::<SessionEffect>::empty()),
{
}

/// A round starts the places that are due behind what it did with those that
/// failed, one after the other.
pub proof fn law_round_starts_what_is_due(
    r: RegistryView,
    reports: Seq<ReportView>,
    order: Seq<SessionKey>,
    key: SessionKey,
    now: u128,
)
    ensures
        ({
            let taken = reports_taken(r, reports, now);
            let before = round_polled(r, reports, order, now);
            let after = round_polled(r, reports, order.push(key), now);
            let place = before.registry.slots[key];
            let identity = SessionIdentity {
                id: before.registry.next_id,
                generation: (place.generation + 1) as u64,
            };
            &&& round_polled(r, reports, seq![], now) == taken
            &&& after.exited == taken.exited
            &&& can_start(before.registry, key) ==> {
                &&& after.effects =~= before.effects + seq![
                    SessionEffect::Spawn { key, identity, size: place.size },
                ]
                &&& after.registry.slots[key].generation == place.generation + 1
                &&& after.registry.next_id == before.registry.next_id + 1
            }
        }),
{
    assert(order.push(key).drop_last() =~= order);
    assert(order.push(key).last() == key);
    let taken = reports_taken(r, reports, now);
    assert(taken.effects + seq![] =~= taken.effects);
    assert(keys_spawned(taken.registry, seq![]) == (
        taken.registry,
        Seq::<SessionEffect>::empty(),
    ));
}

/// Without a shell to run there is no new tab, and that is told.
pub proof fn law_tab_without_a_shell(r: RegistryView, id: ShellTabId, size: TerminalSize)
    requires
        r.shell is None,
    ensures
        shell_added(r, id, size) == Err::<(RegistryView, Seq<SessionEffect>), _>(
            "shell tab registry is missing its process spec"@,
        ),
{
}

/// A place is due once its time has come, and only a place that waits is due.
pub proof fn law_due_places(r: RegistryView, key: SessionKey, now: u128)
    ensures
        is_due(r, key, now) <==> r.slots.contains_key(key) && r.slots[key].state is Backoff && now
            >= r.slots[key].state->until,
{
}

/// A new tab has a shell of its own, in the size that was asked for, and is
/// started at once.
pub proof fn law_new_tab_starts_a_shell(r: RegistryView, id: ShellTabId, size: TerminalSize)
    requires
        !r.shutting_down,
        r.next_id < u64::MAX,
    ensures
        r.shell is None ==> shell_added(r, id, size) is Err,
        r.shell matches Some(name) ==> {
            let key = SessionKey::Shell(id);
            &&& shell_added(r, id, size) is Ok
            &&& ({
                let (after, effects) = shell_added(r, id, size)->Ok_0;
                &&& after.slots.contains_key(key)
                &&& after.slots[key].display_name == name
                &&& after.slots[key].size == size
                &&& after.slots[key].kind == ProcessKind::Static
                &&& running(after, key) is None
                &&& effects =~= seq![
                    SessionEffect::Spawn {
                        key,
                        identity: SessionIdentity { id: r.next_id, generation: 1 },
                        size,
                    },
                ]
            })
        },
{
}

/// When the last tab is closed another takes its place, with a shell of its own.
pub proof fn law_last_tab_is_replaced(r: RegistryView, id: ShellTabId, next: ShellTabId)
    requires
        r.slots.contains_key(SessionKey::Shell(id)),
        next != id,
        !r.shutting_down,
        r.next_id < u64::MAX,
    ensures
        ({
            let key = SessionKey::Shell(next);
            let old = r.slots[SessionKey::Shell(id)];
            let (after, effects) = shell_closed(r, id, Some(next));
            &&& !after.slots.contains_key(SessionKey::Shell(id))
            &&& after.slots.contains_key(key)
            &&& after.slots[key].size == old.size
            &&& after.slots[key].display_name == old.display_name
            &&& effects.len() > 0
            &&& effects.last() == (SessionEffect::Spawn {
                key,
                identity: SessionIdentity { id: r.next_id, generation: 1 },
                size: old.size,
            })
        }),
        shell_closed(r, id, None).1.len() <= 1,
{
}

/// Files can be opened in the editor exactly while it runs and is ready.
pub proof fn law_editor_opens_files_when_ready(r: RegistryView)
    ensures
        editor_takes_files(r) <==> ({
            let key = SessionKey::Pane(PaneId::Editor);
            &&& r.slots.contains_key(key)
            &&& r.slots[key].state is Running
            &&& r.slots[key].kind == (ProcessKind::ManagedNvim { ready: true })
        }),
        prepared(ProcessKind::ManagedNvim { ready: false }) == (ProcessKind::ManagedNvim {
            ready: true,
        }),
        prepared(ProcessKind::Static) == ProcessKind::Static,
        prepared(ProcessKind::NativePi) == ProcessKind::NativePi,
{
}

/// A running place says nothing. One that waits says why, how many milliseconds
/// are left and how to try again; one that is paused says why and how.
pub proof fn law_places_say_how_they_are(r: RegistryView, key: SessionKey, now: u128, click: bool)
    requires
        r.slots.contains_key(key),
    ensures
        ({
            let hint = if click {
                "click to retry"@
            } else {
                "press any key to retry"@
            };
            let shown = status_text(r, key, now, click);
            &&& r.slots[key].state is Running ==> shown is None
            &&& r.slots[key].state is Starting ==> shown == Some("starting…"@)
            &&& r.slots[key].state matches StateView::Paused { message } ==> shown == Some(
                message + "; paused ("@ + hint + ")"@,
            )
            &&& r.slots[key].state matches StateView::Backoff { until, message } ==> shown
                == Some(
                message + "; retrying in "@ + decimal(
                    if until >= now {
                        ((until - now) / 1_000_000) as nat
                    } else {
                        0
                    },
                ) + "ms ("@ + hint + ")"@,
            )
        }),
{
}

/// Stopping ends every process that runs, once, and cleans up after every place.
pub proof fn law_shutdown_ends_every_process(
    r: RegistryView,
    order: Seq<SessionKey>,
    key: SessionKey,
)
    requires
        order.contains(key),
    ensures
        shutdown_effects(r, order).contains(SessionEffect::Cleanup(key)),
        r.slots[key].state is Running ==> shutdown_effects(r, order).contains(
            SessionEffect::Terminate(key),
        ),
        shut_down(r).shutting_down,
        r.slots.contains_key(key) ==> shut_down(r).slots[key].state is Paused,
    decreases order.len(),
{
    let last = order.last();
    let before = shutdown_effects(r, order.drop_last());
    let ends = if r.slots[last].state is Running {
        seq![SessionEffect::Terminate(last)]
    } else {
        seq![]
    };
    let all = shutdown_effects(r, order);
    assert(all =~= before + ends + seq![SessionEffect::Cleanup(last)]);
    if last == key {
        assert(all[all.len() - 1] == SessionEffect::Cleanup(key));
        if r.slots[key].state is Running {
            assert(all[before.len() as int] == SessionEffect::Terminate(key));
        }
    } else {
        let i = order.index_of(key);
        assert(order.drop_last()[i] == key);
        law_shutdown_ends_every_process(r, order.drop_last(), key);
        let j = before.index_of(SessionEffect::Cleanup(key));
        assert(all[j] == SessionEffect::Cleanup(key));
        if r.slots[key].state is Running {
            let k = before.index_of(SessionEffect::Terminate(key));
            assert(all[k] == SessionEffect::Terminate(key));
        }
    }
}

/// The size of a place is remembered for its next process.
pub proof fn law_sizes_are_remembered(r: RegistryView, key: SessionKey, size: TerminalSize)
    ensures
        r.slots.contains_key(key) ==> resized(r, key, size).slots[key] == (SlotView {
            size,
            ..r.slots[key]
        }),
        !r.slots.contains_key(key) ==> resized(r, key, size) == r,
{
}

/// A terminal gets its new size where its pane has room for one: the editor and
/// the agent theirs, and every tab that of the bottom pane.
pub proof fn law_panes_with_room_are_resized(
    layout: WorkbenchLayout,
    tabs: Seq<ShellTabId>,
    sizes: PaneSizes,
    minimums: PaneMinimums,
    i: int,
)
    ensures
        ({
            let plan = resize_plan(layout, tabs, sizes, minimums);
            let editor = layout.editor.width >= minimums.terminal_width && layout.editor.height
                >= minimums.terminal_height;
            let agent = layout.agent.width >= minimums.terminal_width && layout.agent.height
                >= minimums.terminal_height;
            let shells = layout.bottom.width >= minimums.terminal_width && layout.bottom.height
                >= minimums.shell_height;
            let first = (SessionKey::Pane(PaneId::Editor), sizes.editor);
            let second = (SessionKey::Pane(PaneId::Agent), sizes.agent);
            let panes: int = (if editor {
                1int
            } else {
                0
            }) + (if agent {
                1int
            } else {
                0
            });
            &&& plan.len() == panes + (if shells {
                tabs.len() as int
            } else {
                0
            })
            &&& editor ==> plan[0] == first
            &&& agent ==> plan[panes - 1] == second
            &&& shells && 0 <= i < tabs.len() ==> plan[panes + i] == (
                SessionKey::Shell(tabs[i]),
                sizes.shell,
            )
        }),
{
}

/// A single program fills the screen.
pub proof fn law_single_terminal_is_resized(
    s: RuntimeState,
    clear: bool,
    tabs: Seq<ShellTabId>,
    sizes: PaneSizes,
    minimums: PaneMinimums,
    identity: SessionIdentity,
)
    requires
        running(s.sessions, SessionKey::Pane(PaneId::Editor)) == Some(identity),
    ensures
        ({
            let key = SessionKey::Pane(PaneId::Editor);
            let (after, effects) = resize_finished(s, None, clear, tabs, sizes, minimums);
            &&& effects =~= seq![
                EffectView::ResizeSession { key, identity, size: sizes.editor },
            ]
            &&& after.sessions.slots[key].size == sizes.editor
            &&& after.layout == s.layout
        }),
{
    let key = SessionKey::Pane(PaneId::Editor);
    let plan = seq![(key, sizes.editor)];
    assert(plan.drop_last() =~= Seq::<(SessionKey, TerminalSize)>::empty());
    reveal_with_fuel(crate::runtime_state::terminals_resized, 3);
    assert(plan.last() == (key, sizes.editor));
}

/// A screen of another size closes the menu and gives up a drag; one of the
/// same size changes nothing.
pub proof fn law_another_screen_closes_the_menu(s: RuntimeState, area: Rect)
    ensures
        s.viewport_area == area ==> viewport_changed(s, area) == s,
        s.viewport_area != area ==> {
            let after = viewport_changed(s, area);
            &&& after.viewport_area == area
            &&& after.context_menu is None
            &&& after.pending_layout is None
            &&& after.workbench == s.workbench
            &&& after.sidebar == s.sidebar
        },
{
}

/// A saved layout takes its trouble off the status, and no other message; one
/// that cannot be saved says so.
pub proof fn law_saving_the_layout_is_told(s: RuntimeState, error: Seq<char>)
    ensures
        layout_saved(s, Err(error)).status == Some("failed to save layout: "@ + error),
        s.status is None ==> layout_saved(s, Ok(())) == s,
        layout_saved(
            RuntimeState { status: Some("failed to save layout:"@ + error), ..s },
            Ok(()),
        ).status is None,
        layout_saved(
            RuntimeState { status: Some("saved layout ignored:"@ + error), ..s },
            Ok(()),
        ).status is None,
        layout_saved(s, Ok(())).layout_config == s.layout_config,
{
    let one = "failed to save layout:"@;
    let two = "saved layout ignored:"@;
    assert((one + error).take(one.len() as int) =~= one);
    assert((two + error).take(two.len() as int) =~= two);
}

/// A tab that was opened is shown and started; one that was closed leaves
/// another shown, and its process is ended.
pub proof fn law_tabs_come_and_go(
    s: RuntimeState,
    id: ShellTabId,
    active: ShellTabId,
    size: TerminalSize,
)
    ensures
        tab_opened(s, id, active, size).0.workbench == (WorkbenchState {
            active_shell: active,
            ..s.workbench
        }),
        s.sessions.shell is Some && !s.sessions.shutting_down && s.sessions.next_id < u64::MAX ==> {
            let (after, answer) = tab_opened(s, id, active, size);
            &&& after.sessions.slots.contains_key(SessionKey::Shell(id))
            &&& answer is Ok
            &&& answer->Ok_0.len() == 1
            &&& answer->Ok_0[0] is Session
        },
        s.sessions.shell is None ==> tab_opened(s, id, active, size).1 is Err,
        tab_closed(s, None, active).0 == (RuntimeState {
            workbench: WorkbenchState { active_shell: active, ..s.workbench },
            ..s
        }),
        tab_closed(s, None, active).1 =~= seq![],
        s.sessions.slots.contains_key(SessionKey::Shell(id)) ==> {
            let (after, effects) = tab_closed(s, Some((id, None)), active);
            &&& after.workbench.active_shell == active
            &&& !after.sessions.slots.contains_key(SessionKey::Shell(id))
            &&& running(s.sessions, SessionKey::Shell(id)) is Some ==> effects =~= seq![
                EffectView::Session(SessionEffect::Terminate(SessionKey::Shell(id))),
            ]
        },
{
}

/// A paste that a process took clears the status. One of several lines that it
/// cannot take is refused and the process runs on; one that could not be
/// written is a failure of the process.
pub proof fn law_pastes_are_answered(
    s: RuntimeState,
    key: SessionKey,
    identity: SessionIdentity,
    error: Seq<char>,
    now: u128,
    decision: RestartDecision,
)
    ensures
        paste_answered(s, key, identity, Ok(()), now, decision).0 == (RuntimeState {
            status: None,
            ..s
        }),
        paste_answered(s, key, identity, Ok(()), now, decision).1 =~= seq![],
        ({
            let refused = paste_answered(
                s,
                key,
                identity,
                Err(PasteRefusal::MultilineUnsupported),
                now,
                decision,
            );
            &&& refused.1 =~= seq![]
            &&& refused.0.sessions == s.sessions
            &&& refused.0.status == Some(
                "paste rejected: multi-line paste requires backend bracketed-paste support"@,
            )
        }),
        !s.sessions.shutting_down && running(s.sessions, key) == Some(identity) ==> ({
            let failed = paste_answered(
                s,
                key,
                identity,
                Err(PasteRefusal::Write(error)),
                now,
                decision,
            );
            &&& running(failed.0.sessions, key) is None
            &&& failed.0.status == Some("paste failed; backend will restart"@)
            &&& failed.1 =~= seq![
                EffectView::Session(SessionEffect::Terminate(key)),
                EffectView::Session(SessionEffect::Cleanup(key)),
            ]
        }),
{
}

/// What failed is named in the message.
pub proof fn law_failures_are_named(error: Seq<char>)
    ensures
        operation_text(BackendOperation::Resize, error) == "backend resize error: "@ + error,
        operation_text(BackendOperation::Input, error) == "backend input error: "@ + error,
        operation_text(BackendOperation::Mouse, error) == "backend mouse error: "@ + error,
        operation_text(BackendOperation::Paste, error) == "backend paste error: "@ + error,
        operation_text(BackendOperation::Poll, error) == "backend error: "@ + error,
{
}

/// At the start every process is started once, numbered from one, in its place
/// and its size: the editor first, then the agent, then the shell.
pub proof fn law_processes_are_started_at_first(facts: LaunchFacts, now: u128)
    ensures
        ({
            let effects = launched(LaunchMode::Workbench, facts, now).1;
            let sessions = launched(LaunchMode::Workbench, facts, now).0.sessions;
            let place = |i: int|
                if i == 0 {
                    (SessionKey::Pane(PaneId::Editor), facts.sizes.editor)
                } else if i == 1 {
                    (SessionKey::Pane(PaneId::Agent), facts.sizes.agent)
                } else {
                    (SessionKey::Shell(ShellTabId(1)), facts.sizes.shell)
                };
            &&& effects.len() == 3
            &&& forall|i: int|
                0 <= i < 3 ==> #[trigger] effects[i] == EffectView::Session(
                    SessionEffect::Spawn {
                        key: place(i).0,
                        identity: SessionIdentity { id: (i + 1) as u64, generation: 1 },
                        size: place(i).1,
                    },
                )
            &&& !sessions.shutting_down
            &&& sessions.shell == Some(facts.shell@)
            &&& sessions.next_id == 4
        }),
{
    let places = workbench_places(facts.shell@, facts.sizes);
    let two = places.drop_last();
    let one = two.drop_last();
    let none = one.drop_last();
    assert(none =~= Seq::<SourceView>::empty());
    reveal_with_fuel(crate::sessions::places_made, 5);
    reveal_with_fuel(crate::sessions::all_spawned, 5);
    assert(one.last() == places[0]);
    assert(two.last() == places[1]);
    assert(places.last() == places[2]);
}

/// The workbench has an editor, an agent and one shell, each in its pane and in
/// the size of the pane; another mode has the one program that it names.
pub proof fn law_first_processes(shell: Seq<char>, sizes: PaneSizes)
    ensures
        ({
            let places = workbench_places(shell, sizes);
            &&& places.len() == 3
            &&& places[0].key == SessionKey::Pane(PaneId::Editor)
            &&& places[0].kind == (ProcessKind::ManagedNvim { ready: false })
            &&& places[0].name == "nvim"@
            &&& places[0].size == sizes.editor
            &&& places[1].key == SessionKey::Pane(PaneId::Agent)
            &&& places[1].kind == ProcessKind::NativePi
            &&& places[1].name == "pi"@
            &&& places[1].size == sizes.agent
            &&& places[2].key == SessionKey::Shell(ShellTabId(1))
            &&& places[2].kind == ProcessKind::Static
            &&& places[2].name == shell
            &&& places[2].size == sizes.shell
        }),
        single_kind(LaunchMode::Nvim) == (ProcessKind::ManagedNvim { ready: false }),
        single_kind(LaunchMode::Pi) == ProcessKind::NativePi,
        single_kind(LaunchMode::Shell) == ProcessKind::Static,
        single_name(LaunchMode::Nvim, shell) == "nvim"@,
        single_name(LaunchMode::Pi, shell) == "pi"@,
        single_name(LaunchMode::Shell, shell) == shell,
{
}

} // verus!
