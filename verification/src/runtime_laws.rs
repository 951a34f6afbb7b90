//! What holds of the program whatever the user does.

use vstd::prelude::*;
use vstd::string::*;

use crate::context_menu::{menu_action, sidebar_items};
use crate::input::{KeyEvent, MouseButton, MouseEvent, MouseEventKind};
use crate::runtime_replies::{event_taken, heeds_trust, launched, Event, LaunchFacts};
use crate::runtime_state::{
    agent_restarted, gesture_canceled, is_in_tab_row, is_waiting, key_forwarded, key_of,
    key_pressed, layout_changed, left_dragged, left_pressed, left_released, menu_clicked,
    modals_closed, motion_forwarded, mouse_used, operation_finished, quiet, restart_key,
    right_pressed, selection_cleared, session_effects, sidebar_activated, sidebar_clicked,
    sidebar_menu_opened, stopped, tab_closing, tab_row_clicked, tree_row, tree_row_selected,
    trust_chrome, trust_persisted, trust_refreshed, wheel_turned, with_status, ContextView,
    EffectView, MouseFacts, RuntimeState,
};
use crate::sessions::{editor_takes_files, restarted, retried, running, shut_down, SessionKey};
use crate::sidebar_laws::law_selection_moves_no_rows;
use crate::state::{all_rows, spelled_rows, SidebarState};
use crate::trust::{trust_target, WorkspaceTrustState};
use crate::workbench::{
    row_activated, selects_in, LaunchMode, LayoutDivider, MouseTarget, PaneId, ShellTabId,
    ShellTabTarget, WorkbenchLayout, SIDEBAR_DOUBLE_CLICK_INTERVAL,
};

verus! {

/// While the user waits for a file operation, the mouse does nothing.
pub proof fn law_waiting_ignores_the_mouse(
    s: RuntimeState,
    event: MouseEvent,
    facts: MouseFacts,
    now: u128,
)
    requires
        is_waiting(s),
    ensures
        mouse_used(s, event, facts, now) == quiet(s),
{
}

/// While the user waits for a file operation, a key changes neither the name
/// that was entered nor the question that was asked, and asks for nothing.
pub proof fn law_waiting_ignores_keys(s: RuntimeState, key: KeyEvent)
    requires
        is_waiting(s),
        s.sidebar_edit is None || s.sidebar_delete is None,
    ensures
        key_pressed(s, key) == quiet(gesture_canceled(RuntimeState { pending_mouse: None, ..s })),
{
}

/// Once a file operation has ended, the user no longer waits for it.
pub proof fn law_waiting_ends(s: RuntimeState, result: Result<(), Seq<char>>)
    ensures
        !is_waiting(operation_finished(s, result)),
        result is Err ==> operation_finished(s, result).status == Some(result->Err_0),
{
}

/// Whether an effect is about tabs and their selection alone.
pub open spec fn is_about_tabs(effect: EffectView) -> bool {
    effect is ResetScrollback || effect is SelectTab || effect is CloseTab || effect is OpenTab
}

/// Nothing that the mouse does in the row of tabs reaches a process, the
/// clipboard or the layout.
pub proof fn law_tab_row_is_chrome(
    s: RuntimeState,
    layout: WorkbenchLayout,
    event: MouseEvent,
    facts: MouseFacts,
    now: u128,
)
    requires
        s.layout == Some(layout),
        s.context_menu is None,
        is_in_tab_row(layout, event),
    ensures
        forall|i: int|
            0 <= i < mouse_used(s, event, facts, now).1.len() ==> is_about_tabs(
                #[trigger] mouse_used(s, event, facts, now).1[i],
            ),
        mouse_used(s, event, facts, now).0.layout_config == s.layout_config || event.kind
            == MouseEventKind::Down(MouseButton::Right),
{
}

/// Whether a program has been stopped: nothing runs, and nothing will.
pub open spec fn is_stopped(s: RuntimeState) -> bool {
    &&& s.sessions.shutting_down
    &&& forall|key: SessionKey| running(s.sessions, key) is None
}

/// Whether an effect reaches a process or starts one.
pub open spec fn is_for_process(effect: EffectView) -> bool {
    ||| effect is Session
    ||| effect is SendKey
    ||| effect is SendMouse
    ||| effect is SendPaste
    ||| effect is BeginSelection
    ||| effect is OpenFile
}

/// No effect in the list reaches a process.
pub open spec fn spares_processes(effects: Seq<EffectView>) -> bool {
    forall|i: int| 0 <= i < effects.len() ==> !is_for_process(#[trigger] effects[i])
}

/// Stopping ends everything that runs.
pub proof fn law_stopping_ends_everything(s: RuntimeState)
    ensures
        is_stopped(stopped(s)),
{
    assert forall|key: SessionKey| running(stopped(s).sessions, key) is None by {
        let slots = s.sessions.slots;
        if slots.contains_key(key) {
            assert(shut_down(s.sessions).slots.contains_key(key));
            assert(shut_down(s.sessions).slots[key].state is Paused);
        } else {
            assert(!shut_down(s.sessions).slots.contains_key(key));
        }
    }
}

proof fn lemma_concat_spares(first: Seq<EffectView>, second: Seq<EffectView>)
    requires
        spares_processes(first),
        spares_processes(second),
    ensures
        spares_processes(first + second),
{
    assert forall|i: int| 0 <= i < (first + second).len() implies !is_for_process(
        #[trigger] (first + second)[i],
    ) by {
        if i < first.len() {
            assert((first + second)[i] == first[i]);
        } else {
            assert((first + second)[i] == second[i - first.len()]);
        }
    }
}

proof fn lemma_stopped_sidebar(s: RuntimeState)
    requires
        is_stopped(s),
    ensures
        is_stopped(sidebar_activated(s).0),
        spares_processes(sidebar_activated(s).1),
{
    assert(running(s.sessions, SessionKey::Pane(PaneId::Editor)) is None);
}

proof fn lemma_stopped_key(s: RuntimeState, key: KeyEvent)
    requires
        is_stopped(s),
    ensures
        is_stopped(key_pressed(s, key).0),
        spares_processes(key_pressed(s, key).1),
{
    let t = gesture_canceled(RuntimeState { pending_mouse: None, ..s });
    let cleared = selection_cleared(t).0;
    lemma_stopped_sidebar(RuntimeState { last_sidebar_click: None, ..cleared });
    let sidebar = sidebar_activated(RuntimeState { last_sidebar_click: None, ..cleared });
    lemma_concat_spares(selection_cleared(t).1, sidebar.1);
    let forwarded = key_forwarded(cleared);
    assert(forwarded.1 =~= seq![]);
    lemma_concat_spares(selection_cleared(t).1, forwarded.1);
}

proof fn lemma_stopped_release(s: RuntimeState, event: MouseEvent, facts: MouseFacts, now: u128)
    requires
        is_stopped(s),
    ensures
        is_stopped(left_released(s, event, facts, now).0),
        spares_processes(left_released(s, event, facts, now).1),
{
    if s.pending_layout is None && s.pending_mouse is Some && !s.pending_mouse->0.dragging {
        let pending = s.pending_mouse->0;
        let t = RuntimeState { pending_mouse: None, ..s };
        match pending.target {
            MouseTarget::Sidebar { .. } => {
                if let Some(row) = row_activated(pending, event) {
                    let selected = tree_row_selected(t, row as nat).0;
                    lemma_stopped_sidebar(RuntimeState { last_sidebar_click: None, ..selected });
                }
            },
            MouseTarget::Content { pane, row, col } => {
                let key = key_of(t.workbench, pane);
                assert(running(t.sessions, key) is None);
                assert(session_effects(retried(t.sessions, key).1) =~= seq![]);
            },
            _ => {},
        }
    }
}

proof fn lemma_stopped_press(
    s: RuntimeState,
    event: MouseEvent,
    facts: MouseFacts,
    layout: WorkbenchLayout,
    now: u128,
)
    requires
        is_stopped(s),
    ensures
        is_stopped(left_pressed(s, event, facts.target, layout, now).0),
        spares_processes(left_pressed(s, event, facts.target, layout, now).1),
        is_stopped(tab_row_clicked(s, event, facts.tab).0),
        spares_processes(tab_row_clicked(s, event, facts.tab).1),
        is_stopped(left_dragged(s, event, facts).0),
        spares_processes(left_dragged(s, event, facts).1),
{
}

proof fn lemma_stopped_rest(s: RuntimeState, event: MouseEvent, facts: MouseFacts)
    requires
        is_stopped(s),
    ensures
        is_stopped(right_pressed(s, event, facts.target)),
        is_stopped(wheel_turned(s, event, facts).0),
        spares_processes(wheel_turned(s, event, facts).1),
        spares_processes(motion_forwarded(s, event, facts.target)),
{
}

proof fn lemma_stopped_menu(s: RuntimeState, context: ContextView, event: MouseEvent)
    requires
        is_stopped(s),
    ensures
        is_stopped(menu_clicked(s, context, event).0),
        spares_processes(menu_clicked(s, context, event).1),
{
}

proof fn lemma_stopped_mouse(s: RuntimeState, event: MouseEvent, facts: MouseFacts, now: u128)
    requires
        is_stopped(s),
    ensures
        is_stopped(mouse_used(s, event, facts, now).0),
        spares_processes(mouse_used(s, event, facts, now).1),
{
    if s.layout is Some {
        let t = modals_closed(s);
        lemma_stopped_release(t, event, facts, now);
        lemma_stopped_press(t, event, facts, s.layout->0, now);
        lemma_stopped_rest(t, event, facts);
        if t.context_menu is Some {
            lemma_stopped_menu(t, t.context_menu->0, event);
        }
    }
}

/// A program that was stopped stays so, whatever the user does: no process is
/// started or hears of anything.
pub proof fn law_stopped_program_does_nothing(s: RuntimeState, event: Event, now: u128)
    requires
        is_stopped(s),
    ensures
        is_stopped(event_taken(s, event, now).0),
        spares_processes(event_taken(s, event, now).1),
{
    match event {
        Event::Key(key) => lemma_stopped_key(s, key),
        Event::Mouse(event, facts) => lemma_stopped_mouse(s, event, facts, now),
        _ => {},
    }
}

/// In a workspace that is not trusted, no click on the sidebar's menu chooses
/// anything.
pub proof fn law_untrusted_menu_is_disabled(
    s: RuntimeState,
    row: u16,
    event: MouseEvent,
    column: u16,
    line: u16,
)
    requires
        s.trust_state != WorkspaceTrustState::Trusted,
        s.context_menu is None,
    ensures
        sidebar_menu_opened(s, row, event).context_menu is Some ==> menu_action(
            sidebar_menu_opened(s, row, event).context_menu->0.menu,
            column,
            line,
        ) is None,
{
    let items = sidebar_items(false, false);
    assert(forall|i: int| 0 <= i < items.len() ==> !(#[trigger] items[i]).enabled);
}

/// A border that is dragged, event by event.
pub open spec fn dragged(s: RuntimeState, events: Seq<(MouseEvent, MouseFacts)>) -> RuntimeState
    decreases events.len(),
{
    if events.len() == 0 {
        s
    } else {
        let before = dragged(s, events.drop_last());
        left_dragged(before, events.last().0, events.last().1).0
    }
}

proof fn lemma_drag_keeps_snapshot(
    s: RuntimeState,
    events: Seq<(MouseEvent, MouseFacts)>,
)
    requires
        s.pending_layout is Some,
        s.pending_layout->0 is Drag,
    ensures
        dragged(s, events).pending_layout == s.pending_layout,
        dragged(s, events) == (RuntimeState {
            layout_config: dragged(s, events).layout_config,
            ..s
        }),
    decreases events.len(),
{
    if events.len() > 0 {
        lemma_drag_keeps_snapshot(s, events.drop_last());
    }
}

/// A drag of a border that is given up leaves the layout's numbers as they were
/// before it, however far it went.
pub proof fn law_canceled_drag_restores_the_layout(
    s: RuntimeState,
    event: MouseEvent,
    divider: LayoutDivider,
    layout: WorkbenchLayout,
    now: u128,
    events: Seq<(MouseEvent, MouseFacts)>,
)
    requires
        s.pending_layout is None,
    ensures
        ({
            let pressed = left_pressed(
                s,
                event,
                Some(MouseTarget::Divider(divider)),
                layout,
                now,
            ).0;
            gesture_canceled(dragged(pressed, events)).layout_config == s.layout_config
        }),
{
    let pressed = left_pressed(s, event, Some(MouseTarget::Divider(divider)), layout, now).0;
    lemma_drag_keeps_snapshot(pressed, events);
}

/// The layout is saved only when a button is released.
pub proof fn law_layout_is_saved_on_release(
    s: RuntimeState,
    event: MouseEvent,
    facts: MouseFacts,
    now: u128,
    i: int,
)
    requires
        event.kind != MouseEventKind::Up(MouseButton::Left),
        0 <= i < mouse_used(s, event, facts, now).1.len(),
    ensures
        !(mouse_used(s, event, facts, now).1[i] is SaveLayout),
{
    assert forall|r, key: SessionKey, k: int|
        0 <= k < session_effects((#[trigger] retried(r, key)).1).len() implies !((
    #[trigger] session_effects(retried(r, key).1)[k]) is SaveLayout) by {
    }
}

/// Where trust cannot be read there is none, nothing is confirmed any more, and
/// an agent that was trusted is started anew.
pub proof fn law_unknown_trust_is_no_trust(s: RuntimeState, error: Seq<char>)
    requires
        s.trust_store,
    ensures
        ({
            let (after, effects) = trust_refreshed(s, Err(error));
            &&& after.trust_state == WorkspaceTrustState::Untrusted
            &&& !after.trust_confirming
            &&& s.trust_state == WorkspaceTrustState::Trusted && restart_key(s.launch_mode) is Some
                ==> effects == session_effects(
                restarted(s.sessions, restart_key(s.launch_mode)->0).1,
            )
        }),
{
}

/// Once trust was written the agent is started anew, even where it is not known
/// what was written. A failed write leaves everything but the status.
pub proof fn law_written_trust_restarts_the_agent(
    s: RuntimeState,
    key: SessionKey,
    resolved: Result<WorkspaceTrustState, Seq<char>>,
    error: Seq<char>,
)
    requires
        restart_key(s.launch_mode) == Some(key),
    ensures
        trust_persisted(s, Ok(()), resolved).0.sessions == restarted(s.sessions, key).0,
        trust_persisted(s, Ok(()), resolved).1 == session_effects(restarted(s.sessions, key).1),
        !trust_persisted(s, Ok(()), resolved).0.trust_confirming,
        resolved is Err ==> trust_persisted(s, Ok(()), resolved).0.trust_state
            == WorkspaceTrustState::Untrusted,
        trust_persisted(s, Err(error), resolved) == quiet(
            with_status(s, "failed to save workspace trust: "@ + error),
        ),
{
}

/// A change of trust touches no place but the agent's.
pub proof fn law_only_the_agent_restarts(s: RuntimeState, key: SessionKey)
    requires
        restart_key(s.launch_mode) != Some(key),
    ensures
        agent_restarted(s).0.sessions.slots.contains_key(key)
            == s.sessions.slots.contains_key(key),
        s.sessions.slots.contains_key(key) ==> agent_restarted(s).0.sessions.slots[key]
            == s.sessions.slots[key],
{
}

/// A file is handed to the editor at most once, and only while it runs and can
/// open files. Otherwise the status says so, and nothing is kept for later.
pub proof fn law_files_are_opened_at_most_once(s: RuntimeState)
    ensures
        sidebar_activated(s).1.len() <= 1,
        sidebar_activated(s).1.len() == 1 ==> sidebar_activated(s).1[0] is OpenFile
            && editor_takes_files(s.sessions),
        sidebar_activated(s).0.sessions == s.sessions,
{
}

/// Clicking a row of the sidebar twice, and not too slowly, activates it as it
/// was before the first click.
pub proof fn law_second_click_activates(s: RuntimeState, row: nat, first: u128, second: u128)
    requires
        trust_target(trust_chrome(s), row) is None,
        tree_row_selected(s, row).1 is Some,
        s.last_sidebar_click is None,
        second <= first + SIDEBAR_DOUBLE_CLICK_INTERVAL,
    ensures
        ({
            let clicked = sidebar_clicked(s, row, first).0;
            &&& sidebar_clicked(s, row, first).1 =~= seq![]
            &&& sidebar_clicked(clicked, row, second) == sidebar_activated(
                tree_row_selected(s, row).0,
            )
        }),
{
    let (after, selected) = tree_row_selected(s, row);
    let path = selected->0;
    let sidebar = s.sidebar->0;
    law_selection_moves_no_rows(sidebar, Some(path.path));
    let clicked = sidebar_clicked(s, row, first).0;
    assert(clicked.sidebar == after.sidebar);
    let rows = all_rows(sidebar);
    let moved = all_rows(SidebarState { selected: Some(path.path), ..sidebar });
    let at = (sidebar.scroll + tree_row(s, row)) as int;
    assert(spelled_rows(rows).len() == rows.len());
    assert(spelled_rows(moved).len() == moved.len());
    assert(spelled_rows(rows)[at] == path);
    assert(spelled_rows(moved)[at] == path);
    assert(moved[at].path == path.path && moved[at].text == path.text);
    assert(tree_row_selected(clicked, row) == (clicked, Some(path)));
}

/// The selection in a tab is given up before the tab goes or another is shown.
pub proof fn law_selection_ends_before_its_tab(s: RuntimeState, event: MouseEvent, id: ShellTabId)
    requires
        selects_in(s.workbench, PaneId::Bottom),
        running(s.sessions, SessionKey::Shell(s.workbench.active_shell)) is Some,
        event.kind == MouseEventKind::Down(MouseButton::Left),
    ensures
        ({
            let shown = SessionKey::Shell(s.workbench.active_shell);
            let (after, effects) = tab_closing(s, s.workbench.active_shell);
            &&& effects == seq![
                EffectView::ResetScrollback(shown),
                EffectView::CloseTab(s.workbench.active_shell),
            ]
            &&& after.workbench.selection is None
        }),
        id != s.workbench.active_shell ==> ({
            let shown = SessionKey::Shell(s.workbench.active_shell);
            let (after, effects) = tab_row_clicked(s, event, Some(ShellTabTarget::Body(id)));
            &&& effects == seq![EffectView::ResetScrollback(shown), EffectView::SelectTab(id)]
            &&& after.workbench.selection is None
        }),
{
    let shown = SessionKey::Shell(s.workbench.active_shell);
    assert(key_of(s.workbench, PaneId::Bottom) == shown);
    assert(tab_closing(s, s.workbench.active_shell).1 =~= seq![
        EffectView::ResetScrollback(shown),
        EffectView::CloseTab(s.workbench.active_shell),
    ]);
    if id != s.workbench.active_shell {
        assert(tab_row_clicked(s, event, Some(ShellTabTarget::Body(id))).1 =~= seq![
            EffectView::ResetScrollback(shown),
            EffectView::SelectTab(id),
        ]);
    }
}

/// A program that is started without knowing its trust has none, and says why.
pub proof fn law_launch_without_trust(mode: LaunchMode, facts: LaunchFacts, now: u128)
    requires
        !(facts.trust is Resolved),
    ensures
        launched(mode, facts, now).0.trust_state == WorkspaceTrustState::Untrusted,
        heeds_trust(mode) ==> launched(mode, facts, now).0.status is Some
            && launched(mode, facts, now).0.status
            == launched(mode, facts, now).0.trust_status_message,
{
}

/// Another layout ends gestures and menus over the old one. The same layout
/// leaves everything as it is.
pub proof fn law_relayout_ends_gestures(s: RuntimeState, layout: WorkbenchLayout, clear: bool)
    ensures
        layout_changed(s, layout, clear).0.layout == Some(layout),
        s.layout == Some(layout) ==> layout_changed(s, layout, clear) == quiet(s),
        s.layout != Some(layout) ==> layout_changed(s, layout, clear).0.pending_mouse is None
            && layout_changed(s, layout, clear).0.context_menu is None,
        s.layout != Some(layout) && clear ==> layout_changed(
            s,
            layout,
            clear,
        ).0.workbench.selection is None,
        !clear ==> layout_changed(s, layout, clear).0.workbench.selection == s.workbench.selection,
{
}

} // verus!
