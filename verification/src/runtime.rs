//! The running program: how it takes keys, the mouse, pastes and news, and what
//! it asks to be done.

use vstd::prelude::*;
use vstd::string::*;

use crate::context_menu::{render_context_menu, ContextMenu, ContextMenuAction};
use crate::geometry::Rect;
use crate::input::{
    character_of, context_menu_key_action, is_quit, is_system_paste, mouse_at,
    should_copy_selection, ContextMenuKeyAction, KeyCode, KeyEvent, MouseButton, MouseEvent,
    MouseEventKind,
};
use crate::jobs::{
    are_valid_responses, responses_view, signals_view, unit_result, Job, Response,
    SidebarActivation, SidebarMutation, WatchSignal,
};
use crate::path::{option_spelled, Part, PathBuf};
use crate::runtime_replies::{
    backend_failed, copy_answered, ends_program, event_taken, first_places, knows_place, launched,
    paste_answered, paste_result, refresh_asked, sidebar_news, spawn_answered, tab_opened, Event,
    LaunchFacts, LayoutLoad, TrustLoad,
};
use crate::runtime_state::{
    action_begun, agent_restarted, begins_with, capability_changed, click_finished,
    clipboard_answered, clipboard_pasted, context_option, creation_parent, delete_key,
    delete_option, edit_key, edit_state_option, edit_submitted, effects_view, ends, file_opened,
    gesture_canceled, has_left, input_pane, key_forwarded, key_of, key_pressed, known_kind,
    layout_changed, layout_gesture_finished, layout_saved, layout_saving, left_dragged,
    left_pressed, left_released, may_change, may_create, menu_clicked, menu_key_pressed,
    menu_target, modals_closed, motion_forwarded, mouse_used, operation_finished,
    operation_requested, paste_received, plain_key, pointer_used, press_dragged, resize_finished,
    resize_plan, restart_key, right_pressed, room_made, selection_begun, selection_cleared,
    selection_copied, selection_dragged, selection_end, selection_moved, selection_start,
    selection_ticked, session_effects, sidebar_activated, sidebar_clicked, sidebar_menu_opened,
    sidebar_scrolled, size_of, still_confirming, stopped, tab_closed, tab_closing, tab_row_clicked,
    terminal_clicked, terminal_menu_opened, terminals_resized, text_pasted, tree_row,
    tree_row_selected, trust_changing, trust_chrome, trust_clicked, trust_persisted,
    trust_refreshed, trust_status_cleared, trust_status_set, viewport_changed, visible_tree_rows,
    wheel_turned, with_status, ContextMenuState, Effect, EffectView, MouseFacts, RuntimeState,
    SidebarDeleteState, SidebarEditState, EDGE_SCROLL_INTERVAL, MOUSE_WHEEL_LINES,
    TRUST_REFRESH_INTERVAL,
};
use crate::runtime_view::{
    frame_view, pane_if_large, pane_shown, panes_shown, panes_view, screen_option, screen_shown,
    sidebar_shown, workbench_shown, MenuPlan, PaneBody, PanePlan, ScreenPlan,
};
use crate::sessions::{
    fits_after, has_generations, is_awaited, is_due_order, is_slot_order, operation_failure,
    operation_text, reports_taken, reports_view, round_polled, running, shutdown_effects,
    single_source, sources_view, workbench_sources, BackendOperation, DeliveryView,
    FileOpenDelivery, PaneSizes, PasteFailure, PollReport, RestartDecision, SessionEffect,
    SessionIdentity, SessionKey, SessionRegistry, SlotSource, SpawnOutcome,
};
use crate::sidebar::Sidebar;
use crate::sidebar_view::{
    render_sidebar, SidebarEditKind, SidebarEditView, SidebarFrame, SidebarStyle, SidebarView,
};
use crate::state::{default_config, is_valid, is_walk, responses_applied, ticked, SidebarState};
use crate::text::{join2, join3, lossy_string, text_view, utf8_string};
use crate::title::{session_title_with_handle, unavailable_pane_status};
use crate::tree::{rows_view, EntryKind, SidebarRow};
use crate::trust::{
    sidebar_trust_hit, sidebar_trust_rows, SidebarTrustChrome, SidebarTrustTarget,
    WorkspaceTrustState,
};
use crate::workbench::{
    activated_layout_handle, activated_sidebar_row, canceled_layout_config, click_view,
    context_menu_copy_enabled, edge_scroll_direction, is_sidebar_double_click, layout_drag_config,
    pointer_content_position, render_layout_controls, sidebar_tree_viewport_rows, LaunchMode,
    MouseTarget, PaneId, PaneMinimums, PendingLayoutGesture, PendingMouseGesture, Selection,
    ShellTabId, ShellTabTarget, TerminalPoint, TerminalSize, WorkbenchLayout, WorkbenchLayoutConfig,
    WorkbenchState,
};

verus! {

/// The running program.
pub struct AppRuntime {
    pub(crate) launch_mode: LaunchMode,
    pub(crate) workbench: WorkbenchState,
    pub(crate) layout_config: WorkbenchLayoutConfig,
    pub(crate) layout: Option<WorkbenchLayout>,
    pub(crate) sessions: SessionRegistry,
    pub(crate) sidebar: Option<Sidebar>,
    pub(crate) sidebar_error: Option<String>,
    pub(crate) status: Option<String>,
    pub(crate) viewport_area: Rect,
    pub(crate) pending_mouse: Option<PendingMouseGesture>,
    pub(crate) last_sidebar_click: Option<(PathBuf, u128)>,
    pub(crate) pending_layout: Option<PendingLayoutGesture>,
    pub(crate) context_menu: Option<ContextMenuState>,
    pub(crate) sidebar_edit: Option<SidebarEditState>,
    pub(crate) sidebar_delete: Option<SidebarDeleteState>,
    pub(crate) layout_store: bool,
    pub(crate) trust_store: bool,
    pub(crate) trust_state: WorkspaceTrustState,
    pub(crate) trust_confirming: bool,
    pub(crate) trust_status_message: Option<String>,
    pub(crate) next_trust_refresh: u128,
}

/// The sidebar in an option.
pub open spec fn sidebar_option(sidebar: Option<Sidebar>) -> Option<SidebarState> {
    match sidebar {
        Some(sidebar) => Some(sidebar@),
        None => None,
    }
}

impl View for AppRuntime {
    type V = RuntimeState;

    closed spec fn view(&self) -> RuntimeState {
        RuntimeState {
            launch_mode: self.launch_mode,
            workbench: self.workbench,
            layout_config: self.layout_config,
            layout: self.layout,
            sessions: self.sessions@,
            sidebar: sidebar_option(self.sidebar),
            sidebar_error: text_view(self.sidebar_error),
            status: text_view(self.status),
            viewport_area: self.viewport_area,
            pending_mouse: self.pending_mouse,
            last_sidebar_click: click_view(self.last_sidebar_click),
            pending_layout: self.pending_layout,
            context_menu: context_option(self.context_menu),
            sidebar_edit: edit_state_option(self.sidebar_edit),
            sidebar_delete: delete_option(self.sidebar_delete),
            layout_store: self.layout_store,
            trust_store: self.trust_store,
            trust_state: self.trust_state,
            trust_confirming: self.trust_confirming,
            trust_status_message: text_view(self.trust_status_message),
            next_trust_refresh: self.next_trust_refresh,
        }
    }
}

/// Appends an effect to a list.
pub(crate) fn push_effect(effects: &mut Vec<Effect>, effect: Effect)
    ensures
        effects_view(final(effects)@) == effects_view(old(effects)@).push(effect@),
{
    let ghost before = effects@;
    effects.push(effect);
    assert(effects_view(effects@) =~= effects_view(before).push(effect@));
}

/// Appends effects to a list.
pub(crate) fn append_effects(effects: &mut Vec<Effect>, more: Vec<Effect>)
    ensures
        effects_view(final(effects)@) == effects_view(old(effects)@) + effects_view(more@),
{
    let ghost before = effects@;
    let mut more = more;
    let ghost tail = more@;
    effects.append(&mut more);
    assert(effects_view(effects@) =~= effects_view(before) + effects_view(tail));
}

/// No effects.
pub(crate) fn no_effects() -> (effects: Vec<Effect>)
    ensures
        effects_view(effects@) == Seq::<EffectView>::empty(),
{
    let effects: Vec<Effect> = Vec::new();
    assert(effects_view(effects@) =~= Seq::<EffectView>::empty());
    effects
}

/// One effect.
pub(crate) fn one_effect(effect: Effect) -> (effects: Vec<Effect>)
    ensures
        effects_view(effects@) == seq![effect@],
{
    let mut effects = no_effects();
    push_effect(&mut effects, effect);
    assert(effects_view(effects@) =~= seq![effect@]);
    effects
}

/// What is done with processes, as effects.
pub(crate) fn from_session_effects(more: Vec<SessionEffect>) -> (effects: Vec<Effect>)
    ensures
        effects_view(effects@) == session_effects(more@),
{
    let mut effects = no_effects();
    let mut i: usize = 0;
    assert(session_effects(more@).take(0) =~= Seq::<EffectView>::empty());
    while i < more.len()
        invariant
            i <= more@.len(),
            effects_view(effects@) == session_effects(more@).take(i as int),
        decreases more@.len() - i,
    {
        push_effect(&mut effects, Effect::Session(more[i]));
        assert(session_effects(more@).take(i + 1) =~= session_effects(more@).take(i as int).push(
            session_effects(more@)[i as int],
        ));
        i += 1;
    }
    assert(session_effects(more@).take(i as int) =~= session_effects(more@));
    effects
}

/// Where the process of a pane runs.
pub fn session_key(workbench: &WorkbenchState, pane: PaneId) -> (key: SessionKey)
    ensures
        key == key_of(*workbench, pane),
{
    if pane == PaneId::Bottom {
        SessionKey::Shell(workbench.active_shell)
    } else {
        SessionKey::Pane(pane)
    }
}

fn size_for(sizes: PaneSizes, pane: PaneId) -> (size: TerminalSize)
    ensures
        size == size_of(sizes, pane),
{
    match pane {
        PaneId::Agent => sizes.agent,
        PaneId::Bottom => sizes.shell,
        _ => sizes.editor,
    }
}

fn left_cell(event: MouseEvent, origin: MouseEvent) -> (left: bool)
    ensures
        left == has_left(event, origin),
{
    event.column != origin.column || event.row != origin.row
}

impl AppRuntime {
    /// What holds of the program at all times.
    pub closed spec fn wf(&self) -> bool {
        &&& self.sessions.wf()
        &&& self.sidebar is Some ==> self.sidebar->0.wf()
        &&& self.layout is Some <==> self.launch_mode.is_workbench()
        &&& self.sidebar is Some ==> self.launch_mode.is_workbench()
    }

    /// Whatever the program was told, only the workbench has panes and a
    /// sidebar, and the sidebar is in a valid state.
    pub proof fn law_panes_belong_to_the_workbench(&self)
        requires
            self.wf(),
        ensures
            self@.layout is Some <==> self@.launch_mode.is_workbench(),
            self@.sidebar is Some ==> self@.launch_mode.is_workbench() && is_valid(
                self@.sidebar->0,
            ),
    {
        if self.sidebar is Some {
            self.sidebar->0.law_sidebar_is_valid();
        }
    }

    pub(crate) fn set_status(&mut self, message: String)
        requires
            old(self).wf(),
        ensures
            final(self).wf(),
            final(self)@ == with_status(old(self)@, message@),
    {
        self.status = Some(message);
    }

    /// The trust lines at the top of the sidebar.
    pub fn sidebar_trust_chrome(&self) -> (chrome: SidebarTrustChrome)
        ensures
            chrome == trust_chrome(self@),
    {
        SidebarTrustChrome { state: self.trust_state, confirming: self.trust_confirming }
    }

    fn tree_viewport(&self) -> (rows: usize)
        ensures
            rows == visible_tree_rows(self@),
    {
        match self.layout {
            Some(layout) => sidebar_tree_viewport_rows(
                layout.sidebar,
                self.sidebar_trust_chrome(),
            ),
            None => 0,
        }
    }

    pub(crate) fn cancel_layout_gesture(&mut self)
        requires
            old(self).wf(),
        ensures
            final(self).wf(),
            final(self)@ == gesture_canceled(old(self)@),
    {
        if let Some(config) = canceled_layout_config(&mut self.pending_layout) {
            self.layout_config = config;
        }
    }

    pub(crate) fn clear_selection(&mut self) -> (effects: Vec<Effect>)
        requires
            old(self).wf(),
        ensures
            final(self).wf(),
            (final(self)@, effects_view(effects@)) == selection_cleared(old(self)@),
    {
        let mut effects = no_effects();
        if let Some(selection) = self.workbench.selection {
            let key = session_key(&self.workbench, selection.pane);
            if self.sessions.get(key).is_some() {
                effects = one_effect(Effect::ResetScrollback(key));
            }
        }
        self.workbench.selection = None;
        effects
    }

    fn copy_selection(&mut self) -> (effects: Vec<Effect>)
        requires
            old(self).wf(),
        ensures
            final(self).wf(),
            (final(self)@, effects_view(effects@)) == selection_copied(old(self)@),
    {
        let selection = match self.workbench.selection {
            Some(selection) => selection,
            None => return no_effects(),
        };
        let key = session_key(&self.workbench, selection.pane);
        if self.sessions.get(key).is_some() {
            one_effect(Effect::CopySelection { key, selection })
        } else {
            self.set_status("selected pane is unavailable".to_owned());
            no_effects()
        }
    }

    fn paste_system_clipboard(&mut self) -> (effects: Vec<Effect>)
        requires
            old(self).wf(),
        ensures
            final(self).wf(),
            (final(self)@, effects_view(effects@)) == clipboard_pasted(old(self)@),
    {
        let mut effects = self.clear_selection();
        let ghost first = effects_view(effects@);
        push_effect(&mut effects, Effect::ReadClipboard);
        assert(effects_view(effects@) =~= first + seq![EffectView::ReadClipboard]);
        effects
    }

    fn focused_input(&self) -> (pane: PaneId)
        ensures
            pane == input_pane(self@),
    {
        if self.launch_mode.is_workbench() {
            self.workbench.focused
        } else {
            PaneId::Editor
        }
    }

    fn paste_into_focused(&mut self, contents: String) -> (effects: Vec<Effect>)
        requires
            old(self).wf(),
        ensures
            final(self).wf(),
            (final(self)@, effects_view(effects@)) == text_pasted(old(self)@, contents@),
    {
        let key = session_key(&self.workbench, self.focused_input());
        match self.sessions.get(key) {
            Some(identity) => one_effect(Effect::SendPaste { key, identity, contents }),
            None => {
                self.set_status("focused pane does not accept paste".to_owned());
                no_effects()
            },
        }
    }

    /// Takes what the clipboard held.
    pub fn clipboard_read(&mut self, contents: Result<String, String>) -> (effects: Vec<Effect>)
        requires
            old(self).wf(),
        ensures
            final(self).wf(),
            (final(self)@, effects_view(effects@)) == clipboard_answered(
                old(self)@,
                match contents {
                    Ok(contents) => Ok(contents@),
                    Err(error) => Err(error@),
                },
            ),
    {
        match contents {
            Ok(contents) => self.paste_into_focused(contents),
            Err(error) => {
                self.set_status(join2("clipboard error: ", error.as_str()));
                no_effects()
            },
        }
    }

    /// Takes what became of a request to open a file.
    pub fn apply_sidebar_open_result(&mut self, delivery: FileOpenDelivery)
        requires
            old(self).wf(),
        ensures
            final(self).wf(),
            final(self)@ == file_opened(old(self)@, delivery@),
    {
        apply_sidebar_open_result(&mut self.workbench, &mut self.status, delivery);
    }

    pub(crate) fn activate_sidebar_selection(&mut self) -> (effects: Vec<Effect>)
        requires
            old(self).wf(),
        ensures
            final(self).wf(),
            (final(self)@, effects_view(effects@)) == sidebar_activated(old(self)@),
    {
        let activation = match &mut self.sidebar {
            Some(sidebar) => sidebar.activate_selected(),
            None => None,
        };
        match activation {
            Some(SidebarActivation::OpenFile(path)) => {
                if self.sessions.editor_opens_files() {
                    one_effect(Effect::OpenFile(path))
                } else {
                    self.apply_sidebar_open_result(
                        FileOpenDelivery::Unavailable,
                    );
                    no_effects()
                }
            },
            _ => no_effects(),
        }
    }

    fn request_operation(&mut self, mutation: SidebarMutation) -> (answer: Result<(), String>)
        requires
            old(self).wf(),
        ensures
            final(self).wf(),
            (final(self)@, crate::jobs::unit_result(answer)) == operation_requested(
                old(self)@,
                mutation@,
            ),
    {
        match &mut self.sidebar {
            Some(sidebar) => sidebar.request_mutation(mutation),
            None => Err("sidebar is unavailable".to_owned()),
        }
    }

    fn submit_sidebar_edit(&mut self)
        requires
            old(self).wf(),
        ensures
            final(self).wf(),
            final(self)@ == edit_submitted(old(self)@),
    {
        let mutation = match &self.sidebar_edit {
            Some(edit) => match edit.kind {
                SidebarEditKind::NewFile => SidebarMutation::CreateFile {
                    parent: edit.target.duplicate(),
                    name: edit.value.clone(),
                },
                SidebarEditKind::NewFolder => SidebarMutation::CreateDirectory {
                    parent: edit.target.duplicate(),
                    name: edit.value.clone(),
                },
                SidebarEditKind::Rename => SidebarMutation::Rename {
                    source: edit.target.duplicate(),
                    name: edit.value.clone(),
                },
            },
            None => return,
        };
        match self.request_operation(mutation) {
            Ok(()) => {
                if let Some(edit) = &mut self.sidebar_edit {
                    edit.pending = true;
                    edit.error = None;
                }
                self.set_status("sidebar file operation pending".to_owned());
            },
            Err(error) => {
                if let Some(edit) = &mut self.sidebar_edit {
                    edit.error = Some(error.clone());
                }
                self.set_status(error);
            },
        }
    }

    fn handle_sidebar_edit_key(&mut self, key: KeyEvent)
        requires
            old(self).wf(),
        ensures
            final(self).wf(),
            final(self)@ == edit_key(old(self)@, key),
    {
        match &self.sidebar_edit {
            Some(edit) => {
                if edit.pending {
                    return;
                }
            },
            None => return,
        }
        match key.code {
            KeyCode::Esc => {
                self.sidebar_edit = None;
                self.status = None;
            },
            KeyCode::Enter => {
                self.submit_sidebar_edit();
            },
            KeyCode::Backspace => {
                if let Some(edit) = &mut self.sidebar_edit {
                    edit.value.pop();
                    edit.error = None;
                }
                self.status = None;
            },
            _ => {
                if let Some(character) = character_of(key) {
                    if let Some(edit) = &mut self.sidebar_edit {
                        edit.value.push(character);
                        edit.error = None;
                    }
                    self.status = None;
                }
            },
        }
    }

    fn handle_sidebar_delete_key(&mut self, key: KeyEvent)
        requires
            old(self).wf(),
        ensures
            final(self).wf(),
            final(self)@ == delete_key(old(self)@, key),
    {
        let target = match &self.sidebar_delete {
            Some(delete) => {
                if delete.pending {
                    return;
                }
                delete.target.duplicate()
            },
            None => return,
        };
        match key.code {
            KeyCode::Esc => {
                self.sidebar_delete = None;
                self.status = None;
            },
            KeyCode::Enter => {
                let text = lossy_string(&target.to_bytes());
                match self.request_operation(SidebarMutation::Trash { target }) {
                    Ok(()) => {
                        if let Some(delete) = &mut self.sidebar_delete {
                            delete.pending = true;
                        }
                        self.set_status(join3("moving ", text.as_str(), " to trash..."));
                    },
                    Err(error) => self.set_status(error),
                }
            },
            _ => {},
        }
    }

    fn press_menu_key(&mut self, key: KeyEvent) -> (effects: Vec<Effect>)
        requires
            old(self).wf(),
            old(self)@.context_menu is Some,
        ensures
            final(self).wf(),
            (final(self)@, effects_view(effects@)) == menu_key_pressed(
                old(self)@,
                old(self)@.context_menu->0,
                key,
            ),
    {
        let context = match self.context_menu.take() {
            Some(context) => context,
            None => return no_effects(),
        };
        if context.sidebar_target.is_some() {
            return no_effects();
        }
        let copy_enabled = context_menu_copy_enabled(&self.workbench, context.pane);
        match context_menu_key_action(key, copy_enabled) {
            ContextMenuKeyAction::Copy => self.copy_selection(),
            ContextMenuKeyAction::Paste => self.paste_system_clipboard(),
            ContextMenuKeyAction::Dismiss => no_effects(),
        }
    }

    fn retry_session(&mut self, key: SessionKey) -> (effects: Vec<Effect>)
        requires
            old(self).wf(),
            has_generations(old(self)@.sessions),
        ensures
            final(self).wf(),
            final(self)@ == (RuntimeState {
                sessions: crate::sessions::retried(old(self)@.sessions, key).0,
                ..old(self)@
            }),
            effects_view(effects@) == session_effects(
                crate::sessions::retried(old(self)@.sessions, key).1,
            ),
    {
        let effects = self.sessions.retry(key);
        from_session_effects(effects)
    }

    fn forward_key(&mut self) -> (effects: Vec<Effect>)
        requires
            old(self).wf(),
            has_generations(old(self)@.sessions),
        ensures
            final(self).wf(),
            (final(self)@, effects_view(effects@)) == key_forwarded(old(self)@),
    {
        let key = session_key(&self.workbench, self.focused_input());
        match self.sessions.get(key) {
            Some(identity) => one_effect(Effect::SendKey { key, identity }),
            None => self.retry_session(key),
        }
    }

    fn press_plain_key(&mut self, key: KeyEvent) -> (effects: Vec<Effect>)
        requires
            old(self).wf(),
            has_generations(old(self)@.sessions),
        ensures
            final(self).wf(),
            (final(self)@, effects_view(effects@)) == plain_key(old(self)@, key),
    {
        let mut effects = self.clear_selection();
        let more = if self.focused_input() == PaneId::Sidebar && key.code == KeyCode::Enter {
            self.last_sidebar_click = None;
            self.activate_sidebar_selection()
        } else {
            self.forward_key()
        };
        append_effects(&mut effects, more);
        effects
    }

    /// Takes a key that does not end the program.
    pub fn handle_key(&mut self, key: KeyEvent) -> (effects: Vec<Effect>)
        requires
            old(self).wf(),
            !ends(key),
            has_generations(old(self)@.sessions),
        ensures
            final(self).wf(),
            (final(self)@, effects_view(effects@)) == key_pressed(old(self)@, key),
    {
        self.pending_mouse = None;
        self.cancel_layout_gesture();
        if self.sidebar_delete.is_some() {
            self.handle_sidebar_delete_key(key);
            return no_effects();
        }
        if self.sidebar_edit.is_some() {
            self.handle_sidebar_edit_key(key);
            return no_effects();
        }
        if self.context_menu.is_some() {
            return self.press_menu_key(key);
        }
        if should_copy_selection(key, self.workbench.selection.is_some()) {
            return self.copy_selection();
        }
        if is_system_paste(key) {
            return self.paste_system_clipboard();
        }
        self.press_plain_key(key)
    }

    /// Stops everything. Returns what is to be done with the processes.
    pub fn shutdown(&mut self) -> (effects: Vec<SessionEffect>)
        requires
            old(self).wf(),
        ensures
            final(self).wf(),
            final(self)@ == stopped(old(self)@),
            exists|order: Seq<SessionKey>| #[trigger]
                is_slot_order(old(self)@.sessions, order) && effects@ == shutdown_effects(
                    old(self)@.sessions,
                    order,
                ),
    {
        self.pending_mouse = None;
        self.cancel_layout_gesture();
        self.context_menu = None;
        self.sessions.shutdown()
    }

    /// Takes a text that the terminal pasted.
    pub fn handle_paste(&mut self, contents: String) -> (effects: Vec<Effect>)
        requires
            old(self).wf(),
        ensures
            final(self).wf(),
            (final(self)@, effects_view(effects@)) == paste_received(old(self)@, contents@),
    {
        if let Some(edit) = &mut self.sidebar_edit {
            if !edit.pending {
                edit.value.append(contents.as_str());
                edit.error = None;
            }
            return no_effects();
        }
        self.pending_mouse = None;
        self.cancel_layout_gesture();
        self.context_menu = None;
        let mut effects = self.clear_selection();
        let more = self.paste_into_focused(contents);
        append_effects(&mut effects, more);
        effects
    }
}

impl AppRuntime {
    /// The kind of a path that the sidebar knows.
    fn kind_of(&self, path: &PathBuf) -> (kind: Option<EntryKind>)
        requires
            self.wf(),
        ensures
            kind == known_kind(self@, path@),
    {
        match &self.sidebar {
            Some(sidebar) => sidebar.entry_kind(path),
            None => None,
        }
    }

    fn parent_for_creation(&self, target: &PathBuf) -> (parent: Option<PathBuf>)
        requires
            self.wf(),
        ensures
            option_spelled(parent) == creation_parent(self@, target.spelled()),
    {
        match self.kind_of(target) {
            Some(kind) => if kind.is_directory() {
                Some(target.duplicate())
            } else {
                target.parent()
            },
            None => target.parent(),
        }
    }

    fn make_room(&mut self, parent: &PathBuf)
        requires
            old(self).wf(),
        ensures
            final(self).wf(),
            final(self)@ == room_made(old(self)@, parent.spelled()),
    {
        let viewport_rows = self.tree_viewport();
        if let Some(sidebar) = &mut self.sidebar {
            sidebar.request_expand(parent);
            sidebar.ensure_path_visible_with_trailing(parent, viewport_rows, 1);
        }
    }

    fn begin_sidebar_action(&mut self, context: ContextMenuState, action: ContextMenuAction)
        requires
            old(self).wf(),
        ensures
            final(self).wf(),
            final(self)@ == action_begun(old(self)@, context@, action),
    {
        let ContextMenuState { sidebar_target, direct_target, .. } = context;
        let target = match sidebar_target {
            Some(target) => target,
            None => return,
        };
        match action {
            ContextMenuAction::NewFile | ContextMenuAction::NewFolder => {
                let parent = match self.parent_for_creation(&target) {
                    Some(parent) => parent,
                    None => return,
                };
                self.make_room(&parent);
                self.status = None;
                let value = String::new();
                assert(value@ =~= Seq::<char>::empty());
                self.sidebar_edit = Some(
                    SidebarEditState {
                        kind: if action == ContextMenuAction::NewFolder {
                            SidebarEditKind::NewFolder
                        } else {
                            SidebarEditKind::NewFile
                        },
                        target: parent,
                        value,
                        error: None,
                        pending: false,
                    },
                );
            },
            ContextMenuAction::Rename => {
                if !direct_target {
                    return;
                }
                let name = match target.file_name() {
                    Some(name) => utf8_string(name),
                    None => None,
                };
                match name {
                    Some(name) => {
                        self.status = None;
                        self.sidebar_edit = Some(
                            SidebarEditState {
                                kind: SidebarEditKind::Rename,
                                target,
                                value: name,
                                error: None,
                                pending: false,
                            },
                        );
                    },
                    None => self.set_status(
                        "non-UTF-8 names cannot be renamed in the sidebar".to_owned(),
                    ),
                }
            },
            ContextMenuAction::Delete => {
                if !direct_target {
                    return;
                }
                self.set_status(
                    join3(
                        "move ",
                        lossy_string(&target.to_bytes()).as_str(),
                        " to trash? Enter confirm, Esc cancel",
                    ),
                );
                self.sidebar_delete = Some(SidebarDeleteState { target, pending: false });
            },
            _ => {},
        }
    }

    fn click_menu(&mut self, event: MouseEvent) -> (effects: Vec<Effect>)
        requires
            old(self).wf(),
            old(self)@.context_menu is Some,
        ensures
            final(self).wf(),
            (final(self)@, effects_view(effects@)) == menu_clicked(
                old(self)@,
                old(self)@.context_menu->0,
                event,
            ),
    {
        let context = match self.context_menu.take() {
            Some(context) => context,
            None => return no_effects(),
        };
        match context.menu.action_at(event.column, event.row) {
            Some(ContextMenuAction::Copy) => self.copy_selection(),
            Some(ContextMenuAction::Paste) => {
                self.workbench.focus_pane(context.pane);
                self.paste_system_clipboard()
            },
            Some(action) => {
                self.begin_sidebar_action(context, action);
                no_effects()
            },
            None => no_effects(),
        }
    }

    fn select_tree_row(&mut self, row: usize) -> (path: Option<PathBuf>)
        requires
            old(self).wf(),
        ensures
            final(self).wf(),
            (final(self)@, option_spelled(path)) == tree_row_selected(old(self)@, row as nat),
    {
        let viewport_rows = self.tree_viewport();
        let trust = self.sidebar_trust_chrome();
        let tree_row = row.saturating_sub(sidebar_trust_rows(trust));
        match &mut self.sidebar {
            Some(sidebar) => sidebar.select_visible_row(tree_row, viewport_rows),
            None => None,
        }
    }

    /// What a menu of the sidebar is about.
    fn target_of_menu(&self, selected: &Option<PathBuf>) -> (target: PathBuf)
        requires
            self.wf(),
        ensures
            target.spelled() == menu_target(self@, option_spelled(*selected)),
    {
        match selected {
            Some(path) => path.duplicate(),
            None => match &self.sidebar {
                Some(sidebar) => match sidebar.selected_path() {
                    Some(path) => path.duplicate(),
                    None => sidebar.root().duplicate(),
                },
                None => PathBuf::empty(),
            },
        }
    }

    fn open_terminal_menu(&mut self, pane: PaneId, event: MouseEvent)
        requires
            old(self).wf(),
        ensures
            final(self).wf(),
            final(self)@ == terminal_menu_opened(old(self)@, pane, event),
    {
        self.workbench.focus_pane(pane);
        let copy_enabled = context_menu_copy_enabled(&self.workbench, pane);
        self.context_menu = Some(
            ContextMenuState {
                menu: ContextMenu::new(
                    self.viewport_area,
                    event.column,
                    event.row,
                    copy_enabled,
                ),
                pane,
                sidebar_target: None,
                direct_target: false,
            },
        );
    }

    fn open_sidebar_menu(&mut self, row: u16, event: MouseEvent)
        requires
            old(self).wf(),
        ensures
            final(self).wf(),
            final(self)@ == sidebar_menu_opened(old(self)@, row, event),
    {
        self.workbench.focus_pane(PaneId::Sidebar);
        if sidebar_trust_hit(self.sidebar_trust_chrome(), row as usize).is_some() {
            return;
        }
        let selected = self.select_tree_row(row as usize);
        let direct_target = selected.is_some();
        let target = self.target_of_menu(&selected);
        let kind = self.kind_of(&target);
        let trusted = self.trust_state == WorkspaceTrustState::Trusted;
        let through_link = match kind {
            Some(EntryKind::SymlinkDirectory) => true,
            _ => false,
        };
        let deleted = match kind {
            Some(EntryKind::Deleted) => true,
            _ => false,
        };
        let below_root = match &self.sidebar {
            Some(sidebar) => !target.same(sidebar.root()),
            None => false,
        };
        let create_enabled = trusted && !through_link;
        let item_enabled = trusted && direct_target && below_root && !deleted;
        assert(create_enabled == may_create(self@, target@));
        assert(item_enabled == may_change(self@, target@, direct_target));
        self.context_menu = Some(
            ContextMenuState {
                menu: ContextMenu::sidebar(
                    self.viewport_area,
                    event.column,
                    event.row,
                    create_enabled,
                    item_enabled,
                ),
                pane: PaneId::Sidebar,
                sidebar_target: Some(target),
                direct_target,
            },
        );
    }

    fn press_right(&mut self, event: MouseEvent, target: Option<MouseTarget>)
        requires
            old(self).wf(),
        ensures
            final(self).wf(),
            final(self)@ == right_pressed(old(self)@, event, target),
    {
        self.pending_mouse = None;
        self.last_sidebar_click = None;
        self.cancel_layout_gesture();
        self.context_menu = None;
        match target {
            Some(MouseTarget::Content { pane, .. }) => self.open_terminal_menu(pane, event),
            Some(MouseTarget::Sidebar { row, .. }) => self.open_sidebar_menu(row, event),
            _ => {},
        }
    }

    /// Asks for a tab to be closed. What is selected in it is given up first.
    pub fn close_shell_tab(&mut self, id: ShellTabId) -> (effects: Vec<Effect>)
        requires
            old(self).wf(),
        ensures
            final(self).wf(),
            (final(self)@, effects_view(effects@)) == tab_closing(old(self)@, id),
    {
        let mut effects = if self.workbench.active_shell == id && context_menu_copy_enabled(
            &self.workbench,
            PaneId::Bottom,
        ) {
            self.clear_selection()
        } else {
            no_effects()
        };
        let ghost first = effects_view(effects@);
        push_effect(&mut effects, Effect::CloseTab(id));
        assert(effects_view(effects@) =~= first + seq![EffectView::CloseTab(id)]);
        effects
    }

    fn click_tab_row(&mut self, event: MouseEvent, tab: Option<ShellTabTarget>) -> (effects: Vec<
        Effect,
    >)
        requires
            old(self).wf(),
        ensures
            final(self).wf(),
            (final(self)@, effects_view(effects@)) == tab_row_clicked(old(self)@, event, tab),
    {
        self.pending_mouse = None;
        if event.kind != MouseEventKind::Down(MouseButton::Left) {
            return no_effects();
        }
        self.workbench.focus_pane(PaneId::Bottom);
        match tab {
            Some(ShellTabTarget::Body(id)) => {
                if self.workbench.active_shell == id {
                    return no_effects();
                }
                let mut effects = self.clear_selection();
                let ghost first = effects_view(effects@);
                self.workbench.active_shell = id;
                push_effect(&mut effects, Effect::SelectTab(id));
                assert(effects_view(effects@) =~= first + seq![EffectView::SelectTab(id)]);
                effects
            },
            Some(ShellTabTarget::Close(id)) => self.close_shell_tab(id),
            Some(ShellTabTarget::Plus) => one_effect(Effect::OpenTab),
            None => no_effects(),
        }
    }

    fn press_left(
        &mut self,
        event: MouseEvent,
        target: Option<MouseTarget>,
        layout: WorkbenchLayout,
        now: u128,
    ) -> (effects: Vec<Effect>)
        requires
            old(self).wf(),
            now + EDGE_SCROLL_INTERVAL <= u128::MAX,
        ensures
            final(self).wf(),
            (final(self)@, effects_view(effects@)) == left_pressed(
                old(self)@,
                event,
                target,
                layout,
                now,
            ),
    {
        self.cancel_layout_gesture();
        let target = match target {
            Some(target) => target,
            None => return no_effects(),
        };
        let on_sidebar = match target {
            MouseTarget::Sidebar { .. } => true,
            _ => false,
        };
        if !on_sidebar {
            self.last_sidebar_click = None;
        }
        match target {
            MouseTarget::Handle(handle) => {
                self.pending_mouse = None;
                self.pending_layout = Some(
                    PendingLayoutGesture::Handle { handle, origin: event, moved: false },
                );
                no_effects()
            },
            MouseTarget::Divider(divider) => {
                self.pending_mouse = None;
                self.pending_layout = Some(
                    PendingLayoutGesture::Drag {
                        divider,
                        origin: event,
                        layout,
                        config: self.layout_config,
                    },
                );
                no_effects()
            },
            _ => {
                let effects = self.clear_selection();
                if let Some(pane) = target.pane() {
                    self.workbench.focus_pane(pane);
                }
                self.pending_mouse = Some(
                    PendingMouseGesture {
                        target,
                        down: event,
                        current: event,
                        dragging: false,
                        moved: false,
                        next_edge_scroll: now + EDGE_SCROLL_INTERVAL,
                    },
                );
                effects
            },
        }
    }

    fn end_of_selection(&self, pane: PaneId, event: MouseEvent, sizes: PaneSizes) -> (effects: Vec<
        Effect,
    >)
        requires
            self.wf(),
        ensures
            effects_view(effects@) == selection_end(self@, pane, event, sizes),
    {
        let layout = match self.layout {
            Some(layout) => layout,
            None => return no_effects(),
        };
        match pointer_content_position(layout, pane, event, size_for(sizes, pane)) {
            Some((row, col)) => {
                let key = session_key(&self.workbench, pane);
                if self.sessions.get(key).is_some() {
                    one_effect(Effect::MoveSelection { key, row, col })
                } else {
                    no_effects()
                }
            },
            None => no_effects(),
        }
    }

    fn update_mouse_selection(&self, event: MouseEvent, sizes: PaneSizes) -> (effects: Vec<Effect>)
        requires
            self.wf(),
        ensures
            effects_view(effects@) == selection_dragged(self@, event, sizes),
    {
        match self.workbench.selection {
            Some(selection) => self.end_of_selection(selection.pane, event, sizes),
            None => no_effects(),
        }
    }

    fn begin_mouse_selection(&self, target: MouseTarget) -> (effect: Option<Effect>)
        requires
            self.wf(),
        ensures
            (match effect {
                Some(effect) => Some(effect@),
                None => None,
            }) == selection_start(self@, target),
    {
        match target {
            MouseTarget::Content { pane, row, col } => {
                let key = session_key(&self.workbench, pane);
                if self.sessions.get(key).is_some() {
                    Some(Effect::BeginSelection { key, row, col })
                } else {
                    None
                }
            },
            _ => None,
        }
    }

    fn drag_press(&mut self, pending: PendingMouseGesture, event: MouseEvent, sizes: PaneSizes) -> (
        effects: Vec<Effect>)
        requires
            old(self).wf(),
        ensures
            final(self).wf(),
            (final(self)@, effects_view(effects@)) == press_dragged(
                old(self)@,
                pending,
                event,
                sizes,
            ),
    {
        let mut after = pending;
        after.moved = pending.moved || left_cell(event, pending.down);
        after.current = event;
        let start = if pending.dragging {
            None
        } else {
            self.begin_mouse_selection(pending.target)
        };
        match start {
            Some(begin) => {
                let mut effects = one_effect(begin);
                let more = self.end_of_selection(self.workbench.focused, event, sizes);
                append_effects(&mut effects, more);
                self.status = None;
                after.dragging = true;
                self.pending_mouse = Some(after);
                effects
            },
            None => {
                let effects = if pending.dragging {
                    self.update_mouse_selection(event, sizes)
                } else {
                    no_effects()
                };
                self.pending_mouse = Some(after);
                effects
            },
        }
    }

    fn drag_left(&mut self, event: MouseEvent, facts: MouseFacts) -> (effects: Vec<Effect>)
        requires
            old(self).wf(),
        ensures
            final(self).wf(),
            (final(self)@, effects_view(effects@)) == left_dragged(old(self)@, event, facts),
    {
        match self.pending_layout {
            Some(PendingLayoutGesture::Handle { handle, origin, moved }) => {
                self.pending_layout = Some(
                    PendingLayoutGesture::Handle {
                        handle,
                        origin,
                        moved: moved || left_cell(event, origin),
                    },
                );
                no_effects()
            },
            Some(PendingLayoutGesture::Drag { divider, origin, layout, config }) => {
                self.layout_config = layout_drag_config(
                    divider,
                    origin,
                    event,
                    layout,
                    config,
                    facts.minimums,
                );
                one_effect(Effect::Relayout)
            },
            None => match self.pending_mouse {
                Some(pending) => self.drag_press(pending, event, facts.sizes),
                None => no_effects(),
            },
        }
    }

    fn save_layout_intent(&self) -> (effects: Vec<Effect>)
        ensures
            effects_view(effects@) == layout_saving(self@),
    {
        if self.layout_store {
            one_effect(Effect::SaveLayout)
        } else {
            no_effects()
        }
    }

    fn persist_trust_change(&mut self, trust: bool) -> (effects: Vec<Effect>)
        requires
            old(self).wf(),
        ensures
            final(self).wf(),
            (final(self)@, effects_view(effects@)) == trust_changing(old(self)@, trust),
    {
        if self.trust_store {
            one_effect(Effect::PersistTrust(trust))
        } else {
            self.set_status("workspace trust persistence is unavailable".to_owned());
            no_effects()
        }
    }

    fn activate_trust_target(&mut self, target: SidebarTrustTarget) -> (effects: Vec<Effect>)
        requires
            old(self).wf(),
        ensures
            final(self).wf(),
            (final(self)@, effects_view(effects@)) == trust_clicked(old(self)@, target),
    {
        match target {
            SidebarTrustTarget::Review => {
                self.trust_confirming = true;
                no_effects()
            },
            SidebarTrustTarget::Cancel => {
                self.trust_confirming = false;
                no_effects()
            },
            SidebarTrustTarget::Chrome => no_effects(),
            SidebarTrustTarget::ConfirmTrust => self.persist_trust_change(true),
            SidebarTrustTarget::Revoke => self.persist_trust_change(false),
        }
    }

    fn click_sidebar(&mut self, row: usize, now: u128) -> (effects: Vec<Effect>)
        requires
            old(self).wf(),
        ensures
            final(self).wf(),
            (final(self)@, effects_view(effects@)) == sidebar_clicked(
                old(self)@,
                row as nat,
                now,
            ),
    {
        if let Some(target) = sidebar_trust_hit(self.sidebar_trust_chrome(), row) {
            self.last_sidebar_click = None;
            return self.activate_trust_target(target);
        }
        match self.select_tree_row(row) {
            Some(path) => {
                if is_sidebar_double_click(&self.last_sidebar_click, &path, now) {
                    self.last_sidebar_click = None;
                    self.activate_sidebar_selection()
                } else {
                    self.last_sidebar_click = Some((path, now));
                    no_effects()
                }
            },
            None => {
                self.last_sidebar_click = None;
                no_effects()
            },
        }
    }

    fn click_terminal(
        &mut self,
        pane: PaneId,
        row: u16,
        col: u16,
        down: MouseEvent,
        release: MouseEvent,
        sizes: PaneSizes,
    ) -> (effects: Vec<Effect>)
        requires
            old(self).wf(),
            has_generations(old(self)@.sessions),
        ensures
            final(self).wf(),
            (final(self)@, effects_view(effects@)) == terminal_clicked(
                old(self)@,
                pane,
                row,
                col,
                down,
                release,
                sizes,
            ),
    {
        let key = session_key(&self.workbench, pane);
        let identity = match self.sessions.get(key) {
            Some(identity) => identity,
            None => return self.retry_session(key),
        };
        let cell = match self.layout {
            Some(layout) => pointer_content_position(layout, pane, release, size_for(sizes, pane)),
            None => None,
        };
        let (release_row, release_col): (u16, u16) = match cell {
            Some(cell) => cell,
            None => (row, col),
        };
        let mut effects = one_effect(
            Effect::SendMouse { key, identity, event: mouse_at(down, row, col) },
        );
        push_effect(
            &mut effects,
            Effect::SendMouse {
                key,
                identity,
                event: mouse_at(release, release_row, release_col),
            },
        );
        proof {
            let expected = terminal_clicked(self@, pane, row, col, down, release, sizes).1;
            assert(effects_view(effects@) =~= expected);
        }
        effects
    }

    fn finish_mouse_click(
        &mut self,
        pending: PendingMouseGesture,
        release: MouseEvent,
        sizes: PaneSizes,
        now: u128,
    ) -> (effects: Vec<Effect>)
        requires
            old(self).wf(),
            has_generations(old(self)@.sessions),
        ensures
            final(self).wf(),
            (final(self)@, effects_view(effects@)) == click_finished(
                old(self)@,
                pending,
                release,
                sizes,
                now,
            ),
    {
        match pending.target {
            MouseTarget::Sidebar { .. } => match activated_sidebar_row(pending, release) {
                Some(row) => self.click_sidebar(row, now),
                None => no_effects(),
            },
            MouseTarget::Content { pane, row, col } => self.click_terminal(
                pane,
                row,
                col,
                pending.down,
                release,
                sizes,
            ),
            _ => no_effects(),
        }
    }

    fn finish_layout_gesture(
        &mut self,
        gesture: PendingLayoutGesture,
        target: Option<MouseTarget>,
    ) -> (effects: Vec<Effect>)
        requires
            old(self).wf(),
        ensures
            final(self).wf(),
            (final(self)@, effects_view(effects@)) == layout_gesture_finished(
                old(self)@,
                gesture,
                target,
            ),
    {
        self.pending_layout = None;
        match gesture {
            PendingLayoutGesture::Handle { .. } => {
                match activated_layout_handle(gesture, target) {
                    Some(handle) => {
                        let mut effects = one_effect(Effect::Toggle(handle));
                        push_effect(&mut effects, Effect::Relayout);
                        assert(effects_view(effects@) =~= seq![
                            EffectView::Toggle(handle),
                            EffectView::Relayout,
                        ]);
                        let more = self.save_layout_intent();
                        append_effects(&mut effects, more);
                        effects
                    },
                    None => no_effects(),
                }
            },
            PendingLayoutGesture::Drag { .. } => self.save_layout_intent(),
        }
    }

    fn release_left(&mut self, event: MouseEvent, facts: MouseFacts, now: u128) -> (effects: Vec<
        Effect,
    >)
        requires
            old(self).wf(),
            has_generations(old(self)@.sessions),
        ensures
            final(self).wf(),
            (final(self)@, effects_view(effects@)) == left_released(
                old(self)@,
                event,
                facts,
                now,
            ),
    {
        if let Some(gesture) = self.pending_layout {
            return self.finish_layout_gesture(gesture, facts.target);
        }
        let pending = match self.pending_mouse {
            Some(pending) => pending,
            None => return no_effects(),
        };
        self.pending_mouse = None;
        if pending.dragging {
            self.update_mouse_selection(event, facts.sizes)
        } else {
            self.finish_mouse_click(pending, event, facts.sizes, now)
        }
    }

    fn scroll_sidebar(&mut self, direction: i32)
        requires
            old(self).wf(),
            -1 <= direction <= 1,
        ensures
            final(self).wf(),
            (final(self)@, Seq::<EffectView>::empty()) == sidebar_scrolled(old(self)@, direction),
    {
        let viewport_rows = self.tree_viewport();
        let delta: isize = -(direction as isize * MOUSE_WHEEL_LINES as isize);
        if let Some(sidebar) = &mut self.sidebar {
            sidebar.scroll(delta, viewport_rows);
        }
    }

    fn route_mouse_wheel(&mut self, event: MouseEvent, facts: MouseFacts) -> (effects: Vec<Effect>)
        requires
            old(self).wf(),
        ensures
            final(self).wf(),
            (final(self)@, effects_view(effects@)) == wheel_turned(old(self)@, event, facts),
    {
        let direction: i32 = match event.kind {
            MouseEventKind::ScrollUp => 1,
            MouseEventKind::ScrollDown => -1,
            _ => 0,
        };
        match facts.target {
            Some(MouseTarget::Sidebar { .. }) => {
                self.scroll_sidebar(direction);
                no_effects()
            },
            Some(MouseTarget::Border(PaneId::Sidebar)) => {
                self.scroll_sidebar(direction);
                no_effects()
            },
            Some(MouseTarget::Content { pane, row, col }) => {
                let key = session_key(&self.workbench, pane);
                let identity = match self.sessions.get(key) {
                    Some(identity) => identity,
                    None => return no_effects(),
                };
                let owns_wheel = context_menu_copy_enabled(&self.workbench, pane);
                if direction != 0 && (owns_wheel || !facts.mouse_reporting) {
                    one_effect(
                        Effect::ScrollViewport { key, lines: direction * MOUSE_WHEEL_LINES },
                    )
                } else if facts.mouse_reporting {
                    one_effect(
                        Effect::SendMouse { key, identity, event: mouse_at(event, row, col) },
                    )
                } else {
                    no_effects()
                }
            },
            _ => no_effects(),
        }
    }

    fn forward_mouse_motion(&self, event: MouseEvent, target: Option<MouseTarget>) -> (effects: Vec<
        Effect,
    >)
        requires
            self.wf(),
        ensures
            effects_view(effects@) == motion_forwarded(self@, event, target),
    {
        match target {
            Some(MouseTarget::Content { pane, row, col }) => {
                let key = session_key(&self.workbench, pane);
                match self.sessions.get(key) {
                    Some(identity) => one_effect(
                        Effect::SendMouse { key, identity, event: mouse_at(event, row, col) },
                    ),
                    None => no_effects(),
                }
            },
            _ => no_effects(),
        }
    }

    fn use_pointer(
        &mut self,
        layout: WorkbenchLayout,
        event: MouseEvent,
        facts: MouseFacts,
        now: u128,
    ) -> (effects: Vec<Effect>)
        requires
            old(self).wf(),
            has_generations(old(self)@.sessions),
            now + EDGE_SCROLL_INTERVAL <= u128::MAX,
        ensures
            final(self).wf(),
            (final(self)@, effects_view(effects@)) == pointer_used(
                old(self)@,
                layout,
                event,
                facts,
                now,
            ),
    {
        if event.kind == MouseEventKind::Down(MouseButton::Right) {
            self.press_right(event, facts.target);
            return no_effects();
        }
        if layout.bottom.height > 0 && event.row == layout.bottom.y.saturating_add(1)
            && event.column > layout.bottom.x && event.column
            < layout.bottom.right().saturating_sub(1) {
            return self.click_tab_row(event, facts.tab);
        }
        match event.kind {
            MouseEventKind::Down(MouseButton::Left) => self.press_left(
                event,
                facts.target,
                layout,
                now,
            ),
            MouseEventKind::Drag(MouseButton::Left) => self.drag_left(event, facts),
            MouseEventKind::Up(MouseButton::Left) => self.release_left(event, facts, now),
            MouseEventKind::Moved => self.forward_mouse_motion(event, facts.target),
            MouseEventKind::ScrollUp => self.route_mouse_wheel(event, facts),
            MouseEventKind::ScrollDown => self.route_mouse_wheel(event, facts),
            MouseEventKind::ScrollLeft => self.route_mouse_wheel(event, facts),
            MouseEventKind::ScrollRight => self.route_mouse_wheel(event, facts),
            _ => no_effects(),
        }
    }

    /// Takes what the mouse did.
    pub fn handle_mouse_event(&mut self, event: MouseEvent, facts: MouseFacts, now: u128) -> (
        effects: Vec<Effect>)
        requires
            old(self).wf(),
            has_generations(old(self)@.sessions),
            now + EDGE_SCROLL_INTERVAL <= u128::MAX,
        ensures
            final(self).wf(),
            (final(self)@, effects_view(effects@)) == mouse_used(old(self)@, event, facts, now),
    {
        let layout = match self.layout {
            Some(layout) => layout,
            None => return no_effects(),
        };
        let mut clear_modal_status = false;
        if let Some(edit) = &self.sidebar_edit {
            if edit.pending {
                return no_effects();
            }
            if edit.error.is_some() {
                clear_modal_status = true;
            }
        }
        if let Some(delete) = &self.sidebar_delete {
            if delete.pending {
                return no_effects();
            }
            clear_modal_status = true;
        }
        self.sidebar_edit = None;
        self.sidebar_delete = None;
        if clear_modal_status {
            self.status = None;
        }
        assert(self@ == modals_closed(old(self)@));
        if self.context_menu.is_some() {
            if event.kind == MouseEventKind::Moved {
                if let Some(context) = &mut self.context_menu {
                    context.menu.update_hover(event.column, event.row);
                }
                return no_effects();
            }
            if event.kind == MouseEventKind::Down(MouseButton::Left) {
                return self.click_menu(event);
            }
            if event.kind != MouseEventKind::Down(MouseButton::Right) {
                return no_effects();
            }
        }
        self.use_pointer(layout, event, facts, now)
    }
}

/// Whether the program goes on after an event.
pub enum Handled {
    Continue(Vec<Effect>),
    /// The program ends, and this is to be done with its processes.
    Quit(Vec<SessionEffect>),
}

impl AppRuntime {
    /// Takes an event.
    pub fn handle_event(&mut self, event: Event, now: u128) -> (handled: Handled)
        requires
            old(self).wf(),
            has_generations(old(self)@.sessions),
            now + EDGE_SCROLL_INTERVAL <= u128::MAX,
        ensures
            final(self).wf(),
            match handled {
                Handled::Continue(effects) => !ends_program(event) && (
                    final(self)@,
                    effects_view(effects@),
                ) == event_taken(old(self)@, event, now),
                Handled::Quit(effects) => {
                    &&& ends_program(event)
                    &&& final(self)@ == stopped(old(self)@)
                    &&& exists|order: Seq<SessionKey>| #[trigger]
                        is_slot_order(old(self)@.sessions, order) && effects@ == shutdown_effects(
                            old(self)@.sessions,
                            order,
                        )
                },
            },
    {
        match event {
            Event::Key(key) => if is_quit(key) {
                Handled::Quit(self.shutdown())
            } else {
                Handled::Continue(self.handle_key(key))
            },
            Event::Paste(contents) => Handled::Continue(self.handle_paste(contents)),
            Event::Mouse(event, facts) => if self.launch_mode.is_workbench() {
                Handled::Continue(self.handle_mouse_event(event, facts, now))
            } else {
                Handled::Continue(no_effects())
            },
            Event::Other => Handled::Continue(no_effects()),
        }
    }

    /// Scrolls a selection that is held at the edge of its pane.
    pub fn tick_mouse_selection(&mut self, sizes: PaneSizes, now: u128) -> (effects: Vec<Effect>)
        requires
            old(self).wf(),
            now + EDGE_SCROLL_INTERVAL <= u128::MAX,
        ensures
            final(self).wf(),
            (final(self)@, effects_view(effects@)) == selection_ticked(old(self)@, sizes, now),
    {
        let mut pending = match self.pending_mouse {
            Some(pending) => pending,
            None => return no_effects(),
        };
        if !pending.dragging || now < pending.next_edge_scroll {
            return no_effects();
        }
        pending.next_edge_scroll = now + EDGE_SCROLL_INTERVAL;
        self.pending_mouse = Some(pending);
        let layout = match self.layout {
            Some(layout) => layout,
            None => return no_effects(),
        };
        let pane = match self.workbench.selection {
            Some(selection) => selection.pane,
            None => return no_effects(),
        };
        let lines: i32 = edge_scroll_direction(layout, pane, pending.current);
        if lines == 0 {
            return no_effects();
        }
        let key = session_key(&self.workbench, pane);
        if self.sessions.get(key).is_none() {
            return no_effects();
        }
        match pointer_content_position(layout, pane, pending.current, size_for(sizes, pane)) {
            Some((row, col)) => one_effect(Effect::ScrollSelection { key, lines, row, col }),
            None => no_effects(),
        }
    }

    /// A selection begins at a place in the text of the pane that has the focus.
    pub fn selection_started(&mut self, point: TerminalPoint)
        requires
            old(self).wf(),
        ensures
            final(self).wf(),
            final(self)@ == selection_begun(old(self)@, point),
    {
        self.workbench.begin_selection(point);
    }

    /// The selection ends at another place in the text.
    pub fn selection_head_moved(&mut self, point: TerminalPoint)
        requires
            old(self).wf(),
        ensures
            final(self).wf(),
            final(self)@ == selection_moved(old(self)@, point),
    {
        if let Some(selection) = &mut self.workbench.selection {
            selection.head = point;
        }
    }

    /// Takes what came of writing the clipboard.
    pub fn copy_finished(&mut self, result: Result<(), String>)
        requires
            old(self).wf(),
        ensures
            final(self).wf(),
            final(self)@ == copy_answered(old(self)@, unit_result(result)),
    {
        match result {
            Ok(()) => {
                self.status = None;
            },
            Err(error) => self.set_status(join2("clipboard error: ", error.as_str())),
        }
    }

    /// Takes a failure of what was done with a process, and what was decided
    /// about it.
    fn fail_backend(
        &mut self,
        key: SessionKey,
        identity: SessionIdentity,
        message: String,
        now: u128,
        decision: RestartDecision,
    ) -> (effects: Result<Vec<Effect>, String>)
        requires
            old(self).wf(),
            fits_after(now, Some(decision)),
        ensures
            final(self).wf(),
            match effects {
                Ok(effects) => knows_place(old(self)@, key) && (
                    final(self)@,
                    effects_view(effects@),
                ) == backend_failed(old(self)@, key, identity, message@, now, decision),
                Err(error) => !knows_place(old(self)@, key) && final(self)@ == old(self)@ && error@
                    == "lifecycle event for unknown session slot"@,
            },
    {
        match self.sessions.handle_failure(key, identity, now, message, decision) {
            Ok(effects) => Ok(from_session_effects(effects)),
            Err(error) => Err(error),
        }
    }

    /// Takes a failure of what was done with a process, and what was decided
    /// about it.
    pub fn operation_failed(
        &mut self,
        key: SessionKey,
        identity: SessionIdentity,
        operation: BackendOperation,
        error: &str,
        now: u128,
        decision: RestartDecision,
    ) -> (effects: Result<Vec<Effect>, String>)
        requires
            old(self).wf(),
            fits_after(now, Some(decision)),
        ensures
            final(self).wf(),
            match effects {
                Ok(effects) => knows_place(old(self)@, key) && (
                    final(self)@,
                    effects_view(effects@),
                ) == backend_failed(
                    old(self)@,
                    key,
                    identity,
                    operation_text(operation, error@),
                    now,
                    decision,
                ),
                Err(error) => !knows_place(old(self)@, key) && final(self)@ == old(self)@ && error@
                    == "lifecycle event for unknown session slot"@,
            },
    {
        self.fail_backend(key, identity, operation_failure(operation, error), now, decision)
    }

    /// Takes what came of handing a paste to a process.
    pub fn paste_finished(
        &mut self,
        key: SessionKey,
        identity: SessionIdentity,
        answer: Result<(), PasteFailure>,
        now: u128,
        decision: RestartDecision,
    ) -> (effects: Result<Vec<Effect>, String>)
        requires
            old(self).wf(),
            fits_after(now, Some(decision)),
        ensures
            final(self).wf(),
            ({
                let unknown = answer is Err && answer->Err_0 is Write && !knows_place(
                    old(self)@,
                    key,
                );
                match effects {
                    Ok(effects) => !unknown && (final(self)@, effects_view(effects@))
                        == paste_answered(
                        old(self)@,
                        key,
                        identity,
                        paste_result(answer),
                        now,
                        decision,
                    ),
                    Err(error) => unknown && final(self)@ == old(self)@ && error@
                        == "lifecycle event for unknown session slot"@,
                }
            }),
    {
        match answer {
            Ok(()) => {
                self.status = None;
                Ok(no_effects())
            },
            Err(PasteFailure::MultilineUnsupported) => {
                self.set_status(
                    "paste rejected: multi-line paste requires backend bracketed-paste support".to_owned(),
                );
                Ok(no_effects())
            },
            Err(PasteFailure::Write(error)) => {
                let message = operation_failure(BackendOperation::Paste, error.as_str());
                match self.fail_backend(key, identity, message, now, decision) {
                    Ok(effects) => {
                        self.set_status("paste failed; backend will restart".to_owned());
                        Ok(effects)
                    },
                    Err(error) => Err(error),
                }
            },
        }
    }

    /// Takes what came of starting a process. Returns whether the answer was
    /// awaited.
    pub fn spawn_answered(
        &mut self,
        key: SessionKey,
        identity: SessionIdentity,
        now: u128,
        outcome: SpawnOutcome,
    ) -> (awaited: bool)
        requires
            old(self).wf(),
            fits_after(now, outcome@.decision()),
        ensures
            final(self).wf(),
            final(self)@ == spawn_answered(old(self)@, key, identity, now, outcome@),
            awaited == is_awaited(old(self)@.sessions, key, identity),
    {
        self.sessions.finish_spawn(key, identity, now, outcome)
    }

    /// Whether trust is to be looked at again.
    pub fn trust_refresh_due(&mut self, now: u128) -> (due: bool)
        requires
            old(self).wf(),
            now + TRUST_REFRESH_INTERVAL <= u128::MAX,
        ensures
            final(self).wf(),
            (final(self)@, due) == refresh_asked(old(self)@, now),
    {
        if now >= self.next_trust_refresh {
            self.next_trust_refresh = now + TRUST_REFRESH_INTERVAL;
            true
        } else {
            false
        }
    }

    fn clear_trust_status(&mut self)
        requires
            old(self).wf(),
        ensures
            final(self).wf(),
            final(self)@ == trust_status_cleared(old(self)@),
    {
        let same = match (&self.status, &self.trust_status_message) {
            (Some(status), Some(message)) => *status == *message,
            (None, None) => true,
            _ => false,
        };
        if same {
            self.status = None;
        }
        self.trust_status_message = None;
    }

    fn set_trust_status(&mut self, error: &str)
        requires
            old(self).wf(),
        ensures
            final(self).wf(),
            final(self)@ == trust_status_set(old(self)@, error@),
    {
        let message = join2("workspace trust unavailable: ", error);
        self.status = Some(message.clone());
        self.trust_status_message = Some(message);
    }

    fn restart_agent(&mut self) -> (effects: Vec<Effect>)
        requires
            old(self).wf(),
            has_generations(old(self)@.sessions),
        ensures
            final(self).wf(),
            (final(self)@, effects_view(effects@)) == agent_restarted(old(self)@),
    {
        match trust_restart_key(self.launch_mode) {
            Some(key) => {
                let effects = self.sessions.restart(key);
                from_session_effects(effects)
            },
            None => no_effects(),
        }
    }

    /// Takes what came of looking at trust again.
    pub fn refresh_trust_state(&mut self, resolved: Result<WorkspaceTrustState, String>) -> (
        effects: Vec<Effect>)
        requires
            old(self).wf(),
            has_generations(old(self)@.sessions),
        ensures
            final(self).wf(),
            (final(self)@, effects_view(effects@)) == trust_refreshed(
                old(self)@,
                trust_result(resolved),
            ),
    {
        if !self.trust_store {
            self.trust_state = WorkspaceTrustState::Untrusted;
            return no_effects();
        }
        let previous = self.trust_state;
        match resolved {
            Ok(state) => {
                self.trust_state = state;
                self.trust_confirming = trust_confirmation_after_refresh(
                    self.trust_confirming,
                    previous,
                    state,
                    false,
                );
                self.clear_trust_status();
            },
            Err(error) => {
                self.trust_state = WorkspaceTrustState::Untrusted;
                self.trust_confirming = trust_confirmation_after_refresh(
                    self.trust_confirming,
                    previous,
                    WorkspaceTrustState::Untrusted,
                    true,
                );
                self.set_trust_status(error.as_str());
            },
        }
        if trust_capability_changed(previous, self.trust_state) {
            self.restart_agent()
        } else {
            no_effects()
        }
    }

    /// Takes what came of giving or taking trust, and of asking for it then.
    pub fn trust_written(
        &mut self,
        written: Result<(), String>,
        resolved: Result<WorkspaceTrustState, String>,
    ) -> (effects: Vec<Effect>)
        requires
            old(self).wf(),
            has_generations(old(self)@.sessions),
        ensures
            final(self).wf(),
            (final(self)@, effects_view(effects@)) == trust_persisted(
                old(self)@,
                unit_result(written),
                trust_result(resolved),
            ),
    {
        if let Err(error) = written {
            self.set_status(join2("failed to save workspace trust: ", error.as_str()));
            return no_effects();
        }
        self.trust_confirming = false;
        match resolved {
            Ok(state) => {
                self.trust_state = state;
                self.clear_trust_status();
                self.status = None;
            },
            Err(error) => {
                self.trust_state = WorkspaceTrustState::Untrusted;
                self.set_trust_status(error.as_str());
            },
        }
        self.restart_agent()
    }

    fn finish_operation(&mut self, result: Result<(), String>)
        requires
            old(self).wf(),
        ensures
            final(self).wf(),
            final(self)@ == operation_finished(old(self)@, unit_result(result)),
    {
        match result {
            Ok(()) => {
                self.sidebar_edit = None;
                self.sidebar_delete = None;
                self.status = None;
            },
            Err(error) => {
                if let Some(edit) = &mut self.sidebar_edit {
                    edit.pending = false;
                    edit.error = Some(error.clone());
                }
                self.sidebar_delete = None;
                self.set_status(error);
            },
        }
    }

    /// Lets the sidebar take in what its worker and the watcher told, and tells
    /// of a file operation that has ended.
    pub fn tick_sidebar(
        &mut self,
        now: u128,
        responses: Vec<Response>,
        signals: Vec<WatchSignal>,
    )
        requires
            old(self).wf(),
            are_valid_responses(responses_view(responses@)),
            old(self)@.sidebar is Some ==> now
                + old(self)@.sidebar->0.config.fs_reconcile_interval <= u128::MAX,
        ensures
            final(self).wf(),
            old(self)@.sidebar is None ==> final(self)@ == old(self)@,
            old(self)@.sidebar is Some ==> exists|first: Seq<Seq<Part>>, second: Seq<Seq<Part>>|
                #![trigger ticked(
                    old(self)@.sidebar->0,
                    now,
                    responses_view(responses@),
                    signals_view(signals@),
                    first,
                    second,
                )]
                {
                    let before = old(self)@.sidebar->0;
                    let replies = responses_view(responses@);
                    let tree = responses_applied(before, replies, now).0.tree;
                    &&& is_walk(first, tree)
                    &&& is_walk(second, tree)
                    &&& final(self)@ == sidebar_news(
                        old(self)@,
                        ticked(before, now, replies, signals_view(signals@), first, second),
                    )
                },
    {
        let completion = match &mut self.sidebar {
            Some(sidebar) => {
                sidebar.tick(now, responses, signals);
                sidebar.take_mutation_completion()
            },
            None => return,
        };
        if let Some(completion) = completion {
            self.finish_operation(completion.result);
        }
    }

    /// Takes in what was heard of the processes that run, and begins to start
    /// those that are due. Returns what is to be done, and the tabs whose shells
    /// have ended.
    pub fn poll_sessions(&mut self, reports: Vec<PollReport>, now: u128) -> (outcome: (
        Vec<Effect>,
        Vec<ShellTabId>,
    ))
        requires
            old(self).wf(),
            has_generations(old(self)@.sessions),
            old(self)@.sessions.shutting_down || forall|i: int|
                0 <= i < reports@.len() ==> old(self)@.sessions.slots.contains_key(
                    (#[trigger] reports@[i]).key,
                ) && fits_after(now, Some(reports@[i].decision)),
        ensures
            final(self).wf(),
            final(self)@ == (RuntimeState { sessions: final(self)@.sessions, ..old(self)@ }),
            old(self)@.sessions.shutting_down ==> final(self)@ == old(self)@
                && outcome.0@.len() == 0 && outcome.1@.len() == 0,
            !old(self)@.sessions.shutting_down ==> exists|order: Seq<SessionKey>|
                #![trigger round_polled(old(self)@.sessions, reports_view(reports@), order, now)]
                {
                    let before = old(self)@.sessions;
                    let taken = reports_taken(before, reports_view(reports@), now);
                    let round = round_polled(before, reports_view(reports@), order, now);
                    &&& is_due_order(taken.registry, order, now)
                    &&& final(self)@.sessions == round.registry
                    &&& effects_view(outcome.0@) == session_effects(round.effects)
                    &&& outcome.1@ == round.exited
                },
    {
        let (effects, exited) = self.sessions.poll(reports, now);
        let effects = from_session_effects(effects);
        assert(effects_view(effects@).len() == effects@.len());
        (effects, exited)
    }

    /// Takes what came of closing a tab: the tab that went, the one that took
    /// its place, and the one that is shown.
    pub fn tab_closed(
        &mut self,
        closed: Option<(ShellTabId, Option<ShellTabId>)>,
        active: ShellTabId,
    ) -> (effects: Vec<Effect>)
        requires
            old(self).wf(),
        ensures
            final(self).wf(),
            (final(self)@, effects_view(effects@)) == tab_closed(old(self)@, closed, active),
    {
        self.workbench.active_shell = active;
        match closed {
            Some((removed, replacement)) => {
                let effects = self.sessions.close_shell(removed, replacement);
                from_session_effects(effects)
            },
            None => no_effects(),
        }
    }

    /// Takes what came of opening a tab: the tab, and the one that is shown.
    pub fn tab_opened(&mut self, id: ShellTabId, active: ShellTabId, size: TerminalSize) -> (
        effects: Result<Vec<Effect>, String>)
        requires
            old(self).wf(),
        ensures
            final(self).wf(),
            (
                final(self)@,
                match effects {
                    Ok(effects) => Ok(effects_view(effects@)),
                    Err(error) => Err(error@),
                },
            ) == tab_opened(old(self)@, id, active, size),
    {
        self.workbench.active_shell = active;
        match self.sessions.add_shell(id, size) {
            Ok(effects) => Ok(from_session_effects(effects)),
            Err(error) => Err(error),
        }
    }

    /// Takes what came of saving the layout.
    pub fn layout_saved(&mut self, result: Result<(), String>)
        requires
            old(self).wf(),
        ensures
            final(self).wf(),
            final(self)@ == layout_saved(old(self)@, unit_result(result)),
    {
        match result {
            Ok(()) => {
                let clear = match &self.status {
                    Some(status) => starts_with(status.as_str(), "failed to save layout:")
                        || starts_with(status.as_str(), "saved layout ignored:"),
                    None => false,
                };
                if clear {
                    self.status = None;
                }
            },
            Err(error) => self.set_status(join2("failed to save layout: ", error.as_str())),
        }
    }

    /// Takes the size of the screen.
    pub fn begin_resize(&mut self, area: Rect)
        requires
            old(self).wf(),
        ensures
            final(self).wf(),
            final(self)@ == viewport_changed(old(self)@, area),
    {
        if self.viewport_area != area {
            self.cancel_layout_gesture();
            self.context_menu = None;
            self.viewport_area = area;
        }
    }

    fn resize_terminals(&mut self, plan: Vec<(SessionKey, TerminalSize)>) -> (effects: Vec<Effect>)
        requires
            old(self).wf(),
        ensures
            final(self).wf(),
            final(self)@ == (RuntimeState { sessions: final(self)@.sessions, ..old(self)@ }),
            (final(self)@.sessions, effects_view(effects@)) == terminals_resized(
                old(self)@.sessions,
                plan@,
            ),
    {
        let ghost s = self@;
        let mut effects = no_effects();
        let mut i: usize = 0;
        assert(plan@.take(0) =~= Seq::<(SessionKey, TerminalSize)>::empty());
        while i < plan.len()
            invariant
                i <= plan@.len(),
                self.wf(),
                self@ == (RuntimeState { sessions: self@.sessions, ..s }),
                (self@.sessions, effects_view(effects@)) == terminals_resized(
                    s.sessions,
                    plan@.take(i as int),
                ),
            decreases plan@.len() - i,
        {
            let (key, size): (SessionKey, TerminalSize) = plan[i];
            proof {
                assert(plan@.take(i + 1).drop_last() =~= plan@.take(i as int));
                assert(plan@.take(i + 1).last() == plan@[i as int]);
            }
            if let Some(identity) = self.sessions.resize_slot(key, size) {
                push_effect(&mut effects, Effect::ResizeSession { key, identity, size });
            }
            i += 1;
        }
        assert(plan@.take(i as int) =~= plan@);
        effects
    }

    fn change_layout(&mut self, layout: WorkbenchLayout, clear: bool) -> (effects: Vec<Effect>)
        requires
            old(self).wf(),
            old(self)@.launch_mode.is_workbench(),
        ensures
            final(self).wf(),
            (final(self)@, effects_view(effects@)) == layout_changed(old(self)@, layout, clear),
    {
        let unchanged = match self.layout {
            Some(current) => current == layout,
            None => false,
        };
        let mut effects = no_effects();
        if !unchanged {
            self.pending_mouse = None;
            self.context_menu = None;
            if clear {
                effects = self.clear_selection();
            }
        }
        self.layout = Some(layout);
        effects
    }

    /// Takes its place on the screen. `layout` is for the workbench.
    pub fn finish_resize(
        &mut self,
        layout: WorkbenchLayout,
        clear: bool,
        tabs: &Vec<ShellTabId>,
        sizes: PaneSizes,
        minimums: PaneMinimums,
    ) -> (effects: Vec<Effect>)
        requires
            old(self).wf(),
        ensures
            final(self).wf(),
            (final(self)@, effects_view(effects@)) == resize_finished(
                old(self)@,
                if old(self)@.launch_mode.is_workbench() {
                    Some(layout)
                } else {
                    None
                },
                clear,
                tabs@,
                sizes,
                minimums,
            ),
    {
        let (mut effects, plan): (Vec<Effect>, Vec<(SessionKey, TerminalSize)>) =
            if self.launch_mode.is_workbench() {
            (self.change_layout(layout, clear), plan_sizes(layout, tabs, sizes, minimums))
        } else {
            let mut plan: Vec<(SessionKey, TerminalSize)> = Vec::new();
            plan.push((SessionKey::Pane(PaneId::Editor), sizes.editor));
            assert(plan@ =~= seq![(SessionKey::Pane(PaneId::Editor), sizes.editor)]);
            (no_effects(), plan)
        };
        let more = self.resize_terminals(plan);
        append_effects(&mut effects, more);
        effects
    }
}

impl AppRuntime {
    /// Starts the program. Returns it, and what is to be done first.
    pub fn new(launch_mode: LaunchMode, facts: LaunchFacts, now: u128) -> (started: (
        AppRuntime,
        Vec<Effect>,
    ))
        requires
            now + TRUST_REFRESH_INTERVAL <= u128::MAX,
            now + default_config().fs_reconcile_interval <= u128::MAX,
        ensures
            started.0.wf(),
            (started.0@, effects_view(started.1@)) == launched(launch_mode, facts, now),
    {
        let is_workbench = launch_mode.is_workbench();
        let ghost given = facts;
        let LaunchFacts { root, area, config, saved, trust, layout, sizes, shell, worker } = facts;
        let mut layout_config = config;
        let mut layout_store = false;
        let mut status: Option<String> = None;
        if is_workbench {
            layout_store = true;
            match saved {
                LayoutLoad::Loaded(config) => {
                    layout_config = config;
                },
                LayoutLoad::Missing => {},
                LayoutLoad::Ignored(error) => {
                    status = Some(join2("saved layout ignored: ", error.as_str()));
                },
                LayoutLoad::Unavailable(error) => {
                    layout_store = false;
                    status = Some(join2("layout persistence unavailable: ", error.as_str()));
                },
            }
        }
        let mut trust_store = false;
        let mut trust_state = WorkspaceTrustState::Untrusted;
        let mut trust_status_message: Option<String> = None;
        if is_workbench || launch_mode == LaunchMode::Pi {
            trust_store = true;
            match trust {
                TrustLoad::Resolved(state) => {
                    trust_state = state;
                },
                TrustLoad::Unresolved(error) => {
                    let message = join2("workspace trust unavailable: ", error.as_str());
                    status = Some(message.clone());
                    trust_status_message = Some(message);
                },
                TrustLoad::Unavailable(error) => {
                    trust_store = false;
                    let message = join2("workspace trust unavailable: ", error.as_str());
                    status = Some(message.clone());
                    trust_status_message = Some(message);
                },
            }
        }
        let (sessions, spawned): (SessionRegistry, Vec<SessionEffect>) = if is_workbench {
            let sources = workbench_sources(shell.clone(), sizes);
            assert(sources_view(sources@).len() == sources@.len());
            SessionRegistry::from_sources(sources, Some(shell))
        } else {
            let mut sources: Vec<SlotSource> = Vec::new();
            sources.push(single_source(launch_mode, shell, sizes.editor));
            assert(sources_view(sources@) =~= first_places(launch_mode, given));
            SessionRegistry::from_sources(sources, None)
        };
        let mut sidebar: Option<Sidebar> = None;
        let mut sidebar_error: Option<String> = None;
        if is_workbench {
            match worker {
                Ok(()) => {
                    let mut started = Sidebar::with_trust(root, trust_store, now);
                    started.request_initial(now);
                    sidebar = Some(started);
                },
                Err(error) => {
                    sidebar_error = Some(join2("sidebar unavailable: ", error.as_str()));
                },
            }
        }
        let runtime = AppRuntime {
            launch_mode,
            workbench: WorkbenchState::default(),
            layout_config,
            layout: if is_workbench {
                Some(layout)
            } else {
                None
            },
            sessions,
            sidebar,
            sidebar_error,
            status,
            viewport_area: area,
            pending_mouse: None,
            last_sidebar_click: None,
            pending_layout: None,
            context_menu: None,
            sidebar_edit: None,
            sidebar_delete: None,
            layout_store,
            trust_store,
            trust_state,
            trust_confirming: false,
            trust_status_message,
            next_trust_refresh: now + TRUST_REFRESH_INTERVAL,
        };
        (runtime, from_session_effects(spawned))
    }

    fn render_sidebar_frame(&self, layout: WorkbenchLayout) -> (frame: SidebarFrame)
        requires
            self.wf(),
            self@.layout == Some(layout),
        ensures
            frame_view(frame) == sidebar_shown(self@),
    {
        let trust = self.sidebar_trust_chrome();
        let viewport_rows = sidebar_tree_viewport_rows(layout.sidebar, trust);
        let rows = match &self.sidebar {
            Some(sidebar) => sidebar.visible_rows(viewport_rows),
            None => {
                let none: Vec<SidebarRow> = Vec::new();
                assert(rows_view(none@) =~= seq![]);
                none
            },
        };
        let git_error = match &self.sidebar {
            Some(sidebar) => sidebar.git_error(),
            None => None,
        };
        let error = match git_error {
            Some(error) => Some(error.as_str()),
            None => match &self.sidebar_error {
                Some(error) => Some(error.as_str()),
                None => None,
            },
        };
        let edit = match &self.sidebar_edit {
            Some(edit) => Some(
                SidebarEditView {
                    target: &edit.target,
                    value: edit.value.as_str(),
                    kind: edit.kind,
                    error: match &edit.error {
                        Some(error) => Some(error.as_str()),
                        None => None,
                    },
                },
            ),
            None => None,
        };
        render_sidebar(
            SidebarView {
                rows: &rows,
                edit,
                trust,
                error,
                focused: self.workbench.focused == PaneId::Sidebar,
                style: SidebarStyle::default(),
            },
        )
    }

    /// What a pane shows.
    pub fn render_slot(
        &self,
        pane: PaneId,
        area: Rect,
        focused: bool,
        selection: Option<Selection>,
        now: u128,
    ) -> (plan: PanePlan)
        requires
            self.wf(),
        ensures
            plan@ == pane_shown(self@, pane, area, focused, selection, now),
    {
        let is_workbench = self.launch_mode.is_workbench();
        let title_handle = is_workbench && pane == PaneId::Bottom && match self.layout {
            Some(layout) => layout.bottom.height > 0,
            None => false,
        };
        let key = session_key(&self.workbench, pane);
        let running = self.sessions.get(key).is_some();
        if is_workbench && pane == PaneId::Bottom {
            let message = self.sessions.status(key, now, true);
            let title = session_title_with_handle(
                "shell",
                match &message {
                    Some(message) => Some(message.as_str()),
                    None => None,
                },
                area.width,
                title_handle,
            );
            return PanePlan {
                pane,
                area,
                focused,
                selection,
                key,
                title,
                body: PaneBody::Shell { running, message },
            };
        }
        let name = match self.sessions.display_name(key) {
            Some(name) => name,
            None => "backend".to_owned(),
        };
        let action = match &self.status {
            Some(status) => Some(status.as_str()),
            None => None,
        };
        if running {
            let title = session_title_with_handle(name.as_str(), action, area.width, title_handle);
            return PanePlan {
                pane,
                area,
                focused,
                selection,
                key,
                title,
                body: PaneBody::Session,
            };
        }
        let lifecycle = match self.sessions.status(key, now, is_workbench) {
            Some(text) => text,
            None => "unavailable".to_owned(),
        };
        let status = unavailable_pane_status(pane, lifecycle.as_str(), action);
        let title = session_title_with_handle(
            name.as_str(),
            Some(status.as_str()),
            area.width,
            title_handle,
        );
        PanePlan {
            pane,
            area,
            focused,
            selection,
            key,
            title,
            body: PaneBody::Unavailable { status },
        }
    }

    fn render_pane(
        &self,
        panes: &mut Vec<PanePlan>,
        pane: PaneId,
        area: Rect,
        width: u16,
        height: u16,
        now: u128,
    )
        requires
            self.wf(),
        ensures
            panes_view(final(panes)@) == panes_view(old(panes)@) + pane_if_large(
                self@,
                pane,
                area,
                width,
                height,
                now,
            ),
    {
        let ghost before = panes@;
        if area.width >= width && area.height >= height {
            let selection = if context_menu_copy_enabled(&self.workbench, pane) {
                self.workbench.selection
            } else {
                None
            };
            panes.push(
                self.render_slot(pane, area, self.workbench.focused == pane, selection, now),
            );
        }
        assert(panes_view(panes@) =~= panes_view(before) + pane_if_large(
            self@,
            pane,
            area,
            width,
            height,
            now,
        ));
    }

    /// What the workbench shows.
    pub fn render_workbench(&self, minimums: PaneMinimums, now: u128) -> (screen: Option<
        ScreenPlan,
    >)
        requires
            self.wf(),
        ensures
            screen_option(screen) == workbench_shown(self@, minimums, now),
    {
        let layout = match self.layout {
            Some(layout) => layout,
            None => return None,
        };
        if layout.compact {
            return Some(ScreenPlan::Compact);
        }
        let sidebar = if layout.sidebar.width > 0 && layout.sidebar.height > 0 {
            Some(self.render_sidebar_frame(layout))
        } else {
            None
        };
        let mut panes: Vec<PanePlan> = Vec::new();
        assert(panes_view(panes@) =~= seq![]);
        let width = minimums.terminal_width;
        let height = minimums.terminal_height;
        self.render_pane(&mut panes, PaneId::Editor, layout.editor, width, height, now);
        self.render_pane(&mut panes, PaneId::Agent, layout.agent, width, height, now);
        self.render_pane(
            &mut panes,
            PaneId::Bottom,
            layout.bottom,
            width,
            minimums.shell_height,
            now,
        );
        assert(panes_view(panes@) =~= panes_shown(self@, layout, minimums, now));
        let menu = match &self.context_menu {
            Some(context) => Some(
                MenuPlan {
                    area: context.menu.area(),
                    lines: render_context_menu(&context.menu),
                },
            ),
            None => None,
        };
        Some(
            ScreenPlan::Panes { sidebar, panes, controls: render_layout_controls(layout), menu },
        )
    }

    /// What the program shows in an area.
    pub fn render(&self, area: Rect, minimums: PaneMinimums, now: u128) -> (screen: Option<
        ScreenPlan,
    >)
        requires
            self.wf(),
        ensures
            screen_option(screen) == screen_shown(self@, area, minimums, now),
    {
        if self.launch_mode.is_workbench() {
            self.render_workbench(minimums, now)
        } else {
            let mut panes: Vec<PanePlan> = Vec::new();
            panes.push(self.render_slot(PaneId::Editor, area, true, None, now));
            assert(panes_view(panes@) =~= seq![
                pane_shown(self@, PaneId::Editor, area, true, None, now),
            ]);
            Some(ScreenPlan::Panes { sidebar: None, panes, controls: None, menu: None })
        }
    }
}

impl AppRuntime {
    /// How the program was started.
    pub fn launch_mode(&self) -> (mode: LaunchMode)
        ensures
            mode == self@.launch_mode,
    {
        self.launch_mode
    }

    /// The focus, the selection and the tab that is shown.
    pub fn workbench(&self) -> (workbench: WorkbenchState)
        ensures
            workbench == self@.workbench,
    {
        self.workbench
    }

    /// The layout's numbers.
    pub fn layout_config(&self) -> (config: WorkbenchLayoutConfig)
        ensures
            config == self@.layout_config,
    {
        self.layout_config
    }

    /// Where the panes are.
    pub fn layout(&self) -> (layout: Option<WorkbenchLayout>)
        ensures
            layout == self@.layout,
    {
        self.layout
    }

    /// The screen that the program fills.
    pub fn viewport_area(&self) -> (area: Rect)
        ensures
            area == self@.viewport_area,
    {
        self.viewport_area
    }

    /// What the program last told the user.
    pub fn status(&self) -> (status: Option<&String>)
        ensures
            (match status {
                Some(status) => Some(status@),
                None => None,
            }) == self@.status,
    {
        self.status.as_ref()
    }

    /// The name that is being entered.
    pub fn sidebar_edit(&self) -> (edit: Option<&SidebarEditState>)
        ensures
            (match edit {
                Some(edit) => Some(edit@),
                None => None,
            }) == self@.sidebar_edit,
    {
        self.sidebar_edit.as_ref()
    }

    /// The question whether to move something to the trash.
    pub fn sidebar_delete(&self) -> (delete: Option<&SidebarDeleteState>)
        ensures
            (match delete {
                Some(delete) => Some(delete@),
                None => None,
            }) == self@.sidebar_delete,
    {
        self.sidebar_delete.as_ref()
    }

    /// The open menu.
    pub fn context_menu(&self) -> (context: Option<&ContextMenuState>)
        ensures
            (match context {
                Some(context) => Some(context@),
                None => None,
            }) == self@.context_menu,
    {
        self.context_menu.as_ref()
    }

    /// The processes.
    pub fn sessions(&self) -> (sessions: &SessionRegistry)
        requires
            self.wf(),
        ensures
            sessions.wf(),
            sessions@ == self@.sessions,
    {
        &self.sessions
    }

    /// The sidebar.
    pub fn sidebar(&self) -> (sidebar: Option<&Sidebar>)
        requires
            self.wf(),
        ensures
            (match sidebar {
                Some(sidebar) => Some(sidebar@),
                None => None,
            }) == self@.sidebar,
            sidebar is Some ==> sidebar->0.wf(),
    {
        self.sidebar.as_ref()
    }

    /// Takes the oldest job for the sidebar's worker.
    pub fn take_job(&mut self) -> (job: Option<Job>)
        requires
            old(self).wf(),
        ensures
            final(self).wf(),
            match job {
                Some(job) => {
                    &&& old(self)@.sidebar is Some
                    &&& old(self)@.sidebar->0.queue.len() > 0
                    &&& job@ == old(self)@.sidebar->0.queue[0]
                    &&& final(self)@ == (RuntimeState {
                        sidebar: Some(
                            SidebarState {
                                queue: old(self)@.sidebar->0.queue.skip(1),
                                ..old(self)@.sidebar->0
                            },
                        ),
                        ..old(self)@
                    })
                },
                None => {
                    &&& final(self)@ == old(self)@
                    &&& old(self)@.sidebar is Some ==> old(self)@.sidebar->0.queue.len() == 0
                },
            },
    {
        match &mut self.sidebar {
            Some(sidebar) => sidebar.take_job(),
            None => None,
        }
    }

    /// Hears that the sidebar's worker is gone.
    pub fn lose_worker(&mut self)
        requires
            old(self).wf(),
        ensures
            final(self).wf(),
            final(self)@ == (RuntimeState {
                sidebar: match old(self)@.sidebar {
                    Some(sidebar) => Some(
                        SidebarState { worker_lost: true, queue: Seq::empty(), ..sidebar },
                    ),
                    None => None,
                },
                ..old(self)@
            }),
    {
        if let Some(sidebar) = &mut self.sidebar {
            sidebar.lose_worker();
        }
    }
}

/// What came of looking at trust, as a value.
pub open spec fn trust_result(resolved: Result<WorkspaceTrustState, String>) -> Result<
    WorkspaceTrustState,
    Seq<char>,
> {
    match resolved {
        Ok(state) => Ok(state),
        Err(error) => Err(error@),
    }
}

fn starts_with(text: &str, start: &str) -> (starts: bool)
    ensures
        starts == begins_with(text@, start@),
{
    let length: usize = start.unicode_len();
    if text.unicode_len() < length {
        return false;
    }
    let mut i: usize = 0;
    while i < length
        invariant
            i <= length,
            length == start@.len(),
            length <= text@.len(),
            forall|k: int| 0 <= k < i ==> text@[k] == start@[k],
        decreases length - i,
    {
        if text.get_char(i) != start.get_char(i) {
            assert(text@.take(length as int)[i as int] != start@[i as int]);
            return false;
        }
        i += 1;
    }
    assert(text@.take(length as int) =~= start@);
    true
}

fn plan_sizes(
    layout: WorkbenchLayout,
    tabs: &Vec<ShellTabId>,
    sizes: PaneSizes,
    minimums: PaneMinimums,
) -> (plan: Vec<(SessionKey, TerminalSize)>)
    ensures
        plan@ == resize_plan(layout, tabs@, sizes, minimums),
{
    let mut plan: Vec<(SessionKey, TerminalSize)> = Vec::new();
    if layout.editor.width >= minimums.terminal_width && layout.editor.height
        >= minimums.terminal_height {
        plan.push((SessionKey::Pane(PaneId::Editor), sizes.editor));
    }
    if layout.agent.width >= minimums.terminal_width && layout.agent.height
        >= minimums.terminal_height {
        plan.push((SessionKey::Pane(PaneId::Agent), sizes.agent));
    }
    let ghost first = plan@;
    let ghost shells = tabs@.map_values(
        |id: ShellTabId| (SessionKey::Shell(id), sizes.shell),
    );
    if layout.bottom.width >= minimums.terminal_width && layout.bottom.height
        >= minimums.shell_height {
        let mut i: usize = 0;
        assert(first + shells.take(0) =~= first);
        while i < tabs.len()
            invariant
                i <= tabs@.len(),
                shells == tabs@.map_values(
                    |id: ShellTabId| (SessionKey::Shell(id), sizes.shell),
                ),
                plan@ == first + shells.take(i as int),
            decreases tabs@.len() - i,
        {
            plan.push((SessionKey::Shell(tabs[i]), sizes.shell));
            i += 1;
            assert(plan@ =~= first + shells.take(i as int));
        }
        assert(shells.take(i as int) =~= shells);
    }
    assert(plan@ =~= resize_plan(layout, tabs@, sizes, minimums));
    plan
}

/// Whether a confirmation is still asked for after trust was looked at.
pub fn trust_confirmation_after_refresh(
    confirming: bool,
    previous: WorkspaceTrustState,
    current: WorkspaceTrustState,
    resolve_failed: bool,
) -> (still: bool)
    ensures
        still == still_confirming(confirming, previous, current, resolve_failed),
{
    confirming && !resolve_failed && previous == current
}

/// Whether trust was gained or lost.
pub fn trust_capability_changed(previous: WorkspaceTrustState, current: WorkspaceTrustState) -> (
    changed: bool)
    ensures
        changed == capability_changed(previous, current),
{
    (previous == WorkspaceTrustState::Trusted) != (current == WorkspaceTrustState::Trusted)
}

/// The process that has to be started anew when trust changes: the agent.
pub fn trust_restart_key(launch_mode: LaunchMode) -> (key: Option<SessionKey>)
    ensures
        key == restart_key(launch_mode),
{
    match launch_mode {
        LaunchMode::Workbench => Some(SessionKey::Pane(PaneId::Agent)),
        LaunchMode::Pi => Some(SessionKey::Pane(PaneId::Editor)),
        _ => None,
    }
}

/// What a file that was to be opened does to focus and status.
pub fn apply_sidebar_open_result(
    workbench: &mut WorkbenchState,
    status: &mut Option<String>,
    result: FileOpenDelivery,
)
    ensures
        match result@ {
            DeliveryView::Opened => {
                &&& *final(workbench) == (WorkbenchState {
                    focused: PaneId::Editor,
                    ..*old(workbench)
                })
                &&& *final(status) is None
            },
            DeliveryView::Unavailable => {
                &&& *final(workbench) == *old(workbench)
                &&& text_view(*final(status)) == Some("editor unavailable; file was not opened"@)
            },
            DeliveryView::Failed(error) => {
                &&& *final(workbench) == *old(workbench)
                &&& text_view(*final(status)) == Some("failed to open file in editor: "@ + error)
            },
        },
{
    match result {
        FileOpenDelivery::Opened => {
            workbench.focus_pane(PaneId::Editor);
            *status = None;
        },
        FileOpenDelivery::Unavailable => {
            *status = Some("editor unavailable; file was not opened".to_owned());
        },
        FileOpenDelivery::Failed(error) => {
            *status = Some(join2("failed to open file in editor: ", error.as_str()));
        },
    }
}

} // verus!
