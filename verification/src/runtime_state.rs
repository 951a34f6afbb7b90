//! The state of the running program as a value, and what each event makes of
//! it.

use vstd::prelude::*;
use vstd::string::*;

use crate::context_menu::{
    menu_action, opened, sidebar_items, terminal_items, ContextMenu, ContextMenuAction, MenuView,
};
use crate::geometry::{difference, saturated, Rect};
use crate::input::{
    copies, menu_key, moved_to, pastes, quits, typed_character, ContextMenuKeyAction, KeyCode,
    KeyEvent, MouseButton, MouseEvent, MouseEventKind,
};
use crate::jobs::{ActivationView, MutationView};
use crate::path::{file_name_of, option_spelled, written_parent, Part, PathBuf, WrittenPath};
use crate::sessions::{
    editor_takes_files, resized, restarted, retried, running, shell_closed, shut_down, DeliveryView,
    PaneSizes, RegistryView, SessionEffect, SessionIdentity, SessionKey,
};
use crate::sidebar_view::SidebarEditKind;
use crate::state::{
    activated, expand_requested, mutation_requested, row_selected, scroll_showing, scrolled,
    spelled_root, spelled_selection, SidebarState,
};
use crate::text::{lossy_text, text_view};
use crate::tree::EntryKind;
use crate::trust::{
    trust_rows, trust_target, SidebarTrustChrome, SidebarTrustTarget, WorkspaceTrustState,
};
use crate::workbench::{
    dragged_config, edge_scroll, handle_activated, is_second_click, nearest_cell, rollback,
    row_activated, selects_in, tree_rows, LaunchMode, LayoutHandle, MouseTarget, PaneId,
    PaneMinimums, PendingLayoutGesture, PendingMouseGesture, Selection, ShellTabId, ShellTabTarget,
    TerminalPoint, TerminalSize, WorkbenchLayout, WorkbenchLayoutConfig, WorkbenchState,
};

verus! {

/// How many lines one notch of the wheel scrolls.
pub const MOUSE_WHEEL_LINES: i32 = 3;

/// How often a selection scrolls at the edge, in nanoseconds.
pub const EDGE_SCROLL_INTERVAL: u128 = 50_000_000;

/// How often trust is looked at again, in nanoseconds.
pub const TRUST_REFRESH_INTERVAL: u128 = 1_000_000_000;

/// An open menu, and what it is about.
#[derive(Debug)]
pub struct ContextMenuState {
    pub menu: ContextMenu,
    pub pane: PaneId,
    pub sidebar_target: Option<PathBuf>,
    /// Whether the menu was opened on a row.
    pub direct_target: bool,
}

/// What a [`ContextMenuState`] is, as a value.
pub struct ContextView {
    pub menu: MenuView,
    pub pane: PaneId,
    pub sidebar_target: Option<WrittenPath>,
    pub direct_target: bool,
}

impl View for ContextMenuState {
    type V = ContextView;

    open spec fn view(&self) -> ContextView {
        ContextView {
            menu: self.menu@,
            pane: self.pane,
            sidebar_target: option_spelled(self.sidebar_target),
            direct_target: self.direct_target,
        }
    }
}

pub open spec fn context_option(context: Option<ContextMenuState>) -> Option<ContextView> {
    match context {
        Some(context) => Some(context@),
        None => None,
    }
}

/// A name that is being entered.
#[derive(Debug)]
pub struct SidebarEditState {
    pub kind: SidebarEditKind,
    pub target: PathBuf,
    pub value: String,
    pub error: Option<String>,
    pub pending: bool,
}

/// What a [`SidebarEditState`] is, as a value.
pub struct EditStateView {
    pub kind: SidebarEditKind,
    pub target: WrittenPath,
    pub value: Seq<char>,
    pub error: Option<Seq<char>>,
    pub pending: bool,
}

impl View for SidebarEditState {
    type V = EditStateView;

    open spec fn view(&self) -> EditStateView {
        EditStateView {
            kind: self.kind,
            target: self.target.spelled(),
            value: self.value@,
            error: text_view(self.error),
            pending: self.pending,
        }
    }
}

pub open spec fn edit_state_option(edit: Option<SidebarEditState>) -> Option<EditStateView> {
    match edit {
        Some(edit) => Some(edit@),
        None => None,
    }
}

/// A question whether to move something to the trash.
#[derive(Debug)]
pub struct SidebarDeleteState {
    pub target: PathBuf,
    pub pending: bool,
}

/// What a [`SidebarDeleteState`] is, as a value.
pub struct DeleteView {
    pub target: WrittenPath,
    pub pending: bool,
}

impl View for SidebarDeleteState {
    type V = DeleteView;

    open spec fn view(&self) -> DeleteView {
        DeleteView { target: self.target.spelled(), pending: self.pending }
    }
}

pub open spec fn delete_option(delete: Option<SidebarDeleteState>) -> Option<DeleteView> {
    match delete {
        Some(delete) => Some(delete@),
        None => None,
    }
}

/// What is to be done outside, in order.
#[derive(Debug)]
pub enum Effect {
    Session(SessionEffect),
    /// Hand the key that was pressed to a process.
    SendKey { key: SessionKey, identity: SessionIdentity },
    SendMouse { key: SessionKey, identity: SessionIdentity, event: MouseEvent },
    SendPaste { key: SessionKey, identity: SessionIdentity, contents: String },
    /// Show the end of a terminal's text again.
    ResetScrollback(SessionKey),
    ScrollViewport { key: SessionKey, lines: i32 },
    /// Freeze a terminal's text and say where a selection begins.
    BeginSelection { key: SessionKey, row: u16, col: u16 },
    /// Say where a selection ends.
    MoveSelection { key: SessionKey, row: u16, col: u16 },
    /// Scroll, and say where a selection ends if something moved.
    ScrollSelection { key: SessionKey, lines: i32, row: u16, col: u16 },
    /// Write what is selected to the clipboard.
    CopySelection { key: SessionKey, selection: Selection },
    ReadClipboard,
    /// Hide or show a pane.
    Toggle(LayoutHandle),
    /// Lay the panes out again.
    Relayout,
    SaveLayout,
    SelectTab(ShellTabId),
    CloseTab(ShellTabId),
    OpenTab,
    /// Give or take trust, and ask for it again.
    PersistTrust(bool),
    OpenFile(PathBuf),
    ResizeSession { key: SessionKey, identity: SessionIdentity, size: TerminalSize },
}

/// What an [`Effect`] is, as a value.
pub enum EffectView {
    Session(SessionEffect),
    SendKey { key: SessionKey, identity: SessionIdentity },
    SendMouse { key: SessionKey, identity: SessionIdentity, event: MouseEvent },
    SendPaste { key: SessionKey, identity: SessionIdentity, contents: Seq<char> },
    ResetScrollback(SessionKey),
    ScrollViewport { key: SessionKey, lines: i32 },
    BeginSelection { key: SessionKey, row: u16, col: u16 },
    MoveSelection { key: SessionKey, row: u16, col: u16 },
    ScrollSelection { key: SessionKey, lines: i32, row: u16, col: u16 },
    CopySelection { key: SessionKey, selection: Selection },
    ReadClipboard,
    Toggle(LayoutHandle),
    Relayout,
    SaveLayout,
    SelectTab(ShellTabId),
    CloseTab(ShellTabId),
    OpenTab,
    PersistTrust(bool),
    OpenFile(WrittenPath),
    ResizeSession { key: SessionKey, identity: SessionIdentity, size: TerminalSize },
}

impl View for Effect {
    type V = EffectView;

    open spec fn view(&self) -> EffectView {
        match *self {
            Effect::Session(effect) => EffectView::Session(effect),
            Effect::SendKey { key, identity } => EffectView::SendKey { key, identity },
            Effect::SendMouse { key, identity, event } => EffectView::SendMouse {
                key,
                identity,
                event,
            },
            Effect::SendPaste { key, identity, contents } => EffectView::SendPaste {
                key,
                identity,
                contents: contents@,
            },
            Effect::ResetScrollback(key) => EffectView::ResetScrollback(key),
            Effect::ScrollViewport { key, lines } => EffectView::ScrollViewport { key, lines },
            Effect::BeginSelection { key, row, col } => EffectView::BeginSelection {
                key,
                row,
                col,
            },
            Effect::MoveSelection { key, row, col } => EffectView::MoveSelection { key, row, col },
            Effect::ScrollSelection { key, lines, row, col } => EffectView::ScrollSelection {
                key,
                lines,
                row,
                col,
            },
            Effect::CopySelection { key, selection } => EffectView::CopySelection {
                key,
                selection,
            },
            Effect::ReadClipboard => EffectView::ReadClipboard,
            Effect::Toggle(handle) => EffectView::Toggle(handle),
            Effect::Relayout => EffectView::Relayout,
            Effect::SaveLayout => EffectView::SaveLayout,
            Effect::SelectTab(id) => EffectView::SelectTab(id),
            Effect::CloseTab(id) => EffectView::CloseTab(id),
            Effect::OpenTab => EffectView::OpenTab,
            Effect::PersistTrust(trust) => EffectView::PersistTrust(trust),
            Effect::OpenFile(path) => EffectView::OpenFile(path.spelled()),
            Effect::ResizeSession { key, identity, size } => EffectView::ResizeSession {
                key,
                identity,
                size,
            },
        }
    }
}

/// The effects in a list.
pub open spec fn effects_view(effects: Seq<Effect>) -> Seq<EffectView> {
    effects.map_values(|effect: Effect| effect@)
}

/// What is done with processes, as effects.
pub open spec fn session_effects(effects: Seq<SessionEffect>) -> Seq<EffectView> {
    effects.map_values(|effect: SessionEffect| EffectView::Session(effect))
}

/// Everything that the program knows.
#[verifier::ext_equal]
pub struct RuntimeState {
    pub launch_mode: LaunchMode,
    pub workbench: WorkbenchState,
    pub layout_config: WorkbenchLayoutConfig,
    pub layout: Option<WorkbenchLayout>,
    pub sessions: RegistryView,
    pub sidebar: Option<SidebarState>,
    pub sidebar_error: Option<Seq<char>>,
    pub status: Option<Seq<char>>,
    pub viewport_area: Rect,
    pub pending_mouse: Option<PendingMouseGesture>,
    pub last_sidebar_click: Option<(Seq<Part>, u128)>,
    pub pending_layout: Option<PendingLayoutGesture>,
    pub context_menu: Option<ContextView>,
    pub sidebar_edit: Option<EditStateView>,
    pub sidebar_delete: Option<DeleteView>,
    /// Whether the layout can be saved.
    pub layout_store: bool,
    /// Whether there is a store of trust.
    pub trust_store: bool,
    pub trust_state: WorkspaceTrustState,
    pub trust_confirming: bool,
    pub trust_status_message: Option<Seq<char>>,
    pub next_trust_refresh: u128,
}

/// A state, and what is to be done outside.
pub type Step = (RuntimeState, Seq<EffectView>);

pub open spec fn quiet(s: RuntimeState) -> Step {
    (s, seq![])
}

/// A step, followed by more that is to be done.
pub open spec fn followed(step: Step, more: Seq<EffectView>) -> Step {
    (step.0, step.1 + more)
}

/// Where the process of a pane runs. The bottom pane shows one tab.
pub open spec fn key_of(workbench: WorkbenchState, pane: PaneId) -> SessionKey {
    if pane == PaneId::Bottom {
        SessionKey::Shell(workbench.active_shell)
    } else {
        SessionKey::Pane(pane)
    }
}

pub open spec fn with_status(s: RuntimeState, message: Seq<char>) -> RuntimeState {
    RuntimeState { status: Some(message), ..s }
}

/// A drag of a border is given up.
pub open spec fn gesture_canceled(s: RuntimeState) -> RuntimeState {
    RuntimeState {
        pending_layout: None,
        layout_config: match rollback(s.pending_layout) {
            Some(config) => config,
            None => s.layout_config,
        },
        ..s
    }
}

/// Nothing is selected any more, and the terminal shows its end again.
pub open spec fn selection_cleared(s: RuntimeState) -> Step {
    let effects = match s.workbench.selection {
        Some(selection) => {
            let key = key_of(s.workbench, selection.pane);
            if running(s.sessions, key) is Some {
                seq![EffectView::ResetScrollback(key)]
            } else {
                seq![]
            }
        },
        None => seq![],
    };
    (
        RuntimeState { workbench: WorkbenchState { selection: None, ..s.workbench }, ..s },
        effects,
    )
}

/// What is selected is copied.
pub open spec fn selection_copied(s: RuntimeState) -> Step {
    match s.workbench.selection {
        Some(selection) => {
            let key = key_of(s.workbench, selection.pane);
            if running(s.sessions, key) is Some {
                (s, seq![EffectView::CopySelection { key, selection }])
            } else {
                quiet(with_status(s, "selected pane is unavailable"@))
            }
        },
        None => quiet(s),
    }
}

/// The clipboard is pasted over the selection.
pub open spec fn clipboard_pasted(s: RuntimeState) -> Step {
    followed(selection_cleared(s), seq![EffectView::ReadClipboard])
}

/// The pane that keys and pastes go to.
pub open spec fn input_pane(s: RuntimeState) -> PaneId {
    if s.launch_mode.is_workbench() {
        s.workbench.focused
    } else {
        PaneId::Editor
    }
}

/// A text is pasted.
pub open spec fn text_pasted(s: RuntimeState, contents: Seq<char>) -> Step {
    let key = key_of(s.workbench, input_pane(s));
    match running(s.sessions, key) {
        Some(identity) => (s, seq![EffectView::SendPaste { key, identity, contents }]),
        None => quiet(with_status(s, "focused pane does not accept paste"@)),
    }
}

/// The clipboard was read.
pub open spec fn clipboard_answered(
    s: RuntimeState,
    contents: Result<Seq<char>, Seq<char>>,
) -> Step {
    match contents {
        Ok(contents) => text_pasted(s, contents),
        Err(error) => quiet(with_status(s, "clipboard error: "@ + error)),
    }
}

/// The editor was asked to open a file.
pub open spec fn file_opened(s: RuntimeState, delivery: DeliveryView) -> RuntimeState {
    match delivery {
        DeliveryView::Opened => RuntimeState {
            workbench: WorkbenchState { focused: PaneId::Editor, ..s.workbench },
            status: None,
            ..s
        },
        DeliveryView::Unavailable => with_status(s, "editor unavailable; file was not opened"@),
        DeliveryView::Failed(error) => with_status(s, "failed to open file in editor: "@ + error),
    }
}

/// The selected row of the sidebar is activated.
pub open spec fn sidebar_activated(s: RuntimeState) -> Step {
    match s.sidebar {
        Some(sidebar) => {
            let (after, activation) = activated(sidebar);
            let s = RuntimeState { sidebar: Some(after), ..s };
            match activation {
                Some(ActivationView::OpenFile(path)) => if editor_takes_files(s.sessions) {
                    (s, seq![EffectView::OpenFile(path)])
                } else {
                    quiet(file_opened(s, DeliveryView::Unavailable))
                },
                _ => quiet(s),
            }
        },
        None => quiet(s),
    }
}

/// The rows of the tree that are shown.
pub open spec fn visible_tree_rows(s: RuntimeState) -> nat {
    match s.layout {
        Some(layout) => tree_rows(layout.sidebar, trust_chrome(s)),
        None => 0,
    }
}

pub open spec fn trust_chrome(s: RuntimeState) -> SidebarTrustChrome {
    SidebarTrustChrome { state: s.trust_state, confirming: s.trust_confirming }
}

/// A file operation is asked for.
pub open spec fn operation_requested(s: RuntimeState, mutation: MutationView) -> (
    RuntimeState,
    Result<(), Seq<char>>,
) {
    match s.sidebar {
        Some(sidebar) => {
            let (after, answer) = mutation_requested(sidebar, mutation);
            (RuntimeState { sidebar: Some(after), ..s }, answer)
        },
        None => (s, Err("sidebar is unavailable"@)),
    }
}

/// The file operation that a name was entered for.
pub open spec fn edit_mutation(edit: EditStateView) -> MutationView {
    match edit.kind {
        SidebarEditKind::NewFile => MutationView::CreateFile {
            parent: edit.target,
            name: edit.value,
        },
        SidebarEditKind::NewFolder => MutationView::CreateDirectory {
            parent: edit.target,
            name: edit.value,
        },
        SidebarEditKind::Rename => MutationView::Rename { source: edit.target, name: edit.value },
    }
}

/// The name that was entered is put to use.
pub open spec fn edit_submitted(s: RuntimeState) -> RuntimeState {
    match s.sidebar_edit {
        Some(edit) => {
            let (asked, answer) = operation_requested(s, edit_mutation(edit));
            match answer {
                Ok(()) => RuntimeState {
                    sidebar_edit: Some(EditStateView { pending: true, error: None, ..edit }),
                    status: Some("sidebar file operation pending"@),
                    ..asked
                },
                Err(error) => RuntimeState {
                    sidebar_edit: Some(EditStateView { error: Some(error), ..edit }),
                    status: Some(error),
                    ..asked
                },
            }
        },
        None => s,
    }
}

/// The name has changed.
pub open spec fn edit_changed(
    s: RuntimeState,
    edit: EditStateView,
    value: Seq<char>,
) -> RuntimeState {
    RuntimeState {
        sidebar_edit: Some(EditStateView { value, error: None, ..edit }),
        status: None,
        ..s
    }
}

/// A key while a name is being entered.
pub open spec fn edit_key(s: RuntimeState, key: KeyEvent) -> RuntimeState {
    match s.sidebar_edit {
        Some(edit) => if edit.pending {
            s
        } else {
            match key.code {
                KeyCode::Esc => RuntimeState { sidebar_edit: None, status: None, ..s },
                KeyCode::Enter => edit_submitted(s),
                KeyCode::Backspace => edit_changed(
                    s,
                    edit,
                    if edit.value.len() > 0 {
                        edit.value.drop_last()
                    } else {
                        edit.value
                    },
                ),
                _ => match typed_character(key) {
                    Some(character) => edit_changed(s, edit, edit.value.push(character)),
                    None => s,
                },
            }
        },
        None => s,
    }
}

/// A key while the user is asked whether to move something to the trash.
pub open spec fn delete_key(s: RuntimeState, key: KeyEvent) -> RuntimeState {
    match s.sidebar_delete {
        Some(delete) => if delete.pending {
            s
        } else {
            match key.code {
                KeyCode::Esc => RuntimeState { sidebar_delete: None, status: None, ..s },
                KeyCode::Enter => {
                    let (asked, answer) = operation_requested(
                        s,
                        MutationView::Trash { target: delete.target },
                    );
                    match answer {
                        Ok(()) => RuntimeState {
                            sidebar_delete: Some(DeleteView { pending: true, ..delete }),
                            status: Some(
                                "moving "@ + lossy_text(delete.target.text) + " to trash..."@,
                            ),
                            ..asked
                        },
                        Err(error) => with_status(asked, error),
                    }
                },
                _ => s,
            }
        },
        None => s,
    }
}

/// A key while a menu is open closes the menu.
pub open spec fn menu_key_pressed(s: RuntimeState, context: ContextView, key: KeyEvent) -> Step {
    let closed = RuntimeState { context_menu: None, ..s };
    if context.sidebar_target is Some {
        quiet(closed)
    } else {
        match menu_key(key, selects_in(s.workbench, context.pane)) {
            ContextMenuKeyAction::Copy => selection_copied(closed),
            ContextMenuKeyAction::Paste => clipboard_pasted(closed),
            ContextMenuKeyAction::Dismiss => quiet(closed),
        }
    }
}

/// A key goes to the process of the pane that has the focus. One that does not
/// run is started.
pub open spec fn key_forwarded(s: RuntimeState) -> Step {
    let key = key_of(s.workbench, input_pane(s));
    match running(s.sessions, key) {
        Some(identity) => (s, seq![EffectView::SendKey { key, identity }]),
        None => {
            let (sessions, effects) = retried(s.sessions, key);
            (RuntimeState { sessions, ..s }, session_effects(effects))
        },
    }
}

/// A key that nothing else takes.
pub open spec fn plain_key(s: RuntimeState, key: KeyEvent) -> Step {
    let (cleared, effects) = selection_cleared(s);
    let (after, more) = if input_pane(cleared) == PaneId::Sidebar && key.code == KeyCode::Enter {
        sidebar_activated(RuntimeState { last_sidebar_click: None, ..cleared })
    } else {
        key_forwarded(cleared)
    };
    (after, effects + more)
}

/// Whether a key ends the program.
pub open spec fn ends(key: KeyEvent) -> bool {
    quits(key)
}

/// A key that does not end the program.
pub open spec fn key_pressed(s: RuntimeState, key: KeyEvent) -> Step {
    let s = gesture_canceled(RuntimeState { pending_mouse: None, ..s });
    if s.sidebar_delete is Some {
        quiet(delete_key(s, key))
    } else if s.sidebar_edit is Some {
        quiet(edit_key(s, key))
    } else if s.context_menu is Some {
        menu_key_pressed(s, s.context_menu->0, key)
    } else if copies(key, s.workbench.selection is Some) {
        selection_copied(s)
    } else if pastes(key) {
        clipboard_pasted(s)
    } else {
        plain_key(s, key)
    }
}

/// The program stops.
pub open spec fn stopped(s: RuntimeState) -> RuntimeState {
    let s = gesture_canceled(RuntimeState { pending_mouse: None, ..s });
    RuntimeState { context_menu: None, sessions: shut_down(s.sessions), ..s }
}

/// A text was pasted by the terminal.
pub open spec fn paste_received(s: RuntimeState, contents: Seq<char>) -> Step {
    match s.sidebar_edit {
        Some(edit) => quiet(
            if edit.pending {
                s
            } else {
                RuntimeState {
                    sidebar_edit: Some(
                        EditStateView { value: edit.value + contents, error: None, ..edit },
                    ),
                    ..s
                }
            },
        ),
        None => {
            let (cleared, effects) = selection_cleared(
                RuntimeState {
                    context_menu: None,
                    ..gesture_canceled(RuntimeState { pending_mouse: None, ..s })
                },
            );
            let (after, more) = text_pasted(cleared, contents);
            (after, effects + more)
        },
    }
}

/// What the mouse found.
#[derive(Debug, Clone, Copy, PartialEq, Eq, Structural)]
pub struct MouseFacts {
    /// What is under the pointer.
    pub target: Option<MouseTarget>,
    /// What is under the pointer in the row of tabs.
    pub tab: Option<ShellTabTarget>,
    /// Whether the process under the pointer wants to hear of the mouse.
    pub mouse_reporting: bool,
    pub sizes: PaneSizes,
    pub minimums: PaneMinimums,
}

/// The size of the text in a pane.
pub open spec fn size_of(sizes: PaneSizes, pane: PaneId) -> TerminalSize {
    match pane {
        PaneId::Agent => sizes.agent,
        PaneId::Bottom => sizes.shell,
        _ => sizes.editor,
    }
}

/// A click closes what was being entered or asked.
pub open spec fn modals_closed(s: RuntimeState) -> RuntimeState {
    RuntimeState {
        sidebar_edit: None,
        sidebar_delete: None,
        status: if s.sidebar_delete is Some || (s.sidebar_edit is Some && s.sidebar_edit->0.error
            is Some) {
            None
        } else {
            s.status
        },
        ..s
    }
}

/// Whether a file operation is under way that the user waits for.
pub open spec fn is_waiting(s: RuntimeState) -> bool {
    (s.sidebar_edit is Some && s.sidebar_edit->0.pending) || (s.sidebar_delete is Some
        && s.sidebar_delete->0.pending)
}

/// The kind of a path that the sidebar knows.
pub open spec fn known_kind(s: RuntimeState, path: Seq<Part>) -> Option<EntryKind> {
    match s.sidebar {
        Some(sidebar) => if sidebar.tree.contains_key(path) {
            Some(sidebar.tree[path].kind)
        } else {
            None
        },
        None => None,
    }
}

/// The directory in which something new is made: the target, or the directory
/// that holds it.
pub open spec fn creation_parent(s: RuntimeState, target: WrittenPath) -> Option<WrittenPath> {
    match known_kind(s, target.path) {
        Some(kind) => if kind.is_directory() {
            Some(target)
        } else {
            written_parent(target)
        },
        None => written_parent(target),
    }
}

/// A path is expanded and brought into view, with room below it.
pub open spec fn room_made(s: RuntimeState, parent: WrittenPath) -> RuntimeState {
    match s.sidebar {
        Some(sidebar) => {
            let expanded = expand_requested(sidebar, parent.path, parent.text).0;
            RuntimeState {
                sidebar: Some(
                    SidebarState {
                        scroll: scroll_showing(expanded, parent.path, visible_tree_rows(s), 1),
                        ..expanded
                    },
                ),
                ..s
            }
        },
        None => s,
    }
}

/// The text that bytes hold, if they are text.
pub open spec fn text_of(bytes: Option<Seq<u8>>) -> Option<Seq<char>> {
    match bytes {
        Some(bytes) => if vstd::utf8::valid_utf8(bytes) {
            Some(vstd::utf8::decode_utf8(bytes))
        } else {
            None
        },
        None => None,
    }
}

/// An item of the sidebar's menu is chosen.
pub open spec fn action_begun(
    s: RuntimeState,
    context: ContextView,
    action: ContextMenuAction,
) -> RuntimeState {
    match context.sidebar_target {
        None => s,
        Some(target) => if action == ContextMenuAction::NewFile || action
            == ContextMenuAction::NewFolder {
            match creation_parent(s, target) {
                Some(parent) => RuntimeState {
                    status: None,
                    sidebar_edit: Some(
                        EditStateView {
                            kind: if action == ContextMenuAction::NewFolder {
                                SidebarEditKind::NewFolder
                            } else {
                                SidebarEditKind::NewFile
                            },
                            target: parent,
                            value: Seq::empty(),
                            error: None,
                            pending: false,
                        },
                    ),
                    ..room_made(s, parent)
                },
                None => s,
            }
        } else if action == ContextMenuAction::Rename && context.direct_target {
            match text_of(file_name_of(target.path)) {
                Some(name) => RuntimeState {
                    status: None,
                    sidebar_edit: Some(
                        EditStateView {
                            kind: SidebarEditKind::Rename,
                            target,
                            value: name,
                            error: None,
                            pending: false,
                        },
                    ),
                    ..s
                },
                None => with_status(s, "non-UTF-8 names cannot be renamed in the sidebar"@),
            }
        } else if action == ContextMenuAction::Delete && context.direct_target {
            RuntimeState {
                status: Some(
                    "move "@ + lossy_text(target.text) + " to trash? Enter confirm, Esc cancel"@,
                ),
                sidebar_delete: Some(DeleteView { target, pending: false }),
                ..s
            }
        } else {
            s
        },
    }
}

/// A click while a menu is open.
pub open spec fn menu_clicked(s: RuntimeState, context: ContextView, event: MouseEvent) -> Step {
    let closed = RuntimeState { context_menu: None, ..s };
    match menu_action(context.menu, event.column, event.row) {
        Some(ContextMenuAction::Copy) => selection_copied(closed),
        Some(ContextMenuAction::Paste) => clipboard_pasted(
            RuntimeState {
                workbench: WorkbenchState { focused: context.pane, ..closed.workbench },
                ..closed
            },
        ),
        Some(action) => quiet(action_begun(closed, context, action)),
        None => quiet(closed),
    }
}

/// A menu of a terminal opens.
pub open spec fn terminal_menu_opened(
    s: RuntimeState,
    pane: PaneId,
    event: MouseEvent,
) -> RuntimeState {
    RuntimeState {
        workbench: WorkbenchState { focused: pane, ..s.workbench },
        context_menu: Some(
            ContextView {
                menu: opened(
                    s.viewport_area,
                    event.column,
                    event.row,
                    terminal_items(selects_in(s.workbench, pane)),
                ),
                pane,
                sidebar_target: None,
                direct_target: false,
            },
        ),
        ..s
    }
}

/// The row of the tree at a row of the sidebar.
pub open spec fn tree_row(s: RuntimeState, row: nat) -> nat {
    difference(row as int, trust_rows(trust_chrome(s)) as int) as nat
}

/// A row of the tree is selected: the state afterwards, and the path.
pub open spec fn tree_row_selected(s: RuntimeState, row: nat) -> (
    RuntimeState,
    Option<WrittenPath>,
) {
    match s.sidebar {
        Some(sidebar) => {
            let (after, path) = row_selected(sidebar, tree_row(s, row), visible_tree_rows(s));
            (RuntimeState { sidebar: Some(after), ..s }, path)
        },
        None => (s, None),
    }
}

/// What a menu of the sidebar is about: the row under the pointer, or else what
/// is selected, or else the root.
pub open spec fn menu_target(s: RuntimeState, selected: Option<WrittenPath>) -> WrittenPath {
    match selected {
        Some(path) => path,
        None => match s.sidebar {
            Some(sidebar) => match spelled_selection(sidebar) {
                Some(path) => path,
                None => spelled_root(sidebar),
            },
            None => WrittenPath { path: Seq::empty(), text: Seq::empty() },
        },
    }
}

/// Whether a menu offers to make something. Nothing is made through a link.
pub open spec fn may_create(s: RuntimeState, target: Seq<Part>) -> bool {
    s.trust_state == WorkspaceTrustState::Trusted && known_kind(s, target) != Some(
        EntryKind::SymlinkDirectory,
    )
}

/// Whether a menu offers to rename or delete. The root stays as it is.
pub open spec fn may_change(s: RuntimeState, target: Seq<Part>, direct: bool) -> bool {
    &&& s.trust_state == WorkspaceTrustState::Trusted
    &&& direct
    &&& s.sidebar is Some && target != s.sidebar->0.root
    &&& known_kind(s, target) != Some(EntryKind::Deleted)
}

/// A menu of the sidebar opens.
pub open spec fn sidebar_menu_opened(s: RuntimeState, row: u16, event: MouseEvent) -> RuntimeState {
    let s = RuntimeState {
        workbench: WorkbenchState { focused: PaneId::Sidebar, ..s.workbench },
        ..s
    };
    if trust_target(trust_chrome(s), row as nat) is Some {
        s
    } else {
        let (after, selected) = tree_row_selected(s, row as nat);
        let target = menu_target(after, selected);
        RuntimeState {
            context_menu: Some(
                ContextView {
                    menu: opened(
                        s.viewport_area,
                        event.column,
                        event.row,
                        sidebar_items(
                            may_create(after, target.path),
                            may_change(after, target.path, selected is Some),
                        ),
                    ),
                    pane: PaneId::Sidebar,
                    sidebar_target: Some(target),
                    direct_target: selected is Some,
                },
            ),
            ..after
        }
    }
}

/// The right button goes down.
pub open spec fn right_pressed(
    s: RuntimeState,
    event: MouseEvent,
    target: Option<MouseTarget>,
) -> RuntimeState {
    let s = RuntimeState {
        context_menu: None,
        ..gesture_canceled(RuntimeState { pending_mouse: None, last_sidebar_click: None, ..s })
    };
    match target {
        Some(MouseTarget::Content { pane, .. }) => terminal_menu_opened(s, pane, event),
        Some(MouseTarget::Sidebar { row, .. }) => sidebar_menu_opened(s, row, event),
        _ => s,
    }
}

/// Whether a cell lies in the row of tabs.
pub open spec fn is_in_tab_row(layout: WorkbenchLayout, event: MouseEvent) -> bool {
    &&& layout.bottom.height > 0
    &&& event.row == saturated(layout.bottom.y as int, 1)
    &&& layout.bottom.x < event.column
    &&& event.column < difference(layout.bottom.right_edge(), 1)
}

/// A tab is to be closed.
pub open spec fn tab_closing(s: RuntimeState, id: ShellTabId) -> Step {
    let step = if s.workbench.active_shell == id && selects_in(s.workbench, PaneId::Bottom) {
        selection_cleared(s)
    } else {
        quiet(s)
    };
    followed(step, seq![EffectView::CloseTab(id)])
}

/// The mouse in the row of tabs. Nothing of it reaches a terminal.
pub open spec fn tab_row_clicked(
    s: RuntimeState,
    event: MouseEvent,
    tab: Option<ShellTabTarget>,
) -> Step {
    let s = RuntimeState { pending_mouse: None, ..s };
    if event.kind != MouseEventKind::Down(MouseButton::Left) {
        quiet(s)
    } else {
        let s = RuntimeState {
            workbench: WorkbenchState { focused: PaneId::Bottom, ..s.workbench },
            ..s
        };
        match tab {
            Some(ShellTabTarget::Body(id)) => if s.workbench.active_shell == id {
                quiet(s)
            } else {
                let (cleared, effects) = selection_cleared(s);
                (
                    RuntimeState {
                        workbench: WorkbenchState { active_shell: id, ..cleared.workbench },
                        ..cleared
                    },
                    effects + seq![EffectView::SelectTab(id)],
                )
            },
            Some(ShellTabTarget::Close(id)) => tab_closing(s, id),
            Some(ShellTabTarget::Plus) => (s, seq![EffectView::OpenTab]),
            None => quiet(s),
        }
    }
}

/// The left button goes down on a handle, a divider or a pane.
pub open spec fn left_pressed(
    s: RuntimeState,
    event: MouseEvent,
    target: Option<MouseTarget>,
    layout: WorkbenchLayout,
    now: u128,
) -> Step {
    let s = gesture_canceled(s);
    match target {
        None => quiet(s),
        Some(target) => {
            let s = if target is Sidebar {
                s
            } else {
                RuntimeState { last_sidebar_click: None, ..s }
            };
            match target {
                MouseTarget::Handle(handle) => quiet(
                    RuntimeState {
                        pending_mouse: None,
                        pending_layout: Some(
                            PendingLayoutGesture::Handle { handle, origin: event, moved: false },
                        ),
                        ..s
                    },
                ),
                MouseTarget::Divider(divider) => quiet(
                    RuntimeState {
                        pending_mouse: None,
                        pending_layout: Some(
                            PendingLayoutGesture::Drag {
                                divider,
                                origin: event,
                                layout,
                                config: s.layout_config,
                            },
                        ),
                        ..s
                    },
                ),
                _ => {
                    let (cleared, effects) = selection_cleared(s);
                    (
                        RuntimeState {
                            workbench: WorkbenchState {
                                focused: match target.pane_of() {
                                    Some(pane) => pane,
                                    None => cleared.workbench.focused,
                                },
                                ..cleared.workbench
                            },
                            pending_mouse: Some(
                                PendingMouseGesture {
                                    target,
                                    down: event,
                                    current: event,
                                    dragging: false,
                                    moved: false,
                                    next_edge_scroll: (now + EDGE_SCROLL_INTERVAL) as u128,
                                },
                            ),
                            ..cleared
                        },
                        effects,
                    )
                },
            }
        },
    }
}

/// Whether the pointer has left the cell of an event.
pub open spec fn has_left(event: MouseEvent, origin: MouseEvent) -> bool {
    event.column != origin.column || event.row != origin.row
}

/// Where a selection in `pane` ends under the pointer.
pub open spec fn selection_end(
    s: RuntimeState,
    pane: PaneId,
    event: MouseEvent,
    sizes: PaneSizes,
) -> Seq<EffectView> {
    match s.layout {
        Some(layout) => match nearest_cell(layout, pane, event, size_of(sizes, pane)) {
            Some((row, col)) => {
                let key = key_of(s.workbench, pane);
                if running(s.sessions, key) is Some {
                    seq![EffectView::MoveSelection { key, row, col }]
                } else {
                    seq![]
                }
            },
            None => seq![],
        },
        None => seq![],
    }
}

/// Where the selection ends under the pointer.
pub open spec fn selection_dragged(
    s: RuntimeState,
    event: MouseEvent,
    sizes: PaneSizes,
) -> Seq<EffectView> {
    match s.workbench.selection {
        Some(selection) => selection_end(s, selection.pane, event, sizes),
        None => seq![],
    }
}

/// Where a press on a terminal begins a selection.
pub open spec fn selection_start(s: RuntimeState, target: MouseTarget) -> Option<EffectView> {
    match target {
        MouseTarget::Content { pane, row, col } => {
            let key = key_of(s.workbench, pane);
            if running(s.sessions, key) is Some {
                Some(EffectView::BeginSelection { key, row, col })
            } else {
                None
            }
        },
        _ => None,
    }
}

/// A press on a pane is dragged.
pub open spec fn press_dragged(
    s: RuntimeState,
    pending: PendingMouseGesture,
    event: MouseEvent,
    sizes: PaneSizes,
) -> Step {
    let start = if pending.dragging {
        None
    } else {
        selection_start(s, pending.target)
    };
    let after = PendingMouseGesture {
        moved: pending.moved || has_left(event, pending.down),
        dragging: pending.dragging || start is Some,
        current: event,
        ..pending
    };
    match start {
        Some(begin) => (
            RuntimeState { pending_mouse: Some(after), status: None, ..s },
            seq![begin] + selection_end(s, s.workbench.focused, event, sizes),
        ),
        None => (
            RuntimeState { pending_mouse: Some(after), ..s },
            if after.dragging {
                selection_dragged(s, event, sizes)
            } else {
                seq![]
            },
        ),
    }
}

/// The pointer moves while the left button is down.
pub open spec fn left_dragged(s: RuntimeState, event: MouseEvent, facts: MouseFacts) -> Step {
    match s.pending_layout {
        Some(PendingLayoutGesture::Handle { handle, origin, moved }) => quiet(
            RuntimeState {
                pending_layout: Some(
                    PendingLayoutGesture::Handle {
                        handle,
                        origin,
                        moved: moved || has_left(event, origin),
                    },
                ),
                ..s
            },
        ),
        Some(PendingLayoutGesture::Drag { divider, origin, layout, config }) => (
            RuntimeState {
                layout_config: dragged_config(
                    divider,
                    origin,
                    event,
                    layout,
                    config,
                    facts.minimums,
                ),
                ..s
            },
            seq![EffectView::Relayout],
        ),
        None => match s.pending_mouse {
            Some(pending) => press_dragged(s, pending, event, facts.sizes),
            None => quiet(s),
        },
    }
}

/// The layout is saved, if it can be.
pub open spec fn layout_saving(s: RuntimeState) -> Seq<EffectView> {
    if s.layout_store {
        seq![EffectView::SaveLayout]
    } else {
        seq![]
    }
}

/// Trust is to be given or taken.
pub open spec fn trust_changing(s: RuntimeState, trust: bool) -> Step {
    if s.trust_store {
        (s, seq![EffectView::PersistTrust(trust)])
    } else {
        quiet(with_status(s, "workspace trust persistence is unavailable"@))
    }
}

/// A trust line is clicked.
pub open spec fn trust_clicked(s: RuntimeState, target: SidebarTrustTarget) -> Step {
    match target {
        SidebarTrustTarget::Review => quiet(RuntimeState { trust_confirming: true, ..s }),
        SidebarTrustTarget::Cancel => quiet(RuntimeState { trust_confirming: false, ..s }),
        SidebarTrustTarget::Chrome => quiet(s),
        SidebarTrustTarget::ConfirmTrust => trust_changing(s, true),
        SidebarTrustTarget::Revoke => trust_changing(s, false),
    }
}

/// A row of the sidebar is clicked. The second of two clicks activates it.
pub open spec fn sidebar_clicked(s: RuntimeState, row: nat, now: u128) -> Step {
    match trust_target(trust_chrome(s), row) {
        Some(target) => trust_clicked(RuntimeState { last_sidebar_click: None, ..s }, target),
        None => {
            let (after, selected) = tree_row_selected(s, row);
            match selected {
                Some(path) => if is_second_click(s.last_sidebar_click, path.path, now) {
                    sidebar_activated(RuntimeState { last_sidebar_click: None, ..after })
                } else {
                    quiet(RuntimeState { last_sidebar_click: Some((path.path, now)), ..after })
                },
                None => quiet(RuntimeState { last_sidebar_click: None, ..after }),
            }
        },
    }
}

/// A terminal is clicked: its process hears of press and release, or is started
/// if it does not run.
pub open spec fn terminal_clicked(
    s: RuntimeState,
    pane: PaneId,
    row: u16,
    col: u16,
    down: MouseEvent,
    release: MouseEvent,
    sizes: PaneSizes,
) -> Step {
    let key = key_of(s.workbench, pane);
    match running(s.sessions, key) {
        Some(identity) => {
            let (release_row, release_col) = match s.layout {
                Some(layout) => match nearest_cell(layout, pane, release, size_of(sizes, pane)) {
                    Some(cell) => cell,
                    None => (row, col),
                },
                None => (row, col),
            };
            (
                s,
                seq![
                    EffectView::SendMouse { key, identity, event: moved_to(down, row, col) },
                    EffectView::SendMouse {
                        key,
                        identity,
                        event: moved_to(release, release_row, release_col),
                    },
                ],
            )
        },
        None => {
            let (sessions, effects) = retried(s.sessions, key);
            (RuntimeState { sessions, ..s }, session_effects(effects))
        },
    }
}

/// A press on a pane ends without a drag.
pub open spec fn click_finished(
    s: RuntimeState,
    pending: PendingMouseGesture,
    release: MouseEvent,
    sizes: PaneSizes,
    now: u128,
) -> Step {
    match pending.target {
        MouseTarget::Sidebar { .. } => match row_activated(pending, release) {
            Some(row) => sidebar_clicked(s, row as nat, now),
            None => quiet(s),
        },
        MouseTarget::Content { pane, row, col } => terminal_clicked(
            s,
            pane,
            row,
            col,
            pending.down,
            release,
            sizes,
        ),
        _ => quiet(s),
    }
}

/// A press on a handle or a divider ends.
pub open spec fn layout_gesture_finished(
    s: RuntimeState,
    gesture: PendingLayoutGesture,
    target: Option<MouseTarget>,
) -> Step {
    let s = RuntimeState { pending_layout: None, ..s };
    match gesture {
        PendingLayoutGesture::Handle { .. } => match handle_activated(gesture, target) {
            Some(handle) => (
                s,
                seq![EffectView::Toggle(handle), EffectView::Relayout] + layout_saving(s),
            ),
            None => quiet(s),
        },
        PendingLayoutGesture::Drag { .. } => (s, layout_saving(s)),
    }
}

/// The left button comes up.
pub open spec fn left_released(
    s: RuntimeState,
    event: MouseEvent,
    facts: MouseFacts,
    now: u128,
) -> Step {
    match s.pending_layout {
        Some(gesture) => layout_gesture_finished(s, gesture, facts.target),
        None => match s.pending_mouse {
            Some(pending) => {
                let s = RuntimeState { pending_mouse: None, ..s };
                if pending.dragging {
                    (s, selection_dragged(s, event, facts.sizes))
                } else {
                    click_finished(s, pending, event, facts.sizes, now)
                }
            },
            None => quiet(s),
        },
    }
}

/// Which way the wheel was turned: up (1), down (-1) or sideways.
pub open spec fn wheel_direction(kind: MouseEventKind) -> i32 {
    match kind {
        MouseEventKind::ScrollUp => 1,
        MouseEventKind::ScrollDown => -1i32,
        _ => 0,
    }
}

/// The wheel is turned. A selection scrolls with it; otherwise a process that
/// wants to hear of the mouse takes it.
pub open spec fn wheel_turned(s: RuntimeState, event: MouseEvent, facts: MouseFacts) -> Step {
    let direction = wheel_direction(event.kind);
    match facts.target {
        Some(MouseTarget::Sidebar { .. }) => sidebar_scrolled(s, direction),
        Some(MouseTarget::Border(PaneId::Sidebar)) => sidebar_scrolled(s, direction),
        Some(MouseTarget::Content { pane, row, col }) => {
            let key = key_of(s.workbench, pane);
            match running(s.sessions, key) {
                Some(identity) => if direction != 0 && (selects_in(s.workbench, pane)
                    || !facts.mouse_reporting) {
                    (
                        s,
                        seq![
                            EffectView::ScrollViewport {
                                key,
                                lines: (direction * MOUSE_WHEEL_LINES) as i32,
                            },
                        ],
                    )
                } else if facts.mouse_reporting {
                    (
                        s,
                        seq![
                            EffectView::SendMouse {
                                key,
                                identity,
                                event: moved_to(event, row, col),
                            },
                        ],
                    )
                } else {
                    quiet(s)
                },
                None => quiet(s),
            }
        },
        _ => quiet(s),
    }
}

/// The sidebar scrolls.
pub open spec fn sidebar_scrolled(s: RuntimeState, direction: i32) -> Step {
    quiet(
        match s.sidebar {
            Some(sidebar) => RuntimeState {
                sidebar: Some(
                    SidebarState {
                        scroll: scrolled(
                            sidebar,
                            -(direction * MOUSE_WHEEL_LINES),
                            visible_tree_rows(s),
                        ),
                        ..sidebar
                    },
                ),
                ..s
            },
            None => s,
        },
    )
}

/// The pointer moves over a terminal.
pub open spec fn motion_forwarded(
    s: RuntimeState,
    event: MouseEvent,
    target: Option<MouseTarget>,
) -> Seq<EffectView> {
    match target {
        Some(MouseTarget::Content { pane, row, col }) => {
            let key = key_of(s.workbench, pane);
            match running(s.sessions, key) {
                Some(identity) => seq![
                    EffectView::SendMouse { key, identity, event: moved_to(event, row, col) },
                ],
                None => seq![],
            }
        },
        _ => seq![],
    }
}

/// The mouse when no menu takes it.
pub open spec fn pointer_used(
    s: RuntimeState,
    layout: WorkbenchLayout,
    event: MouseEvent,
    facts: MouseFacts,
    now: u128,
) -> Step {
    if event.kind == MouseEventKind::Down(MouseButton::Right) {
        quiet(right_pressed(s, event, facts.target))
    } else if is_in_tab_row(layout, event) {
        tab_row_clicked(s, event, facts.tab)
    } else {
        match event.kind {
            MouseEventKind::Down(MouseButton::Left) => left_pressed(
                s,
                event,
                facts.target,
                layout,
                now,
            ),
            MouseEventKind::Drag(MouseButton::Left) => left_dragged(s, event, facts),
            MouseEventKind::Up(MouseButton::Left) => left_released(s, event, facts, now),
            MouseEventKind::Moved => (s, motion_forwarded(s, event, facts.target)),
            MouseEventKind::ScrollUp => wheel_turned(s, event, facts),
            MouseEventKind::ScrollDown => wheel_turned(s, event, facts),
            MouseEventKind::ScrollLeft => wheel_turned(s, event, facts),
            MouseEventKind::ScrollRight => wheel_turned(s, event, facts),
            _ => quiet(s),
        }
    }
}

/// The mouse was used.
pub open spec fn mouse_used(
    s: RuntimeState,
    event: MouseEvent,
    facts: MouseFacts,
    now: u128,
) -> Step {
    match s.layout {
        None => quiet(s),
        Some(layout) => if is_waiting(s) {
            quiet(s)
        } else {
            let s = modals_closed(s);
            match s.context_menu {
                Some(context) => if event.kind == MouseEventKind::Moved {
                    quiet(
                        RuntimeState {
                            context_menu: Some(
                                ContextView {
                                    menu: MenuView {
                                        hovered: menu_action(
                                            context.menu,
                                            event.column,
                                            event.row,
                                        ),
                                        ..context.menu
                                    },
                                    ..context
                                },
                            ),
                            ..s
                        },
                    )
                } else if event.kind == MouseEventKind::Down(MouseButton::Left) {
                    menu_clicked(s, context, event)
                } else if event.kind == MouseEventKind::Down(MouseButton::Right) {
                    pointer_used(s, layout, event, facts, now)
                } else {
                    quiet(s)
                },
                None => pointer_used(s, layout, event, facts, now),
            }
        },
    }
}

/// A selection that is dragged to the edge scrolls from time to time.
pub open spec fn selection_ticked(s: RuntimeState, sizes: PaneSizes, now: u128) -> Step {
    match s.pending_mouse {
        Some(pending) => if !pending.dragging || now < pending.next_edge_scroll {
            quiet(s)
        } else {
            let s = RuntimeState {
                pending_mouse: Some(
                    PendingMouseGesture {
                        next_edge_scroll: (now + EDGE_SCROLL_INTERVAL) as u128,
                        ..pending
                    },
                ),
                ..s
            };
            match (s.layout, s.workbench.selection) {
                (Some(layout), Some(selection)) => {
                    let pane = selection.pane;
                    let lines = edge_scroll(layout, pane, pending.current);
                    let key = key_of(s.workbench, pane);
                    match nearest_cell(layout, pane, pending.current, size_of(sizes, pane)) {
                        Some((row, col)) => if lines != 0 && running(s.sessions, key) is Some {
                            (s, seq![EffectView::ScrollSelection { key, lines, row, col }])
                        } else {
                            quiet(s)
                        },
                        None => quiet(s),
                    }
                },
                _ => quiet(s),
            }
        },
        None => quiet(s),
    }
}

/// Whether a confirmation is still asked for after trust was looked at.
pub open spec fn still_confirming(
    confirming: bool,
    previous: WorkspaceTrustState,
    current: WorkspaceTrustState,
    resolve_failed: bool,
) -> bool {
    confirming && !resolve_failed && previous == current
}

/// Whether trust was gained or lost.
pub open spec fn capability_changed(
    previous: WorkspaceTrustState,
    current: WorkspaceTrustState,
) -> bool {
    (previous == WorkspaceTrustState::Trusted) != (current == WorkspaceTrustState::Trusted)
}

/// The process that has to be started anew when trust changes: the agent.
pub open spec fn restart_key(mode: LaunchMode) -> Option<SessionKey> {
    match mode {
        LaunchMode::Workbench => Some(SessionKey::Pane(PaneId::Agent)),
        LaunchMode::Pi => Some(SessionKey::Pane(PaneId::Editor)),
        _ => None,
    }
}

/// The agent is started anew.
pub open spec fn agent_restarted(s: RuntimeState) -> Step {
    match restart_key(s.launch_mode) {
        Some(key) => {
            let (sessions, effects) = restarted(s.sessions, key);
            (RuntimeState { sessions, ..s }, session_effects(effects))
        },
        None => quiet(s),
    }
}

/// The status no longer speaks of trust.
pub open spec fn trust_status_cleared(s: RuntimeState) -> RuntimeState {
    RuntimeState {
        status: if s.status == s.trust_status_message {
            None
        } else {
            s.status
        },
        trust_status_message: None,
        ..s
    }
}

/// The status says why trust is not known.
pub open spec fn trust_status_set(s: RuntimeState, error: Seq<char>) -> RuntimeState {
    let message = "workspace trust unavailable: "@ + error;
    RuntimeState { status: Some(message), trust_status_message: Some(message), ..s }
}

/// Trust was looked at again. Where it is not known, there is none.
pub open spec fn trust_refreshed(
    s: RuntimeState,
    resolved: Result<WorkspaceTrustState, Seq<char>>,
) -> Step {
    if !s.trust_store {
        quiet(RuntimeState { trust_state: WorkspaceTrustState::Untrusted, ..s })
    } else {
        let current = match resolved {
            Ok(state) => state,
            Err(_) => WorkspaceTrustState::Untrusted,
        };
        let known = RuntimeState {
            trust_state: current,
            trust_confirming: still_confirming(
                s.trust_confirming,
                s.trust_state,
                current,
                resolved is Err,
            ),
            ..s
        };
        let told = match resolved {
            Ok(_) => trust_status_cleared(known),
            Err(error) => trust_status_set(known, error),
        };
        if capability_changed(s.trust_state, current) {
            agent_restarted(told)
        } else {
            quiet(told)
        }
    }
}

/// Trust was given or taken, or could not be. Once it was written, the agent is
/// started anew, even where it is not known what was written.
pub open spec fn trust_persisted(
    s: RuntimeState,
    written: Result<(), Seq<char>>,
    resolved: Result<WorkspaceTrustState, Seq<char>>,
) -> Step {
    match written {
        Err(error) => quiet(with_status(s, "failed to save workspace trust: "@ + error)),
        Ok(()) => {
            let s = RuntimeState { trust_confirming: false, ..s };
            let told = match resolved {
                Ok(state) => RuntimeState {
                    status: None,
                    ..trust_status_cleared(RuntimeState { trust_state: state, ..s })
                },
                Err(error) => trust_status_set(
                    RuntimeState { trust_state: WorkspaceTrustState::Untrusted, ..s },
                    error,
                ),
            };
            agent_restarted(told)
        },
    }
}

/// A file operation has ended.
pub open spec fn operation_finished(
    s: RuntimeState,
    result: Result<(),
    Seq<char>>,
) -> RuntimeState {
    match result {
        Ok(()) => RuntimeState {
            sidebar_edit: None,
            sidebar_delete: None,
            status: None,
            ..s
        },
        Err(error) => RuntimeState {
            sidebar_edit: match s.sidebar_edit {
                Some(edit) => Some(
                    EditStateView { pending: false, error: Some(error), ..edit },
                ),
                None => None,
            },
            sidebar_delete: None,
            status: Some(error),
            ..s
        },
    }
}

pub open spec fn begins_with(text: Seq<char>, start: Seq<char>) -> bool {
    text.len() >= start.len() && text.take(start.len() as int) == start
}

/// Whether a status speaks of the saved layout.
pub open spec fn speaks_of_layout(status: Option<Seq<char>>) -> bool {
    match status {
        Some(status) => begins_with(status, "failed to save layout:"@) || begins_with(
            status,
            "saved layout ignored:"@,
        ),
        None => false,
    }
}

/// The layout was saved, or could not be.
pub open spec fn layout_saved(s: RuntimeState, result: Result<(), Seq<char>>) -> RuntimeState {
    match result {
        Ok(()) => if speaks_of_layout(s.status) {
            RuntimeState { status: None, ..s }
        } else {
            s
        },
        Err(error) => with_status(s, "failed to save layout: "@ + error),
    }
}

/// The screen may have another size.
pub open spec fn viewport_changed(s: RuntimeState, area: Rect) -> RuntimeState {
    if s.viewport_area == area {
        s
    } else {
        RuntimeState { context_menu: None, viewport_area: area, ..gesture_canceled(s) }
    }
}

/// The panes are laid out anew: gestures and menus over the old layout end.
pub open spec fn layout_changed(s: RuntimeState, layout: WorkbenchLayout, clear: bool) -> Step {
    let (after, effects) = if s.layout == Some(layout) {
        quiet(s)
    } else {
        let s = RuntimeState { pending_mouse: None, context_menu: None, ..s };
        if clear {
            selection_cleared(s)
        } else {
            quiet(s)
        }
    };
    (RuntimeState { layout: Some(layout), ..after }, effects)
}

pub open spec fn is_large_enough(area: Rect, width: u16, height: u16) -> bool {
    area.width >= width && area.height >= height
}

/// Which terminals get which size. One that has no room keeps its size.
pub open spec fn resize_plan(
    layout: WorkbenchLayout,
    tabs: Seq<ShellTabId>,
    sizes: PaneSizes,
    minimums: PaneMinimums,
) -> Seq<(SessionKey, TerminalSize)> {
    let editor = if is_large_enough(
        layout.editor,
        minimums.terminal_width,
        minimums.terminal_height,
    ) {
        seq![(SessionKey::Pane(PaneId::Editor), sizes.editor)]
    } else {
        seq![]
    };
    let agent = if is_large_enough(
        layout.agent,
        minimums.terminal_width,
        minimums.terminal_height,
    ) {
        seq![(SessionKey::Pane(PaneId::Agent), sizes.agent)]
    } else {
        seq![]
    };
    let shells = if is_large_enough(
        layout.bottom,
        minimums.terminal_width,
        minimums.shell_height,
    ) {
        tabs.map_values(|id: ShellTabId| (SessionKey::Shell(id), sizes.shell))
    } else {
        seq![]
    };
    editor + agent + shells
}

/// Terminals get their sizes, one by one.
pub open spec fn terminals_resized(
    r: RegistryView,
    plan: Seq<(SessionKey, TerminalSize)>,
) -> (RegistryView, Seq<EffectView>)
    decreases plan.len(),
{
    if plan.len() == 0 {
        (r, seq![])
    } else {
        let (before, effects) = terminals_resized(r, plan.drop_last());
        let (key, size) = plan.last();
        (
            resized(before, key, size),
            match running(before, key) {
                Some(identity) => effects.push(
                    EffectView::ResizeSession { key, identity, size },
                ),
                None => effects,
            },
        )
    }
}

/// The program takes its place on the screen.
pub open spec fn resize_finished(
    s: RuntimeState,
    layout: Option<WorkbenchLayout>,
    clear: bool,
    tabs: Seq<ShellTabId>,
    sizes: PaneSizes,
    minimums: PaneMinimums,
) -> Step {
    let (laid, effects) = match layout {
        Some(layout) => layout_changed(s, layout, clear),
        None => quiet(s),
    };
    let plan = match layout {
        Some(layout) => resize_plan(layout, tabs, sizes, minimums),
        None => seq![(SessionKey::Pane(PaneId::Editor), sizes.editor)],
    };
    let (sessions, more) = terminals_resized(laid.sessions, plan);
    (RuntimeState { sessions, ..laid }, effects + more)
}

/// A tab was closed.
pub open spec fn tab_closed(
    s: RuntimeState,
    closed: Option<(ShellTabId, Option<ShellTabId>)>,
    active: ShellTabId,
) -> Step {
    let s = RuntimeState {
        workbench: WorkbenchState { active_shell: active, ..s.workbench },
        ..s
    };
    match closed {
        Some((removed, replacement)) => {
            let (sessions, effects) = shell_closed(s.sessions, removed, replacement);
            (RuntimeState { sessions, ..s }, session_effects(effects))
        },
        None => quiet(s),
    }
}

/// A selection begins at a place in the text of the pane that has the focus.
pub open spec fn selection_begun(s: RuntimeState, point: TerminalPoint) -> RuntimeState {
    RuntimeState {
        workbench: WorkbenchState {
            selection: Some(
                Selection { pane: s.workbench.focused, anchor: point, head: point },
            ),
            ..s.workbench
        },
        ..s
    }
}

/// A selection ends at another place in the text.
pub open spec fn selection_moved(s: RuntimeState, point: TerminalPoint) -> RuntimeState {
    match s.workbench.selection {
        Some(selection) => RuntimeState {
            workbench: WorkbenchState {
                selection: Some(Selection { head: point, ..selection }),
                ..s.workbench
            },
            ..s
        },
        None => s,
    }
}

} // verus!
