//! What keys, pastes and menus do: copying, pasting, entering names, and the
//! file operations that are asked for.

use vstd::prelude::*;
use vstd::string::*;

use crate::context_menu::{menu_action, opened, ContextMenuAction, MenuItem, MenuView};
use crate::geometry::Rect;
use crate::input::{
    copies, pastes, quits, typed_character, KeyCode, KeyEvent, MouseButton, MouseEvent,
    MouseEventKind,
};
use crate::jobs::MutationView;
use crate::path::{written_parent, WrittenPath};
use crate::runtime_replies::{copy_answered, ends_program, event_taken, Event};
use crate::runtime_state::{
    clipboard_answered, file_opened, key_of, key_pressed, mouse_used, paste_received,
    selection_begun, selection_moved, visible_tree_rows, ContextView, DeleteView, EditStateView,
    EffectView, MouseFacts, RuntimeState,
};
use crate::session_laws::can_start;
use crate::sessions::{editor_takes_files, running, DeliveryView, SessionEffect, SessionIdentity};
use crate::sidebar_laws::law_path_is_brought_into_view;
use crate::sidebar_view::SidebarEditKind;
use crate::state::{all_rows, expand_requested, row_paths, SidebarState};
use crate::text::lossy_text;
use crate::tree::EntryKind;
use crate::trust::WorkspaceTrustState;
use crate::workbench::{LaunchMode, MouseTarget, PaneId, Selection, TerminalPoint, WorkbenchState};

verus! {

/// Whether keys reach the panes: no menu is open, no name is being entered,
/// nothing is asked, and no button is held.
pub open spec fn takes_keys(s: RuntimeState) -> bool {
    &&& s.context_menu is None
    &&& s.sidebar_edit is None
    &&& s.sidebar_delete is None
    &&& s.pending_mouse is None
    &&& s.pending_layout is None
}

/// Control is the second bit of the modifiers, Alt the third and Super the
/// fourth. Control and Q end the program and no other key does; Super and C
/// copy, as do Control and C while text is selected; Super and V paste.
pub proof fn law_shortcuts(key: KeyEvent, selects: bool)
    ensures
        ({
            let control = key.modifiers.bits & 2 == 2;
            let super_key = key.modifiers.bits & 8 == 8;
            &&& ends_program(Event::Key(key)) <==> key.code == KeyCode::Char('q') && control
            &&& quits(key) <==> key.code == KeyCode::Char('q') && control
            &&& copies(key, selects) <==> key.code == KeyCode::Char('c') && (super_key || (selects
                && control))
            &&& pastes(key) <==> key.code == KeyCode::Char('v') && super_key
        }),
{
}

/// A key types its character unless Control or Alt is held with it.
pub proof fn law_typed_characters(key: KeyEvent)
    ensures
        (key.code matches KeyCode::Char(character) && key.modifiers.bits & 6 == 0) ==> (key.code
            matches KeyCode::Char(character) && typed_character(key) == Some(character)),
        typed_character(key) is Some ==> key.code == KeyCode::Char(typed_character(key)->0)
            && key.modifiers.bits & 6 == 0,
{
    assert(2u8 | 4u8 == 6u8) by (bit_vector);
}

/// The copying keys hand what is selected to the clipboard and keep the
/// selection. Where the process is gone the status says so instead.
pub proof fn law_copy_key_copies(s: RuntimeState, key: KeyEvent)
    requires
        takes_keys(s),
        s.workbench.selection is Some,
        key.code == KeyCode::Char('c'),
        key.modifiers.bits & 8 == 8 || key.modifiers.bits & 2 == 2,
    ensures
        ({
            let selection = s.workbench.selection->0;
            let place = key_of(s.workbench, selection.pane);
            let (after, effects) = key_pressed(s, key);
            &&& after.workbench == s.workbench
            &&& running(s.sessions, place) is Some ==> effects =~= seq![
                EffectView::CopySelection { key: place, selection },
            ] && after == s
            &&& running(s.sessions, place) is None ==> effects =~= seq![] && after
                == (RuntimeState { status: Some("selected pane is unavailable"@), ..s })
        }),
{
}

/// Super and C copy nothing and reach no process while nothing is selected.
pub proof fn law_nothing_selected_nothing_copied(s: RuntimeState, key: KeyEvent)
    requires
        takes_keys(s),
        s.workbench.selection is None,
        key.code == KeyCode::Char('c'),
        key.modifiers.bits & 8 == 8,
    ensures
        key_pressed(s, key).0 == s,
        key_pressed(s, key).1 =~= seq![],
{
}

/// The pasting key gives up the selection and reads the clipboard.
pub proof fn law_paste_key_reads_the_clipboard(s: RuntimeState, key: KeyEvent)
    requires
        takes_keys(s),
        key.code == KeyCode::Char('v'),
        key.modifiers.bits & 8 == 8,
    ensures
        ({
            let (after, effects) = key_pressed(s, key);
            &&& after == (RuntimeState {
                workbench: WorkbenchState { selection: None, ..s.workbench },
                ..s
            })
            &&& effects.len() > 0
            &&& effects.last() is ReadClipboard
            &&& effects.len() <= 2
            &&& effects.len() == 2 ==> s.workbench.selection is Some && effects[0]
                == EffectView::ResetScrollback(
                key_of(s.workbench, s.workbench.selection->0.pane),
            )
            &&& s.workbench.selection is None ==> effects.len() == 1
        }),
{
}

/// The pane that keys go to: the one that has the focus, or the only one there
/// is.
pub open spec fn typed_into(s: RuntimeState) -> PaneId {
    if s.launch_mode == LaunchMode::Workbench {
        s.workbench.focused
    } else {
        PaneId::Editor
    }
}

/// What was read from the clipboard goes to the process of the pane that has
/// the focus, unchanged.
pub proof fn law_clipboard_is_pasted(s: RuntimeState, contents: Seq<char>, error: Seq<char>)
    ensures
        ({
            let key = key_of(s.workbench, typed_into(s));
            let (after, effects) = clipboard_answered(s, Ok(contents));
            &&& running(s.sessions, key) matches Some(identity) ==> after == s && effects =~= seq![
                EffectView::SendPaste { key, identity, contents },
            ]
            &&& running(s.sessions, key) is None ==> effects =~= seq![] && after
                == (RuntimeState { status: Some("focused pane does not accept paste"@), ..s })
        }),
        clipboard_answered(s, Err(error)).1 =~= seq![],
        clipboard_answered(s, Err(error)).0 == (RuntimeState {
            status: Some("clipboard error: "@ + error),
            ..s
        }),
        copy_answered(s, Ok(())) == (RuntimeState { status: None, ..s }),
        copy_answered(s, Err(error)) == (RuntimeState {
            status: Some("clipboard error: "@ + error),
            ..s
        }),
{
}

/// A text that the terminal pastes goes to the pane that has the focus, or to
/// the end of the name that is being entered.
pub proof fn law_pasted_text_arrives(s: RuntimeState, contents: Seq<char>)
    ensures
        takes_keys(s) && s.workbench.selection is None ==> ({
            let key = key_of(s.workbench, typed_into(s));
            let (after, effects) = paste_received(s, contents);
            &&& running(s.sessions, key) matches Some(identity) ==> after == s && effects =~= seq![
                EffectView::SendPaste { key, identity, contents },
            ]
            &&& running(s.sessions, key) is None ==> effects =~= seq![] && after
                == (RuntimeState { status: Some("focused pane does not accept paste"@), ..s })
        }),
        s.sidebar_edit is Some ==> ({
            let edit = s.sidebar_edit->0;
            let (after, effects) = paste_received(s, contents);
            &&& effects =~= seq![]
            &&& edit.pending ==> after == s
            &&& !edit.pending ==> after == (RuntimeState {
                sidebar_edit: Some(
                    EditStateView { value: edit.value + contents, error: None, ..edit },
                ),
                ..s
            })
        }),
{
}

/// A key that means nothing to the program goes to the process of the pane that
/// has the focus.
pub proof fn law_keys_reach_the_process(s: RuntimeState, key: KeyEvent)
    requires
        takes_keys(s),
        s.workbench.selection is None,
        !(key.code == KeyCode::Char('c') && key.modifiers.bits & 8 == 8),
        !(key.code == KeyCode::Char('v') && key.modifiers.bits & 8 == 8),
        !(key.code == KeyCode::Enter && typed_into(s) == PaneId::Sidebar),
        running(s.sessions, key_of(s.workbench, typed_into(s))) is Some,
    ensures
        key_pressed(s, key).0 == s,
        key_pressed(s, key).1 =~= seq![
            EffectView::SendKey {
                key: key_of(s.workbench, typed_into(s)),
                identity: running(s.sessions, key_of(s.workbench, typed_into(s)))->0,
            },
        ],
{
}

/// A key for a process that does not run starts it, and the key goes nowhere.
pub proof fn law_key_starts_the_process(s: RuntimeState, key: KeyEvent)
    requires
        takes_keys(s),
        s.workbench.selection is None,
        !(key.code == KeyCode::Char('c') && key.modifiers.bits & 8 == 8),
        !(key.code == KeyCode::Char('v') && key.modifiers.bits & 8 == 8),
        !(key.code == KeyCode::Enter && typed_into(s) == PaneId::Sidebar),
        can_start(s.sessions, key_of(s.workbench, typed_into(s))),
        running(s.sessions, key_of(s.workbench, typed_into(s))) is None,
    ensures
        ({
            let place = key_of(s.workbench, typed_into(s));
            let slot = s.sessions.slots[place];
            let (after, effects) = key_pressed(s, key);
            &&& effects =~= seq![
                EffectView::Session(SessionEffect::ResetPolicy(place)),
                EffectView::Session(
                    SessionEffect::Spawn {
                        key: place,
                        identity: SessionIdentity {
                            id: s.sessions.next_id,
                            generation: (slot.generation + 1) as u64,
                        },
                        size: slot.size,
                    },
                ),
            ]
            &&& after.sessions.slots[place].state is Starting
            &&& after.status == s.status
            &&& after.workbench == s.workbench
            &&& after.sidebar == s.sidebar
        }),
{
}

/// A key that is typed ends the selection first.
pub proof fn law_typing_ends_the_selection(s: RuntimeState, key: KeyEvent)
    requires
        takes_keys(s),
        s.workbench.selection is Some,
        key.code != KeyCode::Char('c'),
        running(s.sessions, key_of(s.workbench, s.workbench.selection->0.pane)) is Some,
    ensures
        key_pressed(s, key).0.workbench.selection is None,
        key_pressed(s, key).1.len() > 0,
        key_pressed(s, key).1[0] == EffectView::ResetScrollback(
            key_of(s.workbench, s.workbench.selection->0.pane),
        ),
{
}

/// A key or a button given up takes back a border that is being dragged.
pub proof fn law_key_gives_up_a_drag(s: RuntimeState, key: KeyEvent)
    requires
        s.pending_layout is Some,
        s.pending_layout->0 is Drag,
    ensures
        key_pressed(s, key).0.pending_layout is None,
        key_pressed(s, key).0.pending_mouse is None,
        key_pressed(s, key).0.layout_config == s.pending_layout->0->config,
{
}

/// Whether the worker can take a file operation now.
pub open spec fn worker_is_ready(sidebar: SidebarState) -> bool {
    &&& sidebar.pending_mutation is None
    &&& !sidebar.worker_lost
    &&& sidebar.queue.len() < sidebar.config.channel_capacity
}

/// Enter hands the worker what the name was entered for, as the last job of its
/// queue: a new file or a new folder of that name in the directory, or another
/// name for the file. The name can no longer be changed.
pub proof fn law_entered_name_is_put_to_use(s: RuntimeState, key: KeyEvent)
    requires
        key.code == KeyCode::Enter,
        s.sidebar_delete is None,
        s.sidebar_edit is Some,
        !s.sidebar_edit->0.pending,
        s.sidebar is Some,
        worker_is_ready(s.sidebar->0),
    ensures
        ({
            let edit = s.sidebar_edit->0;
            let before = s.sidebar->0;
            let (after, effects) = key_pressed(s, key);
            let sidebar = after.sidebar->0;
            let job = sidebar.queue.last();
            &&& effects =~= seq![]
            &&& after.sidebar is Some
            &&& sidebar.queue =~= before.queue.push(job)
            &&& sidebar.tree == before.tree
            &&& job is Mutation
            &&& job->Mutation_id == before.next_id
            &&& sidebar.pending_mutation == Some(before.next_id)
            &&& job->Mutation_trust == before.trust
            &&& job->Mutation_root == (WrittenPath { path: before.root, text: before.root_text })
            &&& edit.kind == SidebarEditKind::NewFile ==> job->mutation
                == (MutationView::CreateFile { parent: edit.target, name: edit.value })
            &&& edit.kind == SidebarEditKind::NewFolder ==> job->mutation
                == (MutationView::CreateDirectory { parent: edit.target, name: edit.value })
            &&& edit.kind == SidebarEditKind::Rename ==> job->mutation == (MutationView::Rename {
                source: edit.target,
                name: edit.value,
            })
            &&& after.sidebar_edit == Some(EditStateView { pending: true, error: None, ..edit })
            &&& after.status == Some("sidebar file operation pending"@)
        }),
{
}

/// Where the worker cannot take it, nothing is asked for, the name stays to be
/// entered, and the reason is shown.
pub proof fn law_refused_name_stays(s: RuntimeState, key: KeyEvent)
    requires
        key.code == KeyCode::Enter,
        s.sidebar_delete is None,
        s.sidebar_edit is Some,
        !s.sidebar_edit->0.pending,
        s.sidebar is Some,
        !worker_is_ready(s.sidebar->0),
    ensures
        ({
            let edit = s.sidebar_edit->0;
            let after = key_pressed(s, key).0;
            let reason = if s.sidebar->0.pending_mutation is Some {
                "a sidebar file operation is already pending"@
            } else if s.sidebar->0.worker_lost {
                "sidebar worker is unavailable"@
            } else {
                "sidebar worker is busy"@
            };
            &&& after.sidebar->0.queue == s.sidebar->0.queue
            &&& after.sidebar_edit == Some(EditStateView { error: Some(reason), ..edit })
            &&& after.status == Some(reason)
        }),
{
}

/// While a name is being entered, characters are added at its end, Backspace
/// takes the last one away, and Esc gives up. Other keys do nothing, and no key
/// reaches a process.
pub proof fn law_name_is_entered(s: RuntimeState, key: KeyEvent, character: char)
    requires
        takes_keys(RuntimeState { sidebar_edit: None, ..s }),
        s.sidebar_edit is Some,
        !s.sidebar_edit->0.pending,
    ensures
        ({
            let edit = s.sidebar_edit->0;
            let (after, effects) = key_pressed(s, key);
            &&& effects =~= seq![]
            &&& key.code != KeyCode::Enter ==> after.sidebar == s.sidebar
            &&& key.code == KeyCode::Esc ==> after == (RuntimeState {
                sidebar_edit: None,
                status: None,
                ..s
            })
            &&& key.code == KeyCode::Char(character) && key.modifiers.bits & 6 == 0 ==> after
                == (RuntimeState {
                sidebar_edit: Some(
                    EditStateView { value: edit.value.push(character), error: None, ..edit },
                ),
                status: None,
                ..s
            })
            &&& key.code == KeyCode::Char(character) && key.modifiers.bits & 6 != 0 ==> after == s
            &&& key.code == KeyCode::Other ==> after == s
            &&& key.code == KeyCode::Backspace && edit.value.len() > 0 ==> after
                == (RuntimeState {
                sidebar_edit: Some(
                    EditStateView {
                        value: edit.value.take(edit.value.len() - 1),
                        error: None,
                        ..edit
                    },
                ),
                status: None,
                ..s
            })
            &&& key.code == KeyCode::Backspace && edit.value.len() == 0 ==> after.sidebar_edit
                == Some(EditStateView { error: None, ..edit })
        }),
{
    assert(2u8 | 4u8 == 6u8) by (bit_vector);
    let edit = s.sidebar_edit->0;
    if edit.value.len() > 0 {
        assert(edit.value.drop_last() =~= edit.value.take(edit.value.len() - 1));
    }
}

/// Enter in answer to the question moves the file to the trash: that is handed
/// to the worker as the last job of its queue. Esc leaves the file, and other
/// keys leave the question.
pub proof fn law_deletion_is_confirmed(s: RuntimeState, key: KeyEvent)
    requires
        takes_keys(RuntimeState { sidebar_delete: None, ..s }),
        s.sidebar_delete is Some,
        !s.sidebar_delete->0.pending,
        s.sidebar is Some,
    ensures
        ({
            let target = s.sidebar_delete->0.target;
            let before = s.sidebar->0;
            let (after, effects) = key_pressed(s, key);
            let job = after.sidebar->0.queue.last();
            &&& effects =~= seq![]
            &&& key.code == KeyCode::Esc ==> after == (RuntimeState {
                sidebar_delete: None,
                status: None,
                ..s
            })
            &&& key.code != KeyCode::Esc && key.code != KeyCode::Enter ==> after == s
            &&& key.code == KeyCode::Enter && worker_is_ready(before) ==> {
                &&& after.sidebar->0.queue =~= before.queue.push(job)
                &&& job is Mutation
                &&& job->mutation == (MutationView::Trash { target })
                &&& job->Mutation_trust == before.trust
                &&& after.sidebar_delete == Some(DeleteView { target, pending: true })
                &&& after.status == Some(
                    "moving "@ + lossy_text(target.text) + " to trash..."@,
                )
            }
            &&& key.code == KeyCode::Enter && !worker_is_ready(before) ==> {
                &&& after.sidebar->0.queue == before.queue
                &&& after.sidebar_delete == s.sidebar_delete
                &&& after.status is Some
            }
        }),
{
}

/// Whether a cell shows an item of the menu that can be chosen: the item of the
/// given number, counted from the line below the top border.
pub open spec fn is_on_item(menu: MenuView, event: MouseEvent, index: int) -> bool {
    &&& 0 <= index < menu.items.len()
    &&& event.row == menu.area.y + 1 + index
    &&& menu.area.y + menu.area.height <= u16::MAX
    &&& menu.area.x + menu.area.width <= u16::MAX
    &&& event.row + 1 < menu.area.y + menu.area.height
    &&& menu.area.x < event.column
    &&& event.column + 1 < menu.area.x + menu.area.width
}

/// The lines of a menu are its items, from the top: a cell of a line belongs to
/// its item, and an item that is disabled cannot be chosen.
pub proof fn law_menu_lines_are_its_items(menu: MenuView, event: MouseEvent, index: int)
    requires
        is_on_item(menu, event, index),
    ensures
        menu.items[index].enabled ==> menu_action(menu, event.column, event.row) == Some(
            menu.items[index].action,
        ),
        !menu.items[index].enabled ==> menu_action(menu, event.column, event.row) is None,
{
}

/// Whether a menu is open and the mouse is for it.
pub open spec fn has_menu(s: RuntimeState, context: ContextView) -> bool {
    &&& s.layout is Some
    &&& s.sidebar_edit is None
    &&& s.sidebar_delete is None
    &&& s.context_menu == Some(context)
}

/// The border of a menu, and everything outside it, belongs to no item.
pub proof fn law_menu_border_is_no_item(menu: MenuView, column: u16, row: u16)
    requires
        menu.area.y + menu.area.height <= u16::MAX,
        menu.area.x + menu.area.width <= u16::MAX,
        column <= menu.area.x || column + 1 >= menu.area.x + menu.area.width || row <= menu.area.y
            || row + 1 >= menu.area.y + menu.area.height || row > menu.area.y + menu.items.len(),
    ensures
        menu_action(menu, column, row) is None,
{
}

/// A click on Copy hands what is selected to the clipboard, and nothing more:
/// the selection stays.
pub proof fn law_menu_copies(
    s: RuntimeState,
    context: ContextView,
    event: MouseEvent,
    facts: MouseFacts,
    now: u128,
    index: int,
)
    requires
        has_menu(s, context),
        event.kind == MouseEventKind::Down(MouseButton::Left),
        is_on_item(context.menu, event, index),
        context.menu.items[index] == (MenuItem { action: ContextMenuAction::Copy, enabled: true }),
        s.workbench.selection is Some,
        running(s.sessions, key_of(s.workbench, s.workbench.selection->0.pane)) is Some,
    ensures
        mouse_used(s, event, facts, now).0 == (RuntimeState { context_menu: None, ..s }),
        mouse_used(s, event, facts, now).1 =~= seq![
            EffectView::CopySelection {
                key: key_of(s.workbench, s.workbench.selection->0.pane),
                selection: s.workbench.selection->0,
            },
        ],
{
}

/// A click on Paste gives the menu's pane the focus, gives up the selection and
/// reads the clipboard. Nothing is copied.
pub proof fn law_menu_pastes(
    s: RuntimeState,
    context: ContextView,
    event: MouseEvent,
    facts: MouseFacts,
    now: u128,
    index: int,
)
    requires
        has_menu(s, context),
        event.kind == MouseEventKind::Down(MouseButton::Left),
        is_on_item(context.menu, event, index),
        context.menu.items[index] == (MenuItem { action: ContextMenuAction::Paste, enabled: true }),
    ensures
        ({
            let (after, effects) = mouse_used(s, event, facts, now);
            &&& after == (RuntimeState {
                context_menu: None,
                workbench: WorkbenchState {
                    focused: context.pane,
                    selection: None,
                    ..s.workbench
                },
                ..s
            })
            &&& effects.len() > 0
            &&& effects.last() is ReadClipboard
            &&& forall|i: int|
                0 <= i < effects.len() ==> !(#[trigger] effects[i] is CopySelection)
            &&& s.workbench.selection is None ==> effects.len() == 1
        }),
{
}

/// A click beside the items closes the menu and does nothing else, and a menu
/// marks the item that the pointer is over.
pub proof fn law_menu_is_left(
    s: RuntimeState,
    context: ContextView,
    event: MouseEvent,
    facts: MouseFacts,
    now: u128,
)
    requires
        has_menu(s, context),
    ensures
        event.kind == MouseEventKind::Down(MouseButton::Left) && menu_action(
            context.menu,
            event.column,
            event.row,
        ) is None ==> mouse_used(s, event, facts, now) == (
            RuntimeState { context_menu: None, ..s },
            Seq::<EffectView>::empty(),
        ),
        event.kind == MouseEventKind::Moved ==> mouse_used(s, event, facts, now) == (
            (RuntimeState {
                context_menu: Some(
                    ContextView {
                        menu: MenuView {
                            hovered: menu_action(context.menu, event.column, event.row),
                            ..context.menu
                        },
                        ..context
                    },
                ),
                ..s
            }),
            Seq::<EffectView>::empty(),
        ),
{
}

/// A key while a menu of a terminal is open closes it. Super and C copy where
/// the menu's pane holds the selection, Super and V paste.
pub proof fn law_menu_keys(s: RuntimeState, context: ContextView, key: KeyEvent)
    requires
        takes_keys(RuntimeState { context_menu: None, ..s }),
        s.context_menu == Some(context),
        context.sidebar_target is None,
    ensures
        ({
            let super_key = key.modifiers.bits & 8 == 8;
            let selects = s.workbench.selection is Some && s.workbench.selection->0.pane
                == context.pane;
            let (after, effects) = key_pressed(s, key);
            &&& after.context_menu is None
            &&& after.sidebar == s.sidebar
            &&& after.sessions == s.sessions
            &&& key.code == KeyCode::Char('c') && super_key && selects && running(
                s.sessions,
                key_of(s.workbench, context.pane),
            ) is Some ==> effects =~= seq![
                EffectView::CopySelection {
                    key: key_of(s.workbench, context.pane),
                    selection: s.workbench.selection->0,
                },
            ] && after == (RuntimeState { context_menu: None, ..s })
            &&& key.code == KeyCode::Char('v') && super_key ==> effects.len() > 0
                && effects.last() is ReadClipboard && after.workbench.selection is None
            &&& !(super_key && key.code == KeyCode::Char('v')) && !(super_key && key.code
                == KeyCode::Char('c') && selects) ==> effects =~= seq![] && after
                == (RuntimeState { context_menu: None, ..s })
        }),
{
}

/// A key while the sidebar's menu is open only closes it.
pub proof fn law_sidebar_menu_keys(s: RuntimeState, context: ContextView, key: KeyEvent)
    requires
        takes_keys(RuntimeState { context_menu: None, ..s }),
        s.context_menu == Some(context),
        context.sidebar_target is Some,
    ensures
        key_pressed(s, key).0 == (RuntimeState { context_menu: None, ..s }),
        key_pressed(s, key).1 =~= seq![],
{
}

/// The right button over a terminal opens its menu at the pointer: Copy, which
/// can be chosen while text is selected in that pane, and below it Paste. The
/// pane gets the focus, and the selection stays.
pub proof fn law_terminal_menu_opens(
    s: RuntimeState,
    event: MouseEvent,
    facts: MouseFacts,
    now: u128,
    pane: PaneId,
    row: u16,
    col: u16,
)
    requires
        s.layout is Some,
        s.sidebar_edit is None,
        s.sidebar_delete is None,
        s.pending_layout is None,
        event.kind == MouseEventKind::Down(MouseButton::Right),
        facts.target == Some(MouseTarget::Content { pane, row, col }),
    ensures
        ({
            let (after, effects) = mouse_used(s, event, facts, now);
            let context = after.context_menu->0;
            let selects = s.workbench.selection is Some && s.workbench.selection->0.pane == pane;
            &&& effects =~= seq![]
            &&& after.context_menu is Some
            &&& after.workbench == (WorkbenchState { focused: pane, ..s.workbench })
            &&& context.pane == pane
            &&& context.sidebar_target is None
            &&& !context.direct_target
            &&& context.menu.items.len() == 2
            &&& context.menu.items[0] == (MenuItem {
                action: ContextMenuAction::Copy,
                enabled: selects,
            })
            &&& context.menu.items[1] == (MenuItem {
                action: ContextMenuAction::Paste,
                enabled: true,
            })
            &&& context.menu.area == opened(
                s.viewport_area,
                event.column,
                event.row,
                context.menu.items,
            ).area
        }),
{
}

/// A menu of a few items opens with its corner at the pointer, eighteen cells
/// wide and two lines higher than its items, where there is room for it;
/// otherwise it is moved back just so far that it ends at the border of the
/// screen.
pub proof fn law_menu_opens_at_the_pointer(
    viewport: Rect,
    column: u16,
    row: u16,
    items: Seq<MenuItem>,
)
    requires
        items.len() <= 100,
        viewport.x + viewport.width <= u16::MAX,
        viewport.y + viewport.height <= u16::MAX,
        viewport.width >= 18,
        viewport.height >= items.len() + 2,
        viewport.x <= column,
        viewport.y <= row,
    ensures
        ({
            let menu = opened(viewport, column, row, items);
            let area = menu.area;
            let right = viewport.x + viewport.width;
            let bottom = viewport.y + viewport.height;
            &&& menu.items == items
            &&& menu.hovered is None
            &&& area.width == 18
            &&& area.height == items.len() + 2
            &&& column + 18 <= right ==> area.x == column
            &&& column + 18 > right ==> area.x + 18 == right
            &&& row + items.len() + 2 <= bottom ==> area.y == row
            &&& row + items.len() + 2 > bottom ==> area.y + items.len() + 2 == bottom
        }),
{
}

/// The right button over a row of the tree selects it and opens the sidebar's
/// menu about it: making files and folders can be chosen in a trusted workspace
/// unless the row is a link to a directory; renaming and deleting can be chosen
/// there unless the row is the root or a file that is gone.
pub proof fn law_sidebar_menu_opens(
    s: RuntimeState,
    event: MouseEvent,
    facts: MouseFacts,
    now: u128,
    row: u16,
    col: u16,
)
    requires
        s.layout is Some,
        s.sidebar_edit is None,
        s.sidebar_delete is None,
        s.pending_layout is None,
        s.sidebar is Some,
        event.kind == MouseEventKind::Down(MouseButton::Right),
        facts.target == Some(MouseTarget::Sidebar { row, col }),
        row >= (if s.trust_confirming {
            4int
        } else {
            1
        }),
    ensures
        ({
            let lines = if s.trust_confirming {
                4int
            } else {
                1
            };
            let sidebar = s.sidebar->0;
            let rows = all_rows(sidebar);
            let at = sidebar.scroll + row - lines;
            let height = crate::runtime_state::visible_tree_rows(s);
            let on_row = row - lines < height && at < rows.len();
            let (after, effects) = mouse_used(s, event, facts, now);
            let context = after.context_menu->0;
            let items = context.menu.items;
            let target = context.sidebar_target->0;
            let trusted = s.trust_state == WorkspaceTrustState::Trusted;
            &&& effects =~= seq![]
            &&& after.context_menu is Some
            &&& after.workbench == (WorkbenchState { focused: PaneId::Sidebar, ..s.workbench })
            &&& context.sidebar_target is Some
            &&& context.direct_target == on_row
            &&& on_row ==> target == (WrittenPath { path: rows[at].path, text: rows[at].text })
                && after.sidebar->0.selected == Some(target.path)
            &&& !on_row && sidebar.selected is None ==> target == (WrittenPath {
                path: sidebar.root,
                text: sidebar.root_text,
            })
            &&& !on_row && sidebar.selected is Some ==> target.path == sidebar.selected->0
            &&& items.len() == 4
            &&& items[0].action == ContextMenuAction::NewFile
            &&& items[1].action == ContextMenuAction::NewFolder
            &&& items[2].action == ContextMenuAction::Rename
            &&& items[3].action == ContextMenuAction::Delete
            &&& items[0].enabled == items[1].enabled
            &&& items[2].enabled == items[3].enabled
            &&& items[0].enabled <==> trusted && !(sidebar.tree.contains_key(target.path)
                && sidebar.tree[target.path].kind == EntryKind::SymlinkDirectory)
            &&& items[2].enabled <==> trusted && on_row && target.path != sidebar.root && !(
            sidebar.tree.contains_key(target.path) && sidebar.tree[target.path].kind
                == EntryKind::Deleted)
        }),
{
}

/// New File and New Folder let a name be entered, empty at first, in the
/// directory that the menu is about, or else in the directory that holds the
/// file. Which of the two was chosen is remembered.
pub proof fn law_menu_begins_a_new_entry(
    s: RuntimeState,
    context: ContextView,
    event: MouseEvent,
    facts: MouseFacts,
    now: u128,
    index: int,
    target: WrittenPath,
)
    requires
        has_menu(s, context),
        event.kind == MouseEventKind::Down(MouseButton::Left),
        is_on_item(context.menu, event, index),
        context.menu.items[index].enabled,
        context.menu.items[index].action == ContextMenuAction::NewFile
            || context.menu.items[index].action == ContextMenuAction::NewFolder,
        context.sidebar_target == Some(target),
        s.sidebar is Some,
        s.sidebar->0.tree.contains_key(target.path),
    ensures
        ({
            let (after, effects) = mouse_used(s, event, facts, now);
            let directory = s.sidebar->0.tree[target.path].kind.is_directory();
            let folder = context.menu.items[index].action == ContextMenuAction::NewFolder;
            let parent = if directory {
                Some(target)
            } else {
                written_parent(target)
            };
            &&& effects =~= seq![]
            &&& after.context_menu is None
            &&& after.sidebar_delete is None
            &&& parent is None ==> after.sidebar_edit is None
            &&& parent is Some ==> after.status is None && after.sidebar_edit == Some(
                EditStateView {
                    kind: if folder {
                        SidebarEditKind::NewFolder
                    } else {
                        SidebarEditKind::NewFile
                    },
                    target: parent->0,
                    value: Seq::empty(),
                    error: None,
                    pending: false,
                },
            )
            &&& parent matches Some(parent) ==> s.sidebar->0.tree.contains_key(parent.path)
                && s.sidebar->0.tree[parent.path].kind.is_directory()
                && s.sidebar->0.tree[parent.path].loaded ==> after.sidebar is Some
                && after.sidebar->0.tree[parent.path].expanded
        }),
{
}

/// Without a sidebar nothing can be done with a name, and that is told.
pub proof fn law_name_without_a_sidebar(s: RuntimeState, key: KeyEvent)
    requires
        s.sidebar is None,
        s.sidebar_delete is None,
        s.sidebar_edit is Some,
        !s.sidebar_edit->0.pending,
        key.code == KeyCode::Enter,
    ensures
        ({
            let (after, effects) = key_pressed(s, key);
            &&& effects =~= seq![]
            &&& after.status == Some("sidebar is unavailable"@)
            &&& after.sidebar_edit == Some(
                EditStateView { error: Some("sidebar is unavailable"@), ..s.sidebar_edit->0 },
            )
        }),
{
}

/// Where a name is to be entered in a directory that is shown, the directory and
/// the line below it are in view.
pub proof fn law_new_entry_has_room(
    s: RuntimeState,
    context: ContextView,
    event: MouseEvent,
    facts: MouseFacts,
    now: u128,
    index: int,
    target: WrittenPath,
    at: int,
)
    requires
        has_menu(s, context),
        event.kind == MouseEventKind::Down(MouseButton::Left),
        is_on_item(context.menu, event, index),
        context.menu.items[index].enabled,
        context.menu.items[index].action == ContextMenuAction::NewFile
            || context.menu.items[index].action == ContextMenuAction::NewFolder,
        context.sidebar_target == Some(target),
        s.sidebar is Some,
        s.sidebar->0.tree.contains_key(target.path),
        s.sidebar->0.tree[target.path].kind.is_directory(),
        visible_tree_rows(s) >= 2,
        ({
            let sidebar = mouse_used(s, event, facts, now).0.sidebar->0;
            &&& 0 <= at < all_rows(sidebar).len()
            &&& at + 1 < usize::MAX
            &&& all_rows(sidebar)[at].path == target.path
            &&& forall|i: int|
                0 <= i < at ==> (#[trigger] all_rows(sidebar)[i]).path != target.path
        }),
    ensures
        ({
            let sidebar = mouse_used(s, event, facts, now).0.sidebar->0;
            sidebar.scroll <= at && at + 1 < sidebar.scroll + visible_tree_rows(s)
        }),
{
    let expanded = expand_requested(s.sidebar->0, target.path, target.text).0;
    let after = mouse_used(s, event, facts, now).0.sidebar->0;
    let rows = all_rows(expanded);
    assert(all_rows(after) == rows);
    let paths = row_paths(rows);
    paths.index_of_first_ensures(target.path);
    assert(paths[at] == target.path);
    assert(paths.contains(target.path));
    let found = paths.index_of_first(target.path)->0;
    assert(paths[found] == rows[found].path);
    assert(found == at);
    law_path_is_brought_into_view(
        expanded.scroll,
        rows.len(),
        at as nat,
        visible_tree_rows(s),
        1,
    );
}

/// Enter on the sidebar activates the row that is selected, and the next click
/// is a first click.
pub proof fn law_enter_activates_the_selected_row(s: RuntimeState, key: KeyEvent)
    requires
        takes_keys(s),
        s.launch_mode is Workbench,
        s.workbench.focused == PaneId::Sidebar,
        s.workbench.selection is None,
        key.code == KeyCode::Enter,
        s.sidebar is Some,
        s.sidebar->0.selected is Some ==> s.sidebar->0.selected_text is Some,
    ensures
        ({
            let (after, effects) = key_pressed(s, key);
            let sidebar = s.sidebar->0;
            let selected = sidebar.selected->0;
            let node = sidebar.tree[selected];
            let known = sidebar.selected is Some && sidebar.tree.contains_key(selected);
            let opens = known && (node.kind == EntryKind::File || node.kind == EntryKind::Symlink)
                && node.error is None;
            &&& after.last_sidebar_click is None
            &&& after.sidebar is Some
            &&& known && node.kind.is_directory() && node.expanded
                ==> !after.sidebar->0.tree[selected].expanded
            &&& known && node.kind.is_directory() && !node.expanded && node.loaded
                ==> after.sidebar->0.tree[selected].expanded
            &&& opens && editor_takes_files(s.sessions) ==> effects =~= seq![
                EffectView::OpenFile(
                    WrittenPath { path: selected, text: sidebar.selected_text->0 },
                ),
            ]
            &&& opens && !editor_takes_files(s.sessions) ==> effects =~= seq![] && after.status
                == Some("editor unavailable; file was not opened"@)
            &&& !opens ==> effects =~= seq![]
        }),
{
}

/// Delete asks first: nothing is handed to the worker, and the question is about
/// the row that the menu was opened on.
pub proof fn law_menu_asks_before_deleting(
    s: RuntimeState,
    context: ContextView,
    event: MouseEvent,
    facts: MouseFacts,
    now: u128,
    index: int,
    target: WrittenPath,
)
    requires
        has_menu(s, context),
        event.kind == MouseEventKind::Down(MouseButton::Left),
        is_on_item(context.menu, event, index),
        context.menu.items[index] == (MenuItem { action: ContextMenuAction::Delete, enabled: true }),
        context.sidebar_target == Some(target),
        context.direct_target,
    ensures
        mouse_used(s, event, facts, now).1 =~= seq![],
        mouse_used(s, event, facts, now).0 == (RuntimeState {
            context_menu: None,
            status: Some(
                "move "@ + lossy_text(target.text) + " to trash? Enter confirm, Esc cancel"@,
            ),
            sidebar_delete: Some(DeleteView { target, pending: false }),
            ..s
        }),
{
}

/// Rename lets the name be changed that the row has, if it is text.
pub proof fn law_menu_begins_a_rename(
    s: RuntimeState,
    context: ContextView,
    event: MouseEvent,
    facts: MouseFacts,
    now: u128,
    index: int,
    target: WrittenPath,
    name: Seq<u8>,
)
    requires
        has_menu(s, context),
        event.kind == MouseEventKind::Down(MouseButton::Left),
        is_on_item(context.menu, event, index),
        context.menu.items[index] == (MenuItem { action: ContextMenuAction::Rename, enabled: true }),
        context.sidebar_target == Some(target),
        context.direct_target,
        target.path.len() > 0,
        target.path.last() == crate::path::Part::Normal(name),
    ensures
        ({
            let (after, effects) = mouse_used(s, event, facts, now);
            &&& effects =~= seq![]
            &&& after.sidebar == s.sidebar
            &&& after.context_menu is None
            &&& vstd::utf8::valid_utf8(name) ==> after.status is None && after.sidebar_edit
                == Some(
                EditStateView {
                    kind: SidebarEditKind::Rename,
                    target,
                    value: vstd::utf8::decode_utf8(name),
                    error: None,
                    pending: false,
                },
            )
            &&& !vstd::utf8::valid_utf8(name) ==> after.sidebar_edit is None && after.status
                == Some("non-UTF-8 names cannot be renamed in the sidebar"@)
        }),
{
}

/// A click beside what is being entered or asked closes it; a question, or a
/// name that was refused, takes its message along.
pub proof fn law_click_closes_what_is_asked(
    s: RuntimeState,
    event: MouseEvent,
    facts: MouseFacts,
    now: u128,
)
    requires
        s.layout is Some,
        s.context_menu is None,
        s.sidebar_edit is Some ==> !s.sidebar_edit->0.pending,
        s.sidebar_delete is Some ==> !s.sidebar_delete->0.pending,
        event.kind == MouseEventKind::Up(MouseButton::Middle),
    ensures
        mouse_used(s, event, facts, now).1 =~= seq![],
        mouse_used(s, event, facts, now).0.sidebar_edit is None,
        mouse_used(s, event, facts, now).0.sidebar_delete is None,
        s.sidebar_delete is Some ==> mouse_used(s, event, facts, now).0.status is None,
        s.sidebar_delete is None && (s.sidebar_edit is None || s.sidebar_edit->0.error is None)
            ==> mouse_used(s, event, facts, now).0.status == s.status,
{
}

/// A file that the editor opened gives it the focus; otherwise the focus stays,
/// and the status says why.
pub proof fn law_opened_file_gives_the_focus(s: RuntimeState, error: Seq<char>)
    ensures
        file_opened(s, DeliveryView::Opened) == (RuntimeState {
            workbench: WorkbenchState { focused: PaneId::Editor, ..s.workbench },
            status: None,
            ..s
        }),
        file_opened(s, DeliveryView::Unavailable) == (RuntimeState {
            status: Some("editor unavailable; file was not opened"@),
            ..s
        }),
        file_opened(s, DeliveryView::Failed(error)) == (RuntimeState {
            status: Some("failed to open file in editor: "@ + error),
            ..s
        }),
{
}

/// A selection begins in the pane that has the focus, both ends at one place;
/// moving its end leaves where it began.
pub proof fn law_selection_has_two_ends(
    s: RuntimeState,
    anchor: TerminalPoint,
    head: TerminalPoint,
)
    ensures
        selection_begun(s, anchor).workbench == (WorkbenchState {
            selection: Some(Selection { pane: s.workbench.focused, anchor, head: anchor }),
            ..s.workbench
        }),
        selection_moved(selection_begun(s, anchor), head).workbench.selection == Some(
            Selection { pane: s.workbench.focused, anchor, head },
        ),
        s.workbench.selection is None ==> selection_moved(s, head) == s,
{
}

/// Events reach the part of the program that they are for. The mouse is only
/// for the workbench.
pub proof fn law_events_are_told_apart(
    s: RuntimeState,
    key: KeyEvent,
    event: MouseEvent,
    facts: MouseFacts,
    now: u128,
)
    ensures
        event_taken(s, Event::Key(key), now) == key_pressed(s, key),
        s.launch_mode == LaunchMode::Workbench ==> event_taken(s, Event::Mouse(event, facts), now)
            == mouse_used(s, event, facts, now),
        s.launch_mode != LaunchMode::Workbench ==> event_taken(s, Event::Mouse(event, facts), now)
            == (s, Seq::<EffectView>::empty()),
        event_taken(s, Event::Other, now) == (s, Seq::<EffectView>::empty()),
{
}

} // verus!
