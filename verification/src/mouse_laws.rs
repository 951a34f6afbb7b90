//! What the mouse does over the sidebar, the terminals, the tabs and the
//! borders.

use vstd::prelude::*;

use crate::geometry::Rect;
use crate::input::{MouseButton, MouseEvent, MouseEventKind};
use crate::path::{Part, WrittenPath};
use crate::runtime_state::{
    is_in_tab_row, key_of, mouse_used, selection_ticked, size_of, tree_row_selected, trust_chrome,
    visible_tree_rows, EffectView, MouseFacts, RuntimeState,
};
use crate::session_laws::can_start;
use crate::sessions::{
    editor_takes_files, running, PaneSizes, SessionEffect, SessionIdentity, SessionKey,
};
use crate::state::{all_rows, SidebarState};
use crate::tree::EntryKind;
use crate::trust::trust_target;
use crate::workbench::{
    edge_scroll, nearest_cell, LayoutDivider, LayoutHandle, MouseTarget, PaneId,
    PendingLayoutGesture, ShellTabId, ShellTabTarget, TerminalSize, WorkbenchLayout,
    WorkbenchLayoutConfig, WorkbenchState,
};

verus! {

/// Whether the panes are shown and nothing lies over them: no menu is open, no
/// name is being entered and nothing is asked.
pub open spec fn is_free(s: RuntimeState) -> bool {
    &&& s.layout is Some
    &&& s.context_menu is None
    &&& s.sidebar_edit is None
    &&& s.sidebar_delete is None
}

/// Whether a rectangle ends where coordinates can still be told apart.
pub open spec fn fits(area: Rect) -> bool {
    area.x + area.width <= u16::MAX && area.y + area.height <= u16::MAX
}

/// Whether a cell lies in the line below the top border of the bottom pane,
/// between its side borders.
pub open spec fn is_on_tabs(layout: WorkbenchLayout, event: MouseEvent) -> bool {
    &&& layout.bottom.height > 0
    &&& event.row == layout.bottom.y + 1
    &&& layout.bottom.x < event.column
    &&& event.column + 1 < layout.bottom.x + layout.bottom.width
}

/// The tabs stand in the line below the top border of the bottom pane.
pub proof fn law_tabs_are_below_the_border(layout: WorkbenchLayout, event: MouseEvent)
    requires
        fits(layout.bottom),
    ensures
        is_in_tab_row(layout, event) <==> is_on_tabs(layout, event),
{
}

/// Whether the mouse is used over the panes themselves.
pub open spec fn is_over_panes(s: RuntimeState, event: MouseEvent) -> bool {
    &&& is_free(s)
    &&& fits(s.layout->0.bottom)
    &&& !is_on_tabs(s.layout->0, event)
}

/// The editor and the agent run in their panes, the tab that is shown in the
/// bottom pane.
pub proof fn law_panes_show_their_processes(workbench: WorkbenchState)
    ensures
        key_of(workbench, PaneId::Editor) == SessionKey::Pane(PaneId::Editor),
        key_of(workbench, PaneId::Agent) == SessionKey::Pane(PaneId::Agent),
        key_of(workbench, PaneId::Sidebar) == SessionKey::Pane(PaneId::Sidebar),
        key_of(workbench, PaneId::Bottom) == SessionKey::Shell(workbench.active_shell),
{
}

/// The tree has the rows between the borders of the sidebar that the trust
/// lines leave: one of them, or four while the user is asked to confirm.
pub proof fn law_tree_is_below_the_trust_lines(s: RuntimeState)
    ensures
        s.layout is None ==> visible_tree_rows(s) == 0,
        s.layout is Some ==> ({
            let room = s.layout->0.sidebar.height - 2 - (if s.trust_confirming {
                4int
            } else {
                1
            });
            visible_tree_rows(s) == if room >= 0 {
                room
            } else {
                0
            }
        }),
{
}

/// The wheel scrolls the tree by three rows: down towards the last rows, up
/// towards the first, never past either end. Nothing else changes.
pub proof fn law_wheel_scrolls_the_tree(
    s: RuntimeState,
    event: MouseEvent,
    facts: MouseFacts,
    now: u128,
)
    requires
        is_over_panes(s, event),
        s.sidebar is Some,
        facts.target is Some,
        facts.target->0 is Sidebar || facts.target->0 == MouseTarget::Border(PaneId::Sidebar),
        event.kind == MouseEventKind::ScrollDown || event.kind == MouseEventKind::ScrollUp,
    ensures
        ({
            let before = s.sidebar->0;
            let (after, effects) = mouse_used(s, event, facts, now);
            let scroll = after.sidebar->0.scroll;
            let rows = all_rows(before).len();
            let shown = visible_tree_rows(s);
            let last = if rows >= shown {
                rows - shown
            } else {
                0
            };
            let down = event.kind == MouseEventKind::ScrollDown;
            let wanted = if down {
                before.scroll + 3int
            } else {
                before.scroll - 3int
            };
            &&& effects =~= seq![]
            &&& after == (RuntimeState {
                sidebar: Some(SidebarState { scroll, ..before }),
                ..s
            })
            &&& 0 <= scroll <= last
            &&& 0 <= wanted <= last ==> scroll == wanted
            &&& wanted < 0 ==> scroll == 0
            &&& wanted > last ==> scroll == last
            &&& down && before.scroll + shown < rows ==> scroll > before.scroll
            &&& !down ==> scroll <= before.scroll
            &&& !down && 0 < before.scroll <= last ==> scroll < before.scroll
        }),
{
}

/// The wheel over a terminal that does not report the mouse, or in which text
/// is selected, scrolls its view: back by three lines when it is turned up,
/// forward by three when it is turned down. A terminal that reports the mouse
/// hears of the wheel instead, at the cell under the pointer.
pub proof fn law_wheel_over_a_terminal(
    s: RuntimeState,
    event: MouseEvent,
    facts: MouseFacts,
    now: u128,
    pane: PaneId,
    row: u16,
    col: u16,
)
    requires
        is_over_panes(s, event),
        facts.target == Some(MouseTarget::Content { pane, row, col }),
        event.kind == MouseEventKind::ScrollDown || event.kind == MouseEventKind::ScrollUp
            || event.kind == MouseEventKind::ScrollLeft || event.kind
            == MouseEventKind::ScrollRight,
    ensures
        ({
            let key = key_of(s.workbench, pane);
            let selects = s.workbench.selection is Some && s.workbench.selection->0.pane == pane;
            let (after, effects) = mouse_used(s, event, facts, now);
            &&& after == s
            &&& running(s.sessions, key) is None ==> effects =~= seq![]
            &&& running(s.sessions, key) matches Some(identity) ==> {
                &&& event.kind == MouseEventKind::ScrollUp && (selects || !facts.mouse_reporting)
                    ==> effects =~= seq![EffectView::ScrollViewport { key, lines: 3 }]
                &&& event.kind == MouseEventKind::ScrollDown && (selects || !facts.mouse_reporting)
                    ==> effects =~= seq![EffectView::ScrollViewport { key, lines: -3i32 }]
                &&& facts.mouse_reporting && !selects ==> effects =~= seq![
                    EffectView::SendMouse {
                        key,
                        identity,
                        event: MouseEvent { row, column: col, ..event },
                    },
                ]
                &&& event.kind != MouseEventKind::ScrollUp && event.kind
                    != MouseEventKind::ScrollDown && !facts.mouse_reporting ==> effects =~= seq![]
            }
        }),
{
}

/// A pointer that moves over a terminal tells its process the cell, and changes
/// nothing.
pub proof fn law_motion_is_told(
    s: RuntimeState,
    event: MouseEvent,
    facts: MouseFacts,
    now: u128,
    pane: PaneId,
    row: u16,
    col: u16,
)
    requires
        is_over_panes(s, event),
        event.kind == MouseEventKind::Moved,
    ensures
        mouse_used(s, event, facts, now).0 == s,
        !(facts.target is Some && facts.target->0 is Content) ==> mouse_used(
            s,
            event,
            facts,
            now,
        ).1 =~= seq![],
        facts.target == Some(MouseTarget::Content { pane, row, col }) ==> mouse_used(
            s,
            event,
            facts,
            now,
        ).1 =~= (match running(s.sessions, key_of(s.workbench, pane)) {
            Some(identity) => seq![
                EffectView::SendMouse {
                    key: key_of(s.workbench, pane),
                    identity,
                    event: MouseEvent { row, column: col, ..event },
                },
            ],
            None => seq![],
        }),
{
}

/// The left button on a pane gives the pane the focus and ends the selection
/// there is; a terminal that was scrolled back for it shows its end again.
pub proof fn law_press_gives_the_focus(
    s: RuntimeState,
    event: MouseEvent,
    facts: MouseFacts,
    now: u128,
    pane: PaneId,
)
    requires
        is_over_panes(s, event),
        s.pending_layout is None,
        event.kind == MouseEventKind::Down(MouseButton::Left),
        facts.target is Some,
        (facts.target->0 matches MouseTarget::Content { pane: under, .. } && under == pane) || (
        facts.target->0 is Sidebar && pane == PaneId::Sidebar) || facts.target->0
            == MouseTarget::Border(pane),
    ensures
        ({
            let (after, effects) = mouse_used(s, event, facts, now);
            &&& after.workbench.focused == pane
            &&& after.workbench.selection is None
            &&& after.workbench.active_shell == s.workbench.active_shell
            &&& after.sidebar == s.sidebar
            &&& after.sessions == s.sessions
            &&& after.layout_config == s.layout_config
            &&& after.pending_mouse is Some
            &&& after.pending_mouse->0.target == facts.target->0
            &&& after.pending_mouse->0.down == event
            &&& !after.pending_mouse->0.moved
            &&& !after.pending_mouse->0.dragging
            &&& now + 50_000_000 <= u128::MAX ==> after.pending_mouse->0.next_edge_scroll == now
                + 50_000_000
            &&& s.workbench.selection is None ==> effects =~= seq![]
            &&& s.workbench.selection matches Some(selection) ==> effects =~= (if running(
                s.sessions,
                key_of(s.workbench, selection.pane),
            ) is Some {
                seq![EffectView::ResetScrollback(key_of(s.workbench, selection.pane))]
            } else {
                seq![]
            })
        }),
{
}

/// What is done with the mouse where there is nothing has no effect, unless a
/// button was held before.
pub proof fn law_nothing_under_the_pointer(
    s: RuntimeState,
    event: MouseEvent,
    facts: MouseFacts,
    now: u128,
)
    requires
        is_over_panes(s, event),
        s.pending_layout is None,
        s.pending_mouse is None,
        facts.target is None,
        event.kind != MouseEventKind::Down(MouseButton::Right),
    ensures
        mouse_used(s, event, facts, now).0 == s,
        mouse_used(s, event, facts, now).1 =~= seq![],
{
}

/// A press and a release on one cell of a terminal are told to its process,
/// first the press and then the release.
pub proof fn law_click_reaches_the_terminal(
    s: RuntimeState,
    down: MouseEvent,
    up: MouseEvent,
    facts: MouseFacts,
    pane: PaneId,
    row: u16,
    col: u16,
    now: u128,
    later: u128,
)
    requires
        is_over_panes(s, down),
        s.pending_layout is None,
        down.kind == MouseEventKind::Down(MouseButton::Left),
        up.kind == MouseEventKind::Up(MouseButton::Left),
        up.row == down.row,
        up.column == down.column,
        facts.target == Some(MouseTarget::Content { pane, row, col }),
        running(s.sessions, key_of(s.workbench, pane)) is Some,
        nearest_cell(s.layout->0, pane, up, size_of(facts.sizes, pane)) == Some((row, col)),
    ensures
        ({
            let key = key_of(s.workbench, pane);
            let identity = running(s.sessions, key)->0;
            let pressed = mouse_used(s, down, facts, now).0;
            let (after, effects) = mouse_used(pressed, up, facts, later);
            &&& effects =~= seq![
                EffectView::SendMouse {
                    key,
                    identity,
                    event: MouseEvent { row, column: col, ..down },
                },
                EffectView::SendMouse {
                    key,
                    identity,
                    event: MouseEvent { row, column: col, ..up },
                },
            ]
            &&& after.pending_mouse is None
            &&& after.workbench == pressed.workbench
        }),
{
}

/// A click on a terminal whose process does not run starts the process.
pub proof fn law_click_starts_the_process(
    s: RuntimeState,
    up: MouseEvent,
    facts: MouseFacts,
    pane: PaneId,
    row: u16,
    col: u16,
    now: u128,
)
    requires
        is_over_panes(s, up),
        s.pending_layout is None,
        s.pending_mouse is Some,
        s.pending_mouse->0.target == (MouseTarget::Content { pane, row, col }),
        !s.pending_mouse->0.dragging,
        up.kind == MouseEventKind::Up(MouseButton::Left),
        can_start(s.sessions, key_of(s.workbench, pane)),
        running(s.sessions, key_of(s.workbench, pane)) is None,
    ensures
        ({
            let place = key_of(s.workbench, pane);
            let slot = s.sessions.slots[place];
            let (after, effects) = mouse_used(s, up, facts, now);
            &&& effects =~= seq![
                EffectView::Session(SessionEffect::ResetPolicy(place)),
                EffectView::Session(
                    SessionEffect::Spawn {
                        key: place,
                        identity: SessionIdentity {
                            id: s.sessions.next_id,
                            generation: (slot.generation + 1) as u64,
                        },
                        size: slot.size,
                    },
                ),
            ]
            &&& after.sessions.slots[place].state is Starting
            &&& after.pending_mouse is None
            &&& after.workbench == s.workbench
        }),
{
}

/// Dragging from a cell of a terminal begins a selection at that cell and ends
/// it under the pointer; dragging on only moves its end. The process hears of
/// none of it, and when the button comes up the end is set a last time.
pub proof fn law_drag_selects(
    s: RuntimeState,
    down: MouseEvent,
    drag: MouseEvent,
    facts: MouseFacts,
    pane: PaneId,
    row: u16,
    col: u16,
    now: u128,
    later: u128,
)
    requires
        is_over_panes(s, down),
        is_over_panes(s, drag),
        s.pending_layout is None,
        down.kind == MouseEventKind::Down(MouseButton::Left),
        drag.kind == MouseEventKind::Drag(MouseButton::Left),
        facts.target == Some(MouseTarget::Content { pane, row, col }),
        running(s.sessions, key_of(s.workbench, pane)) is Some,
        pane != PaneId::Sidebar,
    ensures
        ({
            let key = key_of(s.workbench, pane);
            let (to_row, to_col) = nearest_cell(
                s.layout->0,
                pane,
                drag,
                size_of(facts.sizes, pane),
            )->0;
            let pressed = mouse_used(s, down, facts, now).0;
            let (dragged, effects) = mouse_used(pressed, drag, facts, later);
            &&& effects =~= seq![
                EffectView::BeginSelection { key, row, col },
                EffectView::MoveSelection { key, row: to_row, col: to_col },
            ]
            &&& dragged.pending_mouse is Some
            &&& dragged.pending_mouse->0.dragging
            &&& dragged.status is None
        }),
{
}

/// While text is selected by dragging, the pointer moves the selection's end,
/// and so does the release of the button, which ends the gesture.
pub proof fn law_drag_moves_the_end(
    s: RuntimeState,
    event: MouseEvent,
    facts: MouseFacts,
    now: u128,
)
    requires
        is_over_panes(s, event),
        s.pending_layout is None,
        s.pending_mouse is Some,
        s.pending_mouse->0.dragging,
        s.workbench.selection is Some,
        s.workbench.selection->0.pane != PaneId::Sidebar,
        running(s.sessions, key_of(s.workbench, s.workbench.selection->0.pane)) is Some,
        event.kind == MouseEventKind::Drag(MouseButton::Left) || event.kind == MouseEventKind::Up(
            MouseButton::Left,
        ),
    ensures
        ({
            let pane = s.workbench.selection->0.pane;
            let (row, col) = nearest_cell(
                s.layout->0,
                pane,
                event,
                size_of(facts.sizes, pane),
            )->0;
            let (after, effects) = mouse_used(s, event, facts, now);
            &&& effects =~= seq![
                EffectView::MoveSelection { key: key_of(s.workbench, pane), row, col },
            ]
            &&& after.workbench == s.workbench
            &&& event.kind == MouseEventKind::Up(MouseButton::Left) ==> after.pending_mouse is None
            &&& event.kind == MouseEventKind::Drag(MouseButton::Left) ==> after.pending_mouse
                is Some && after.pending_mouse->0.dragging && after.pending_mouse->0.current
                == event
        }),
{
}

/// The text of a terminal begins inside the border, in the bottom pane below
/// the line of tabs. A pointer over a cell of it is nearest to that cell; one
/// beside the text is nearest to the cell at the edge.
pub proof fn law_nearest_cell_is_under_the_pointer(
    layout: WorkbenchLayout,
    pane: PaneId,
    event: MouseEvent,
    size: TerminalSize,
)
    requires
        pane != PaneId::Sidebar,
        size.rows > 0,
        size.cols > 0,
        fits(layout.editor),
        fits(layout.agent),
        fits(layout.bottom),
        layout.editor.height > 2,
        layout.agent.height > 2,
        layout.bottom.height > 2,
        layout.editor.width > 2,
        layout.agent.width > 2,
        layout.bottom.width > 2,
    ensures
        ({
            let area = if pane == PaneId::Editor {
                layout.editor
            } else if pane == PaneId::Agent {
                layout.agent
            } else {
                layout.bottom
            };
            let top = area.y + 1 + (if pane == PaneId::Bottom {
                1int
            } else {
                0
            });
            let left = area.x + 1;
            let (row, col) = nearest_cell(layout, pane, event, size)->0;
            &&& nearest_cell(layout, pane, event, size) is Some
            &&& top <= event.row < top + size.rows ==> row == event.row - top
            &&& event.row < top ==> row == 0
            &&& event.row >= top + size.rows ==> row == size.rows - 1
            &&& left <= event.column < left + size.cols ==> col == event.column - left
            &&& event.column < left ==> col == 0
            &&& event.column >= left + size.cols ==> col == size.cols - 1
        }),
        nearest_cell(layout, PaneId::Sidebar, event, size) is None,
{
}

/// The sizes of the terminals are told apart by their panes.
pub proof fn law_panes_have_their_sizes(sizes: PaneSizes)
    ensures
        size_of(sizes, PaneId::Editor) == sizes.editor,
        size_of(sizes, PaneId::Agent) == sizes.agent,
        size_of(sizes, PaneId::Bottom) == sizes.shell,
{
}

/// A selection that is dragged to the first line of a terminal or above scrolls
/// back, one dragged to the last line or below scrolls forward, and one in
/// between stays.
pub proof fn law_edges_scroll_outwards(layout: WorkbenchLayout, pane: PaneId, event: MouseEvent)
    requires
        pane != PaneId::Sidebar,
        fits(layout.editor),
        fits(layout.agent),
        fits(layout.bottom),
        layout.editor.height > 4,
        layout.agent.height > 4,
        layout.bottom.height > 5,
    ensures
        ({
            let area = if pane == PaneId::Editor {
                layout.editor
            } else if pane == PaneId::Agent {
                layout.agent
            } else {
                layout.bottom
            };
            let top = area.y + 1 + (if pane == PaneId::Bottom {
                1int
            } else {
                0
            });
            let bottom = area.y + area.height - 2;
            &&& event.row <= top ==> edge_scroll(layout, pane, event) == 1
            &&& event.row >= bottom ==> edge_scroll(layout, pane, event) == -1
            &&& top < event.row < bottom ==> edge_scroll(layout, pane, event) == 0
        }),
{
}

/// From time to time, every twentieth of a second, a selection that is held at
/// an edge scrolls by one line and its end stays under the pointer.
pub proof fn law_selection_scrolls_at_the_edge(
    s: RuntimeState,
    sizes: PaneSizes,
    now: u128,
)
    requires
        s.layout is Some,
        s.pending_mouse is Some,
        s.workbench.selection is Some,
        s.workbench.selection->0.pane != PaneId::Sidebar,
        now + 50_000_000 <= u128::MAX,
    ensures
        ({
            let pending = s.pending_mouse->0;
            let pane = s.workbench.selection->0.pane;
            let key = key_of(s.workbench, pane);
            let lines = edge_scroll(s.layout->0, pane, pending.current);
            let (row, col) = nearest_cell(
                s.layout->0,
                pane,
                pending.current,
                size_of(sizes, pane),
            )->0;
            let (after, effects) = selection_ticked(s, sizes, now);
            let due = pending.dragging && now >= pending.next_edge_scroll;
            &&& !due ==> after == s && effects =~= seq![]
            &&& due ==> after.pending_mouse is Some && after.pending_mouse->0.next_edge_scroll
                == now + 50_000_000
            &&& due && lines != 0 && running(s.sessions, key) is Some ==> effects =~= seq![
                EffectView::ScrollSelection { key, lines, row, col },
            ]
            &&& due && (lines == 0 || running(s.sessions, key) is None) ==> effects =~= seq![]
        }),
{
}

/// A press and a release on one row of the tree select the path that the row
/// shows. The first click does nothing else.
pub proof fn law_click_selects_the_row(
    s: RuntimeState,
    down: MouseEvent,
    up: MouseEvent,
    facts: MouseFacts,
    row: u16,
    col: u16,
    now: u128,
    later: u128,
)
    requires
        is_over_panes(s, down),
        s.pending_layout is None,
        s.workbench.selection is None,
        s.sidebar is Some,
        down.kind == MouseEventKind::Down(MouseButton::Left),
        up.kind == MouseEventKind::Up(MouseButton::Left),
        facts.target == Some(MouseTarget::Sidebar { row, col }),
        up.row == down.row,
        up.column == down.column,
        s.last_sidebar_click is None,
    ensures
        ({
            let lines = if s.trust_confirming {
                4int
            } else {
                1
            };
            let sidebar = s.sidebar->0;
            let at = sidebar.scroll + row - lines;
            let shown = lines <= row < lines + visible_tree_rows(s) && at < all_rows(sidebar).len();
            let pressed = mouse_used(s, down, facts, now).0;
            let (after, effects) = mouse_used(pressed, up, facts, later);
            &&& shown ==> {
                &&& effects =~= seq![]
                &&& after.sidebar == Some(
                    SidebarState {
                        selected: Some(all_rows(sidebar)[at].path),
                        selected_text: Some(all_rows(sidebar)[at].text),
                        ..sidebar
                    },
                )
                &&& after.last_sidebar_click == Some((all_rows(sidebar)[at].path, later))
            }
            &&& lines <= row && !shown ==> after.sidebar == s.sidebar && effects =~= seq![]
        }),
{
}

/// A press that is dragged off its cell, or let go elsewhere, is no click on
/// the tree.
pub proof fn law_moved_press_is_no_click(
    s: RuntimeState,
    up: MouseEvent,
    facts: MouseFacts,
    now: u128,
)
    requires
        is_over_panes(s, up),
        s.pending_layout is None,
        s.pending_mouse is Some,
        s.pending_mouse->0.target is Sidebar,
        !s.pending_mouse->0.dragging,
        up.kind == MouseEventKind::Up(MouseButton::Left),
        s.pending_mouse->0.moved || up.row != s.pending_mouse->0.down.row || up.column
            != s.pending_mouse->0.down.column,
    ensures
        mouse_used(s, up, facts, now).0 == (RuntimeState { pending_mouse: None, ..s }),
        mouse_used(s, up, facts, now).1 =~= seq![],
{
}

/// A second click counts only on the same path and within two fifths of a
/// second of the first.
pub proof fn law_late_click_is_a_first_click(
    s: RuntimeState,
    up: MouseEvent,
    facts: MouseFacts,
    now: u128,
    row: u16,
    col: u16,
    clicked: Seq<Part>,
    first: u128,
)
    requires
        is_over_panes(s, up),
        s.pending_layout is None,
        s.pending_mouse is Some,
        s.pending_mouse->0.target == (MouseTarget::Sidebar { row, col }),
        !s.pending_mouse->0.dragging,
        !s.pending_mouse->0.moved,
        up.kind == MouseEventKind::Up(MouseButton::Left),
        up.row == s.pending_mouse->0.down.row,
        up.column == s.pending_mouse->0.down.column,
        trust_target(trust_chrome(s), row as nat) is None,
        tree_row_selected(s, row as nat).1 is Some,
        s.last_sidebar_click == Some((clicked, first)),
        clicked != tree_row_selected(s, row as nat).1->0.path || now > first + 400_000_000,
    ensures
        mouse_used(s, up, facts, now).1 =~= seq![],
        mouse_used(s, up, facts, now).0.sidebar == tree_row_selected(s, row as nat).0.sidebar,
        mouse_used(s, up, facts, now).0.last_sidebar_click == Some(
            (tree_row_selected(s, row as nat).1->0.path, now),
        ),
{
}

/// A click on the path that was clicked within the last two fifths of a second
/// activates it: a directory opens or closes, and a file is opened where the
/// editor takes files.
pub proof fn law_soon_click_activates(
    s: RuntimeState,
    up: MouseEvent,
    facts: MouseFacts,
    now: u128,
    row: u16,
    col: u16,
    first: u128,
)
    requires
        is_over_panes(s, up),
        s.pending_layout is None,
        s.pending_mouse is Some,
        s.pending_mouse->0.target == (MouseTarget::Sidebar { row, col }),
        !s.pending_mouse->0.dragging,
        !s.pending_mouse->0.moved,
        up.kind == MouseEventKind::Up(MouseButton::Left),
        up.row == s.pending_mouse->0.down.row,
        up.column == s.pending_mouse->0.down.column,
        s.sidebar is Some,
        (if s.trust_confirming {
            4int
        } else {
            1
        }) <= row,
        row - (if s.trust_confirming {
            4int
        } else {
            1
        }) < visible_tree_rows(s),
        s.sidebar->0.scroll + row - (if s.trust_confirming {
            4int
        } else {
            1
        }) < all_rows(s.sidebar->0).len(),
        now <= first + 400_000_000,
        s.last_sidebar_click == Some(
            (
                all_rows(s.sidebar->0)[s.sidebar->0.scroll + row - (if s.trust_confirming {
                    4int
                } else {
                    1
                })].path,
                first,
            ),
        ),
    ensures
        ({
            let lines = if s.trust_confirming {
                4int
            } else {
                1
            };
            let clicked = all_rows(s.sidebar->0)[s.sidebar->0.scroll + row - lines];
            let node = s.sidebar->0.tree[clicked.path];
            let known = s.sidebar->0.tree.contains_key(clicked.path);
            let (after, effects) = mouse_used(s, up, facts, now);
            let opens = (node.kind == EntryKind::File || node.kind == EntryKind::Symlink)
                && node.error is None;
            &&& after.last_sidebar_click is None
            &&& after.sidebar is Some
            &&& after.sidebar->0.selected == Some(clicked.path)
            &&& known && node.kind == EntryKind::Directory && node.expanded
                ==> !after.sidebar->0.tree[clicked.path].expanded
            &&& known && node.kind == EntryKind::Directory && !node.expanded && node.loaded
                ==> after.sidebar->0.tree[clicked.path].expanded
            &&& known && opens && editor_takes_files(s.sessions) ==> effects =~= seq![
                EffectView::OpenFile(WrittenPath { path: clicked.path, text: clicked.text }),
            ]
            &&& known && (!opens || !editor_takes_files(s.sessions)) ==> effects =~= seq![]
        }),
{
}

/// A handle that is pressed and let go hides or shows its pane, lays the panes
/// out again and saves that, if it can be saved. A press that moved away, or
/// that is let go over something else, does nothing.
pub proof fn law_handle_toggles_its_pane(
    s: RuntimeState,
    up: MouseEvent,
    facts: MouseFacts,
    handle: LayoutHandle,
    origin: MouseEvent,
    moved: bool,
    now: u128,
)
    requires
        is_over_panes(s, up),
        s.pending_layout == Some(PendingLayoutGesture::Handle { handle, origin, moved }),
        up.kind == MouseEventKind::Up(MouseButton::Left),
    ensures
        ({
            let (after, effects) = mouse_used(s, up, facts, now);
            let clicked = !moved && facts.target == Some(MouseTarget::Handle(handle));
            &&& after == (RuntimeState { pending_layout: None, ..s })
            &&& !clicked ==> effects =~= seq![]
            &&& clicked && s.layout_store ==> effects =~= seq![
                EffectView::Toggle(handle),
                EffectView::Relayout,
                EffectView::SaveLayout,
            ]
            &&& clicked && !s.layout_store ==> effects =~= seq![
                EffectView::Toggle(handle),
                EffectView::Relayout,
            ]
        }),
{
}

/// A press on a handle that has once moved away counts as moved, though the
/// pointer comes back; one that never left its cell does not.
pub proof fn law_handle_remembers_a_move(
    s: RuntimeState,
    drag: MouseEvent,
    facts: MouseFacts,
    handle: LayoutHandle,
    origin: MouseEvent,
    moved: bool,
    now: u128,
)
    requires
        is_over_panes(s, drag),
        s.pending_layout == Some(PendingLayoutGesture::Handle { handle, origin, moved }),
        drag.kind == MouseEventKind::Drag(MouseButton::Left),
    ensures
        ({
            let (after, effects) = mouse_used(s, drag, facts, now);
            let away = drag.column != origin.column || drag.row != origin.row;
            &&& effects =~= seq![]
            &&& after.pending_layout == Some(
                PendingLayoutGesture::Handle { handle, origin, moved: moved || away },
            )
            &&& after == (RuntimeState { pending_layout: after.pending_layout, ..s })
        }),
{
}

/// A press anywhere but on the sidebar, with either button, makes the next click
/// on the tree a first click again.
pub proof fn law_press_elsewhere_forgets_the_click(
    s: RuntimeState,
    event: MouseEvent,
    facts: MouseFacts,
    now: u128,
)
    requires
        is_over_panes(s, event),
        event.kind == MouseEventKind::Down(MouseButton::Right) || (event.kind
            == MouseEventKind::Down(MouseButton::Left) && facts.target is Some && !(
        facts.target->0 is Sidebar)),
    ensures
        mouse_used(s, event, facts, now).0.last_sidebar_click is None,
{
}

/// A click below the last row of the tree selects nothing and makes the next
/// click a first click again; so does one on the trust lines.
pub proof fn law_click_beside_the_rows(
    s: RuntimeState,
    up: MouseEvent,
    facts: MouseFacts,
    now: u128,
    row: u16,
    col: u16,
)
    requires
        is_over_panes(s, up),
        s.pending_layout is None,
        s.pending_mouse is Some,
        s.pending_mouse->0.target == (MouseTarget::Sidebar { row, col }),
        !s.pending_mouse->0.dragging,
        !s.pending_mouse->0.moved,
        up.kind == MouseEventKind::Up(MouseButton::Left),
        up.row == s.pending_mouse->0.down.row,
        up.column == s.pending_mouse->0.down.column,
        s.sidebar is Some,
        ({
            let trust: int = if s.trust_confirming {
                4
            } else {
                1
            };
            row < trust || s.sidebar->0.scroll + row - trust >= all_rows(s.sidebar->0).len()
        }),
    ensures
        ({
            let (after, effects) = mouse_used(s, up, facts, now);
            &&& after.last_sidebar_click is None
            &&& after.sidebar is Some
            &&& after.sidebar->0.selected == s.sidebar->0.selected
        }),
{
}

/// The left button on a handle or a divider begins a gesture on it: nothing is
/// done yet, and neither focus nor selection change.
pub proof fn law_border_press_begins_a_gesture(
    s: RuntimeState,
    event: MouseEvent,
    facts: MouseFacts,
    now: u128,
)
    requires
        is_over_panes(s, event),
        s.pending_layout is None,
        event.kind == MouseEventKind::Down(MouseButton::Left),
        facts.target is Some,
        facts.target->0 is Handle || facts.target->0 is Divider,
    ensures
        ({
            let (after, effects) = mouse_used(s, event, facts, now);
            &&& effects =~= seq![]
            &&& after.workbench == s.workbench
            &&& after.layout_config == s.layout_config
            &&& after.pending_mouse is None
            &&& facts.target->0 matches MouseTarget::Handle(handle) ==> after.pending_layout
                == Some(PendingLayoutGesture::Handle { handle, origin: event, moved: false })
            &&& facts.target->0 matches MouseTarget::Divider(divider) ==> after.pending_layout
                == Some(
                PendingLayoutGesture::Drag {
                    divider,
                    origin: event,
                    layout: s.layout->0,
                    config: s.layout_config,
                },
            )
        }),
{
}

/// A divider follows the pointer: right of the sidebar a drag to the right
/// widens it, between editor and agent it widens the editor, and above the
/// bottom pane a drag upwards makes that pane higher, cell by cell, as long as
/// every terminal keeps its minimum. The panes are laid out again each time.
pub proof fn law_divider_follows_the_pointer(
    s: RuntimeState,
    event: MouseEvent,
    facts: MouseFacts,
    divider: LayoutDivider,
    origin: MouseEvent,
    layout: WorkbenchLayout,
    config: WorkbenchLayoutConfig,
    now: u128,
)
    requires
        is_over_panes(s, event),
        s.pending_layout == Some(PendingLayoutGesture::Drag { divider, origin, layout, config }),
        event.kind == MouseEventKind::Drag(MouseButton::Left),
        layout.sidebar.width + layout.editor.width + layout.agent.width <= u16::MAX,
        layout.editor.height + layout.bottom.height <= u16::MAX,
        facts.minimums.terminal_width <= 1000,
    ensures
        ({
            let dx = event.column - origin.column;
            let dy = event.row - origin.row;
            let least_width = facts.minimums.terminal_width;
            let (after, effects) = mouse_used(s, event, facts, now);
            let next = after.layout_config;
            &&& effects =~= seq![EffectView::Relayout]
            &&& after == (RuntimeState { layout_config: next, ..s })
            &&& divider == LayoutDivider::SidebarMain && least_width <= config.sidebar_width + dx
                <= layout.sidebar.width + layout.editor.width + layout.agent.width - 2
                * least_width ==> next == (WorkbenchLayoutConfig {
                sidebar_width: (config.sidebar_width + dx) as u16,
                ..config
            })
            &&& divider == LayoutDivider::EditorAgent && least_width <= layout.editor.width + dx
                <= layout.editor.width + layout.agent.width - least_width ==> next == (
            WorkbenchLayoutConfig {
                editor_width: Some((layout.editor.width + dx) as u16),
                ..config
            })
            &&& divider == LayoutDivider::EditorBottom && facts.minimums.shell_height
                <= config.bottom_height - dy <= layout.editor.height + layout.bottom.height
                - facts.minimums.terminal_height ==> next == (WorkbenchLayoutConfig {
                bottom_height: (config.bottom_height - dy) as u16,
                ..config
            })
        }),
{
}

/// A divider that is dragged further stops where the next terminal would get
/// too small, on either side.
pub proof fn law_divider_stops(
    s: RuntimeState,
    event: MouseEvent,
    facts: MouseFacts,
    divider: LayoutDivider,
    origin: MouseEvent,
    layout: WorkbenchLayout,
    config: WorkbenchLayoutConfig,
    now: u128,
)
    requires
        is_over_panes(s, event),
        s.pending_layout == Some(PendingLayoutGesture::Drag { divider, origin, layout, config }),
        event.kind == MouseEventKind::Drag(MouseButton::Left),
        layout.sidebar.width + layout.editor.width + layout.agent.width <= u16::MAX,
        layout.editor.height + layout.bottom.height <= u16::MAX,
        facts.minimums.terminal_width <= 1000,
    ensures
        ({
            let dx = event.column - origin.column;
            let dy = event.row - origin.row;
            let narrow = facts.minimums.terminal_width;
            let low = facts.minimums.shell_height;
            let next = mouse_used(s, event, facts, now).0.layout_config;
            let across = layout.sidebar.width + layout.editor.width + layout.agent.width - 2
                * narrow;
            let beside = layout.editor.width + layout.agent.width - narrow;
            let above = layout.editor.height + layout.bottom.height
                - facts.minimums.terminal_height;
            &&& divider == LayoutDivider::SidebarMain && config.sidebar_width + dx < narrow
                ==> next.sidebar_width == narrow
            &&& divider == LayoutDivider::SidebarMain && narrow <= across < config.sidebar_width
                + dx ==> next.sidebar_width == across
            &&& divider == LayoutDivider::EditorAgent && layout.editor.width + dx < narrow
                ==> next.editor_width == Some(narrow)
            &&& divider == LayoutDivider::EditorAgent && narrow <= beside < layout.editor.width + dx
                ==> next.editor_width == Some(beside as u16)
            &&& divider == LayoutDivider::EditorBottom && config.bottom_height - dy < low
                ==> next.bottom_height == low
            &&& divider == LayoutDivider::EditorBottom && low <= above < config.bottom_height - dy
                ==> next.bottom_height == above
        }),
{
}

/// When a divider is let go the layout stays as it was dragged, and is saved if
/// it can be.
pub proof fn law_dragged_layout_is_saved(
    s: RuntimeState,
    up: MouseEvent,
    facts: MouseFacts,
    now: u128,
)
    requires
        is_over_panes(s, up),
        s.pending_layout is Some,
        s.pending_layout->0 is Drag,
        up.kind == MouseEventKind::Up(MouseButton::Left),
    ensures
        mouse_used(s, up, facts, now).0 == (RuntimeState { pending_layout: None, ..s }),
        s.layout_store ==> mouse_used(s, up, facts, now).1 =~= seq![EffectView::SaveLayout],
        !s.layout_store ==> mouse_used(s, up, facts, now).1 =~= seq![],
{
}

/// In the row of tabs the left button shows the tab under it, closes the tab
/// whose cross is under it, or opens another tab, and gives the bottom pane the
/// focus. Anything else that the mouse does there does nothing.
pub proof fn law_tabs_are_clicked(
    s: RuntimeState,
    event: MouseEvent,
    facts: MouseFacts,
    now: u128,
    id: ShellTabId,
)
    requires
        is_free(s),
        fits(s.layout->0.bottom),
        is_on_tabs(s.layout->0, event),
        event.kind != MouseEventKind::Down(MouseButton::Right),
        s.workbench.selection is None,
    ensures
        ({
            let (after, effects) = mouse_used(s, event, facts, now);
            let pressed = event.kind == MouseEventKind::Down(MouseButton::Left);
            &&& after.pending_mouse is None
            &&& after.sessions == s.sessions
            &&& !pressed ==> after.workbench == s.workbench && effects =~= seq![]
            &&& pressed ==> after.workbench.focused == PaneId::Bottom
            &&& pressed && facts.tab == Some(ShellTabTarget::Body(id)) ==> {
                &&& after.workbench.active_shell == id
                &&& id != s.workbench.active_shell ==> effects =~= seq![EffectView::SelectTab(id)]
                &&& id == s.workbench.active_shell ==> effects =~= seq![]
            }
            &&& pressed && facts.tab == Some(ShellTabTarget::Close(id)) ==> effects =~= seq![
                EffectView::CloseTab(id),
            ] && after.workbench.active_shell == s.workbench.active_shell
            &&& pressed && facts.tab == Some(ShellTabTarget::Plus) ==> effects =~= seq![
                EffectView::OpenTab,
            ] && after.workbench.active_shell == s.workbench.active_shell
            &&& pressed && facts.tab is None ==> effects =~= seq![]
        }),
{
}

} // verus!
