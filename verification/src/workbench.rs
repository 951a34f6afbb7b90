//! Panes, their layout, and what the mouse does to it.

use vstd::prelude::*;

use crate::geometry::{difference, largest, least, saturated, Rect};
use crate::input::MouseEvent;
use crate::path::{Part, PathBuf};
use crate::trust::{sidebar_trust_rows, trust_rows, SidebarTrustChrome};

verus! {

#[derive(Debug, Clone, Copy, PartialEq, Eq, Structural)]
pub enum PaneId {
    Sidebar,
    Editor,
    Agent,
    Bottom,
}

/// A tab of the bottom pane.
#[derive(Debug, Clone, Copy, PartialEq, Eq, Structural)]
pub struct ShellTabId(pub u64);

/// What the program was started as.
#[derive(Debug, Clone, Copy, PartialEq, Eq, Structural)]
pub enum LaunchMode {
    Shell,
    Nvim,
    Pi,
    Workbench,
}

impl LaunchMode {
    pub open spec fn spec_is_workbench(self) -> bool {
        self is Workbench
    }

    #[verifier::when_used_as_spec(spec_is_workbench)]
    pub fn is_workbench(self) -> (workbench: bool)
        ensures
            workbench == (self is Workbench),
    {
        match self {
            LaunchMode::Workbench => true,
            _ => false,
        }
    }
}

/// What is clicked to hide or show a pane.
#[derive(Debug, Clone, Copy, PartialEq, Eq, Structural)]
pub enum LayoutHandle {
    Sidebar,
    Bottom,
}

/// What is dragged to move a border.
#[derive(Debug, Clone, Copy, PartialEq, Eq, Structural)]
pub enum LayoutDivider {
    SidebarMain,
    EditorAgent,
    EditorBottom,
}

/// What is under the mouse.
#[derive(Debug, Clone, Copy, PartialEq, Eq, Structural)]
pub enum MouseTarget {
    /// A cell of a terminal.
    Content { pane: PaneId, row: u16, col: u16 },
    /// A cell of the sidebar.
    Sidebar { row: u16, col: u16 },
    Handle(LayoutHandle),
    Divider(LayoutDivider),
    Border(PaneId),
}

impl MouseTarget {
    /// The pane that a target belongs to.
    pub open spec fn pane_of(self) -> Option<PaneId> {
        match self {
            MouseTarget::Content { pane, .. } => Some(pane),
            MouseTarget::Sidebar { .. } => Some(PaneId::Sidebar),
            MouseTarget::Border(pane) => Some(pane),
            MouseTarget::Handle(_) => None,
            MouseTarget::Divider(_) => None,
        }
    }

    /// The pane that a target belongs to.
    pub fn pane(self) -> (pane: Option<PaneId>)
        ensures
            pane == self.pane_of(),
    {
        match self {
            MouseTarget::Content { pane, .. } => Some(pane),
            MouseTarget::Sidebar { .. } => Some(PaneId::Sidebar),
            MouseTarget::Border(pane) => Some(pane),
            MouseTarget::Handle(_) => None,
            MouseTarget::Divider(_) => None,
        }
    }
}

/// What is under the mouse in the row of tabs.
#[derive(Debug, Clone, Copy, PartialEq, Eq, Structural)]
pub enum ShellTabTarget {
    Body(ShellTabId),
    Close(ShellTabId),
    Plus,
}

/// Where the panes are.
#[derive(Debug, Clone, Copy, PartialEq, Eq, Structural)]
pub struct WorkbenchLayout {
    pub sidebar: Rect,
    pub editor: Rect,
    pub agent: Rect,
    pub bottom: Rect,
    /// Whether there is too little room for panes.
    pub compact: bool,
}

/// The sizes that the user wants.
#[derive(Debug, Clone, Copy, PartialEq, Eq, Structural)]
pub struct WorkbenchLayoutConfig {
    pub sidebar_width: u16,
    pub editor_width: Option<u16>,
    pub bottom_height: u16,
}

/// The smallest panes that can hold a terminal.
#[derive(Debug, Clone, Copy, PartialEq, Eq, Structural)]
pub struct PaneMinimums {
    pub terminal_width: u16,
    pub terminal_height: u16,
    pub shell_height: u16,
}

/// The size of a terminal in cells.
#[derive(Debug, Clone, Copy, PartialEq, Eq, Structural)]
pub struct TerminalSize {
    pub cols: u16,
    pub rows: u16,
}

impl TerminalSize {
    pub fn new(cols: u16, rows: u16) -> (size: TerminalSize)
        ensures
            size.cols == cols,
            size.rows == rows,
    {
        TerminalSize { cols, rows }
    }
}

/// A place in a terminal's text.
#[derive(Debug, Clone, Copy, PartialEq, Eq, Structural)]
pub struct TerminalPoint {
    pub line: i64,
    pub col: u16,
}

/// What is selected.
#[derive(Debug, Clone, Copy, PartialEq, Eq, Structural)]
pub struct Selection {
    pub pane: PaneId,
    pub anchor: TerminalPoint,
    pub head: TerminalPoint,
}

/// What has the focus, what is selected, and which tab is shown.
#[derive(Debug, Clone, Copy, PartialEq, Eq, Structural)]
pub struct WorkbenchState {
    pub focused: PaneId,
    pub selection: Option<Selection>,
    pub active_shell: ShellTabId,
}

/// The state at the start: the editor has the focus and the first tab is shown.
pub open spec fn initial_workbench() -> WorkbenchState {
    WorkbenchState { focused: PaneId::Editor, selection: None, active_shell: ShellTabId(1) }
}

impl Default for WorkbenchState {
    fn default() -> (state: WorkbenchState)
        ensures
            state == initial_workbench(),
    {
        WorkbenchState { focused: PaneId::Editor, selection: None, active_shell: ShellTabId(1) }
    }
}

impl WorkbenchState {
    /// Gives a pane the focus.
    pub fn focus_pane(&mut self, pane: PaneId)
        ensures
            *final(self) == (WorkbenchState { focused: pane, ..*old(self) }),
    {
        self.focused = pane;
    }

    /// The pane that has the focus.
    pub fn focused_pane(&self) -> (pane: PaneId)
        ensures
            pane == self.focused,
    {
        self.focused
    }

    /// Begins a selection in the pane that has the focus.
    pub fn begin_selection(&mut self, point: TerminalPoint)
        ensures
            *final(self) == (WorkbenchState {
                selection: Some(
                    Selection { pane: old(self).focused, anchor: point, head: point },
                ),
                ..*old(self)
            }),
    {
        self.selection = Some(Selection { pane: self.focused, anchor: point, head: point });
    }
}

/// Whether something is selected in a pane.
pub open spec fn selects_in(workbench: WorkbenchState, pane: PaneId) -> bool {
    workbench.selection is Some && workbench.selection->0.pane == pane
}

/// Whether a menu of a pane offers to copy.
pub fn context_menu_copy_enabled(workbench: &WorkbenchState, pane: PaneId) -> (enabled: bool)
    ensures
        enabled == selects_in(*workbench, pane),
{
    match workbench.selection {
        Some(selection) => selection.pane == pane,
        None => false,
    }
}

/// `start + delta`, kept between `min` and `max`; `min` wins where they
/// conflict.
pub open spec fn clamped(start: u16, delta: int, min: u16, max: int) -> int {
    largest(least(start + delta, largest(max, min as int)), min as int)
}

/// `start + delta`, kept between `min` and `max`.
pub fn offset_clamped(start: u16, delta: i32, min: u16, max: u16) -> (value: u16)
    requires
        i32::MIN <= start + delta <= i32::MAX,
    ensures
        value == clamped(start, delta as int, min, max as int),
{
    let upper = if max >= min {
        max
    } else {
        min
    };
    let moved: i32 = start as i32 + delta;
    if moved < min as i32 {
        min
    } else if moved > upper as i32 {
        upper
    } else {
        moved as u16
    }
}

/// The sizes after a divider was dragged from one cell to another. They are
/// computed from the layout at the start of the drag, and leave every terminal
/// its minimum where there is room for it.
pub open spec fn dragged_config(
    divider: LayoutDivider,
    origin: MouseEvent,
    current: MouseEvent,
    layout: WorkbenchLayout,
    config: WorkbenchLayoutConfig,
    minimums: PaneMinimums,
) -> WorkbenchLayoutConfig {
    let dx = current.column - origin.column;
    let dy = current.row - origin.row;
    match divider {
        LayoutDivider::SidebarMain => {
            let total = saturated(
                saturated(layout.sidebar.width as int, layout.editor.width as int),
                layout.agent.width as int,
            );
            let room = saturated(minimums.terminal_width as int, minimums.terminal_width as int);
            WorkbenchLayoutConfig {
                sidebar_width: clamped(
                    config.sidebar_width,
                    dx,
                    minimums.terminal_width,
                    difference(total, room),
                ) as u16,
                ..config
            }
        },
        LayoutDivider::EditorAgent => {
            let main = saturated(layout.editor.width as int, layout.agent.width as int);
            WorkbenchLayoutConfig {
                editor_width: Some(
                    clamped(
                        layout.editor.width,
                        dx,
                        minimums.terminal_width,
                        difference(main, minimums.terminal_width as int),
                    ) as u16,
                ),
                ..config
            }
        },
        LayoutDivider::EditorBottom => {
            let both = saturated(layout.editor.height as int, layout.bottom.height as int);
            WorkbenchLayoutConfig {
                bottom_height: clamped(
                    config.bottom_height,
                    -dy,
                    minimums.shell_height,
                    difference(both, minimums.terminal_height as int),
                ) as u16,
                ..config
            }
        },
    }
}

/// The sizes after a divider was dragged from one cell to another.
pub fn layout_drag_config(
    divider: LayoutDivider,
    origin: MouseEvent,
    current: MouseEvent,
    layout: WorkbenchLayout,
    config: WorkbenchLayoutConfig,
    minimums: PaneMinimums,
) -> (next: WorkbenchLayoutConfig)
    ensures
        next == dragged_config(divider, origin, current, layout, config, minimums),
{
    let dx: i32 = current.column as i32 - origin.column as i32;
    let dy: i32 = current.row as i32 - origin.row as i32;
    let mut next = config;
    match divider {
        LayoutDivider::SidebarMain => {
            let total = layout.sidebar.width.saturating_add(layout.editor.width).saturating_add(
                layout.agent.width,
            );
            let room = minimums.terminal_width.saturating_add(minimums.terminal_width);
            let max = total.saturating_sub(room);
            next.sidebar_width = offset_clamped(
                config.sidebar_width,
                dx,
                minimums.terminal_width,
                max,
            );
        },
        LayoutDivider::EditorAgent => {
            let main = layout.editor.width.saturating_add(layout.agent.width);
            let max = main.saturating_sub(minimums.terminal_width);
            next.editor_width = Some(
                offset_clamped(layout.editor.width, dx, minimums.terminal_width, max),
            );
        },
        LayoutDivider::EditorBottom => {
            let both = layout.editor.height.saturating_add(layout.bottom.height);
            let max = both.saturating_sub(minimums.terminal_height);
            next.bottom_height = offset_clamped(
                config.bottom_height,
                -dy,
                minimums.shell_height,
                max,
            );
        },
    }
    next
}

/// A drag changes one size only, and never below the minimum of the terminal
/// that it resizes.
pub proof fn law_drag_keeps_minimums(
    divider: LayoutDivider,
    origin: MouseEvent,
    current: MouseEvent,
    layout: WorkbenchLayout,
    config: WorkbenchLayoutConfig,
    minimums: PaneMinimums,
)
    ensures
        ({
            let next = dragged_config(divider, origin, current, layout, config, minimums);
            match divider {
                LayoutDivider::SidebarMain => next == (WorkbenchLayoutConfig {
                    sidebar_width: next.sidebar_width,
                    ..config
                }) && next.sidebar_width >= minimums.terminal_width,
                LayoutDivider::EditorAgent => next == (WorkbenchLayoutConfig {
                    editor_width: next.editor_width,
                    ..config
                }) && next.editor_width is Some && next.editor_width->0
                    >= minimums.terminal_width,
                LayoutDivider::EditorBottom => next == (WorkbenchLayoutConfig {
                    bottom_height: next.bottom_height,
                    ..config
                }) && next.bottom_height >= minimums.shell_height,
            }
        }),
{
}

/// A divider between editor and agent follows the pointer, and leaves the agent
/// its minimum, whenever both have room for theirs.
pub proof fn law_split_leaves_room_for_both(
    origin: MouseEvent,
    current: MouseEvent,
    layout: WorkbenchLayout,
    config: WorkbenchLayoutConfig,
    minimums: PaneMinimums,
)
    requires
        minimums.terminal_width + minimums.terminal_width <= layout.editor.width
            + layout.agent.width <= u16::MAX,
    ensures
        ({
            let next = dragged_config(
                LayoutDivider::EditorAgent,
                origin,
                current,
                layout,
                config,
                minimums,
            );
            let width = next.editor_width->0;
            &&& layout.editor.width + layout.agent.width - width >= minimums.terminal_width
            &&& minimums.terminal_width <= layout.editor.width + current.column - origin.column
                <= layout.editor.width + layout.agent.width - minimums.terminal_width ==> width
                == layout.editor.width + current.column - origin.column
        }),
{
}

/// A drag to where it started changes nothing, if the size is within its
/// bounds.
pub proof fn law_drag_back_restores_the_split(
    origin: MouseEvent,
    layout: WorkbenchLayout,
    config: WorkbenchLayoutConfig,
    minimums: PaneMinimums,
)
    requires
        minimums.terminal_width <= layout.editor.width,
        minimums.terminal_width <= layout.agent.width,
        layout.editor.width + layout.agent.width <= u16::MAX,
    ensures
        dragged_config(
            LayoutDivider::EditorAgent,
            origin,
            origin,
            layout,
            config,
            minimums,
        ).editor_width == Some(layout.editor.width),
{
}

/// A press on a handle or a divider that has not ended.
#[derive(Debug, Clone, Copy, PartialEq, Eq, Structural)]
pub enum PendingLayoutGesture {
    Handle { handle: LayoutHandle, origin: MouseEvent, moved: bool },
    Drag {
        divider: LayoutDivider,
        origin: MouseEvent,
        layout: WorkbenchLayout,
        config: WorkbenchLayoutConfig,
    },
}

/// The handle that a press activates when it ends where it began.
pub open spec fn handle_activated(
    gesture: PendingLayoutGesture,
    release: Option<MouseTarget>,
) -> Option<LayoutHandle> {
    match gesture {
        PendingLayoutGesture::Handle { handle, moved, .. } => if !moved && release == Some(
            MouseTarget::Handle(handle),
        ) {
            Some(handle)
        } else {
            None
        },
        PendingLayoutGesture::Drag { .. } => None,
    }
}

/// The handle that a press activates when it ends where it began.
pub fn activated_layout_handle(
    gesture: PendingLayoutGesture,
    release_target: Option<MouseTarget>,
) -> (activated: Option<LayoutHandle>)
    ensures
        activated == handle_activated(gesture, release_target),
{
    match gesture {
        PendingLayoutGesture::Handle { handle, moved, .. } => {
            if moved {
                return None;
            }
            match release_target {
                Some(MouseTarget::Handle(released)) => if released == handle {
                    Some(handle)
                } else {
                    None
                },
                _ => None,
            }
        },
        PendingLayoutGesture::Drag { .. } => None,
    }
}

/// The sizes to go back to when a gesture is given up.
pub open spec fn rollback(pending: Option<PendingLayoutGesture>) -> Option<WorkbenchLayoutConfig> {
    match pending {
        Some(PendingLayoutGesture::Drag { config, .. }) => Some(config),
        _ => None,
    }
}

/// Gives a gesture up and returns the sizes to go back to.
pub fn canceled_layout_config(pending: &mut Option<PendingLayoutGesture>) -> (config: Option<
    WorkbenchLayoutConfig,
>)
    ensures
        config == rollback(*old(pending)),
        *final(pending) is None,
{
    match pending.take() {
        Some(PendingLayoutGesture::Drag { config, .. }) => Some(config),
        _ => None,
    }
}

/// A press on a pane that has not ended.
#[derive(Debug, Clone, Copy, PartialEq, Eq, Structural)]
pub struct PendingMouseGesture {
    pub target: MouseTarget,
    pub down: MouseEvent,
    pub current: MouseEvent,
    pub dragging: bool,
    pub moved: bool,
    pub next_edge_scroll: u128,
}

/// The row of the sidebar that a press activates when it ends where it began.
pub open spec fn row_activated(pending: PendingMouseGesture, release: MouseEvent) -> Option<usize> {
    match pending.target {
        MouseTarget::Sidebar { row, .. } => if !pending.moved && release.column
            == pending.down.column && release.row == pending.down.row {
            Some(row as usize)
        } else {
            None
        },
        _ => None,
    }
}

/// The row of the sidebar that a press activates when it ends where it began.
pub fn activated_sidebar_row(pending: PendingMouseGesture, release: MouseEvent) -> (row: Option<
    usize,
>)
    ensures
        row == row_activated(pending, release),
{
    match pending.target {
        MouseTarget::Sidebar { row, .. } => if !pending.moved && release.column
            == pending.down.column && release.row == pending.down.row {
            Some(row as usize)
        } else {
            None
        },
        _ => None,
    }
}

/// The time between the two clicks of a double click, in nanoseconds.
pub const SIDEBAR_DOUBLE_CLICK_INTERVAL: u128 = 400_000_000;

/// A click in time, by its path.
pub open spec fn click_view(click: Option<(PathBuf, u128)>) -> Option<(Seq<Part>, u128)> {
    match click {
        Some(click) => Some((click.0@, click.1)),
        None => None,
    }
}

/// Whether a click is the second of two on one path.
pub open spec fn is_second_click(
    previous: Option<(Seq<Part>, u128)>,
    path: Seq<Part>,
    now: u128,
) -> bool {
    match previous {
        Some((clicked, clicked_at)) => clicked == path && now - clicked_at
            <= SIDEBAR_DOUBLE_CLICK_INTERVAL,
        None => false,
    }
}

/// Whether a click is the second of two on one path.
pub fn is_sidebar_double_click(previous: &Option<(PathBuf, u128)>, path: &PathBuf, now: u128) -> (
    double: bool)
    ensures
        double == is_second_click(click_view(*previous), path@, now),
{
    match previous {
        Some((clicked, clicked_at)) => clicked.same(path) && now.saturating_sub(*clicked_at)
            <= SIDEBAR_DOUBLE_CLICK_INTERVAL,
        None => false,
    }
}

/// The rows between the borders of the sidebar.
pub open spec fn inner_rows(area: Rect) -> nat {
    difference(area.height as int, 2) as nat
}

/// The rows between the borders of the sidebar.
pub fn sidebar_viewport_rows(area: Rect) -> (rows: usize)
    ensures
        rows == inner_rows(area),
{
    area.height.saturating_sub(2) as usize
}

/// The rows that are left for the tree below the trust lines.
pub open spec fn tree_rows(area: Rect, trust: SidebarTrustChrome) -> nat {
    difference(inner_rows(area) as int, trust_rows(trust) as int) as nat
}

/// The rows that are left for the tree below the trust lines.
pub fn sidebar_tree_viewport_rows(area: Rect, trust: SidebarTrustChrome) -> (rows: usize)
    ensures
        rows == tree_rows(area, trust),
{
    sidebar_viewport_rows(area).saturating_sub(sidebar_trust_rows(trust))
}

/// Where the terminal of a pane is.
pub open spec fn terminal_area(layout: WorkbenchLayout, pane: PaneId) -> Option<Rect> {
    match pane {
        PaneId::Editor => Some(layout.editor),
        PaneId::Agent => Some(layout.agent),
        PaneId::Bottom => Some(layout.bottom),
        PaneId::Sidebar => None,
    }
}

/// Where the terminal of a pane is.
pub fn pane_area(layout: WorkbenchLayout, pane: PaneId) -> (area: Option<Rect>)
    ensures
        area == terminal_area(layout, pane),
{
    match pane {
        PaneId::Editor => Some(layout.editor),
        PaneId::Agent => Some(layout.agent),
        PaneId::Bottom => Some(layout.bottom),
        PaneId::Sidebar => None,
    }
}

/// The first row of a terminal's text: below the border, and in the bottom pane
/// below the row of tabs.
pub open spec fn content_top(area: Rect, pane: PaneId) -> int {
    saturated(
        area.y as int,
        if pane == PaneId::Bottom {
            2
        } else {
            1
        },
    )
}

/// The cell of a terminal that is nearest to the pointer. `size` is the size of
/// its text.
pub open spec fn nearest_cell(
    layout: WorkbenchLayout,
    pane: PaneId,
    event: MouseEvent,
    size: TerminalSize,
) -> Option<(u16, u16)> {
    match terminal_area(layout, pane) {
        Some(area) => Some(
            (
                least(
                    difference(event.row as int, content_top(area, pane)),
                    difference(size.rows as int, 1),
                ) as u16,
                least(
                    difference(event.column as int, saturated(area.x as int, 1)),
                    difference(size.cols as int, 1),
                ) as u16,
            ),
        ),
        None => None,
    }
}

fn first_row(area: Rect, pane: PaneId) -> (row: u16)
    ensures
        row == content_top(area, pane),
{
    let chrome: u16 = if pane == PaneId::Bottom {
        2
    } else {
        1
    };
    area.y.saturating_add(chrome)
}

/// The cell of a terminal that is nearest to the pointer.
pub fn pointer_content_position(
    layout: WorkbenchLayout,
    pane: PaneId,
    event: MouseEvent,
    size: TerminalSize,
) -> (cell: Option<(u16, u16)>)
    ensures
        cell == nearest_cell(layout, pane, event, size),
{
    let area = match pane_area(layout, pane) {
        Some(area) => area,
        None => return None,
    };
    let row = crate::geometry::smaller_of(
        event.row.saturating_sub(first_row(area, pane)),
        size.rows.saturating_sub(1),
    );
    let col = crate::geometry::smaller_of(
        event.column.saturating_sub(area.x.saturating_add(1)),
        size.cols.saturating_sub(1),
    );
    Some((row, col))
}

/// The nearest cell lies in the terminal's text, if there is any.
pub proof fn law_nearest_cell_is_in_the_terminal(
    layout: WorkbenchLayout,
    pane: PaneId,
    event: MouseEvent,
    size: TerminalSize,
)
    requires
        size.rows > 0,
        size.cols > 0,
    ensures
        nearest_cell(layout, pane, event, size) matches Some(cell) ==> cell.0 < size.rows && cell.1
            < size.cols,
{
}

/// Which way a selection scrolls when it is dragged to the edge: back (1),
/// forward (-1), or not at all.
pub open spec fn edge_scroll(layout: WorkbenchLayout, pane: PaneId, event: MouseEvent) -> i32 {
    match terminal_area(layout, pane) {
        Some(area) => if event.row <= content_top(area, pane) {
            1
        } else if event.row >= difference(area.bottom_edge(), 2) {
            -1i32
        } else {
            0
        },
        None => 0,
    }
}

/// Which way a selection scrolls when it is dragged to the edge.
pub fn edge_scroll_direction(layout: WorkbenchLayout, pane: PaneId, event: MouseEvent) -> (
    direction: i32)
    ensures
        direction == edge_scroll(layout, pane, event),
        -1 <= direction <= 1,
{
    let area = match pane_area(layout, pane) {
        Some(area) => area,
        None => return 0,
    };
    let content_bottom = area.bottom().saturating_sub(2);
    if event.row <= first_row(area, pane) {
        1
    } else if event.row >= content_bottom {
        -1
    } else {
        0
    }
}

/// The symbols on the handles of the sidebar and the bottom pane: an arrow
/// points to where the pane goes.
pub open spec fn handle_symbols(layout: WorkbenchLayout) -> Option<(char, char)> {
    if layout.compact {
        None
    } else {
        Some(
            (
                if layout.sidebar.width > 0 {
                    '◀'
                } else {
                    '▶'
                },
                if layout.bottom.height > 0 {
                    '▼'
                } else {
                    '▲'
                },
            ),
        )
    }
}

/// The symbols on the handles of the sidebar and the bottom pane, if they are
/// shown.
pub fn render_layout_controls(layout: WorkbenchLayout) -> (symbols: Option<(char, char)>)
    ensures
        symbols == handle_symbols(layout),
{
    if layout.compact {
        return None;
    }
    let sidebar = if layout.sidebar.width > 0 {
        '◀'
    } else {
        '▶'
    };
    let bottom = if layout.bottom.height > 0 {
        '▼'
    } else {
        '▲'
    };
    Some((sidebar, bottom))
}

} // verus!
