//! What the program shows: which panes, with which titles and messages.

use vstd::prelude::*;
use vstd::string::*;

use crate::context_menu::menu_lines;
use crate::geometry::Rect;
use crate::runtime_state::{
    is_large_enough, key_of, trust_chrome, visible_tree_rows, EditStateView, RuntimeState,
};
use crate::sessions::{running, status_text, SessionKey};
use crate::sidebar_view::{sidebar_lines, EditView, SidebarFrame};
use crate::state::{all_rows, window};
use crate::style::{lines_view, Color, LineView, TextLine};
use crate::text::text_view;
use crate::title::{handled_title_text, unavailable_text};
use crate::tree::RowView;
use crate::workbench::{
    handle_symbols, selects_in, PaneId, PaneMinimums, Selection, WorkbenchLayout, WorkbenchState,
};

verus! {

/// What is inside a pane.
#[derive(Debug)]
pub enum PaneBody {
    /// The tabs, and below them a terminal or a message.
    Shell { running: bool, message: Option<String> },
    /// The terminal of a process.
    Session,
    /// No process, and why.
    Unavailable { status: String },
}

/// What a [`PaneBody`] is, as a value.
pub enum BodyView {
    Shell { running: bool, message: Option<Seq<char>> },
    Session,
    Unavailable { status: Seq<char> },
}

/// A pane, ready to be painted.
#[derive(Debug)]
pub struct PanePlan {
    pub pane: PaneId,
    pub area: Rect,
    pub focused: bool,
    pub selection: Option<Selection>,
    pub key: SessionKey,
    pub title: String,
    pub body: PaneBody,
}

/// What a [`PanePlan`] is, as a value.
pub struct PaneView {
    pub pane: PaneId,
    pub area: Rect,
    pub focused: bool,
    pub selection: Option<Selection>,
    pub key: SessionKey,
    pub title: Seq<char>,
    pub body: BodyView,
}

impl View for PanePlan {
    type V = PaneView;

    open spec fn view(&self) -> PaneView {
        PaneView {
            pane: self.pane,
            area: self.area,
            focused: self.focused,
            selection: self.selection,
            key: self.key,
            title: self.title@,
            body: match self.body {
                PaneBody::Shell { running, message } => BodyView::Shell {
                    running,
                    message: text_view(message),
                },
                PaneBody::Session => BodyView::Session,
                PaneBody::Unavailable { status } => BodyView::Unavailable { status: status@ },
            },
        }
    }
}

pub open spec fn panes_view(panes: Seq<PanePlan>) -> Seq<PaneView> {
    panes.map_values(|pane: PanePlan| pane@)
}

/// An open menu, ready to be painted.
#[derive(Debug)]
pub struct MenuPlan {
    pub area: Rect,
    pub lines: Vec<TextLine>,
}

/// The whole screen, ready to be painted.
#[derive(Debug)]
pub enum ScreenPlan {
    /// There is too little room for panes.
    Compact,
    Panes {
        sidebar: Option<SidebarFrame>,
        panes: Vec<PanePlan>,
        /// The symbols of the two handles.
        controls: Option<(char, char)>,
        menu: Option<MenuPlan>,
    },
}

/// What a [`SidebarFrame`] is, as a value.
pub struct FrameView {
    pub title: Seq<char>,
    pub border: Color,
    pub lines: Seq<LineView>,
}

/// What a [`ScreenPlan`] is, as a value.
pub enum ScreenView {
    Compact,
    Panes {
        sidebar: Option<FrameView>,
        panes: Seq<PaneView>,
        controls: Option<(char, char)>,
        menu: Option<(Rect, Seq<LineView>)>,
    },
}

pub open spec fn frame_view(frame: SidebarFrame) -> FrameView {
    FrameView { title: frame.title@, border: frame.border, lines: lines_view(frame.lines@) }
}

impl View for ScreenPlan {
    type V = ScreenView;

    open spec fn view(&self) -> ScreenView {
        match *self {
            ScreenPlan::Compact => ScreenView::Compact,
            ScreenPlan::Panes { sidebar, panes, controls, menu } => ScreenView::Panes {
                sidebar: match sidebar {
                    Some(frame) => Some(frame_view(frame)),
                    None => None,
                },
                panes: panes_view(panes@),
                controls,
                menu: match menu {
                    Some(menu) => Some((menu.area, lines_view(menu.lines@))),
                    None => None,
                },
            },
        }
    }
}

/// The screen in an option.
pub open spec fn screen_option(screen: Option<ScreenPlan>) -> Option<ScreenView> {
    match screen {
        Some(screen) => Some(screen@),
        None => None,
    }
}

/// Whether a handle stands before the title of a pane.
pub open spec fn has_handle(s: RuntimeState, pane: PaneId) -> bool {
    s.launch_mode.is_workbench() && pane == PaneId::Bottom && s.layout is Some
        && s.layout->0.bottom.height > 0
}

/// What a pane shows. The bottom pane of the workbench shows tabs; another shows
/// its process, or why it has none.
pub open spec fn pane_shown(
    s: RuntimeState,
    pane: PaneId,
    area: Rect,
    focused: bool,
    selection: Option<Selection>,
    now: u128,
) -> PaneView {
    let key = key_of(s.workbench, pane);
    let handle = has_handle(s, pane);
    let shows_tabs = s.launch_mode.is_workbench() && pane == PaneId::Bottom;
    let name = if s.sessions.slots.contains_key(key) {
        s.sessions.slots[key].display_name
    } else {
        "backend"@
    };
    let lifecycle = match status_text(s.sessions, key, now, s.launch_mode.is_workbench()) {
        Some(text) => text,
        None => "unavailable"@,
    };
    let trouble = unavailable_text(pane, lifecycle, s.status);
    let is_running = running(s.sessions, key) is Some;
    PaneView {
        pane,
        area,
        focused,
        selection,
        key,
        title: if shows_tabs {
            handled_title_text(
                "shell"@,
                status_text(s.sessions, key, now, true),
                area.width,
                handle,
            )
        } else if is_running {
            handled_title_text(name, s.status, area.width, handle)
        } else {
            handled_title_text(name, Some(trouble), area.width, handle)
        },
        body: if shows_tabs {
            BodyView::Shell {
                running: is_running,
                message: status_text(s.sessions, key, now, true),
            }
        } else if is_running {
            BodyView::Session
        } else {
            BodyView::Unavailable { status: trouble }
        },
    }
}

/// The name that is being entered, as the sidebar shows it.
pub open spec fn edit_shown(edit: Option<EditStateView>) -> Option<EditView> {
    match edit {
        Some(edit) => Some(
            EditView {
                target: edit.target.path,
                value: edit.value,
                kind: edit.kind,
                error: edit.error,
            },
        ),
        None => None,
    }
}

/// The rows that the sidebar shows.
pub open spec fn rows_shown(s: RuntimeState) -> Seq<RowView> {
    match s.sidebar {
        Some(sidebar) => window(all_rows(sidebar), sidebar.scroll, visible_tree_rows(s)),
        None => seq![],
    }
}

/// The trouble that the sidebar shows: that of the repository, or that there is
/// no sidebar.
pub open spec fn error_shown(s: RuntimeState) -> Option<Seq<char>> {
    match s.sidebar {
        Some(sidebar) => match sidebar.git_error {
            Some(error) => Some(error),
            None => s.sidebar_error,
        },
        None => s.sidebar_error,
    }
}

/// What the sidebar shows.
pub open spec fn sidebar_shown(s: RuntimeState) -> FrameView {
    FrameView {
        title: if error_shown(s) is Some {
            "  sidebar !"@
        } else {
            "  sidebar"@
        },
        border: if s.workbench.focused == PaneId::Sidebar {
            Color::LightYellow
        } else {
            Color::DarkGray
        },
        lines: sidebar_lines(
            trust_chrome(s),
            rows_shown(s),
            edit_shown(s.sidebar_edit),
            error_shown(s),
        ),
    }
}

/// What is selected in a pane.
pub open spec fn selection_in(workbench: WorkbenchState, pane: PaneId) -> Option<Selection> {
    if selects_in(workbench, pane) {
        workbench.selection
    } else {
        None
    }
}

/// A pane, if there is room for it.
pub open spec fn pane_if_large(
    s: RuntimeState,
    pane: PaneId,
    area: Rect,
    width: u16,
    height: u16,
    now: u128,
) -> Seq<PaneView> {
    if is_large_enough(area, width, height) {
        seq![
            pane_shown(
                s,
                pane,
                area,
                s.workbench.focused == pane,
                selection_in(s.workbench, pane),
                now,
            ),
        ]
    } else {
        seq![]
    }
}

/// The panes that the workbench shows.
pub open spec fn panes_shown(
    s: RuntimeState,
    layout: WorkbenchLayout,
    minimums: PaneMinimums,
    now: u128,
) -> Seq<PaneView> {
    pane_if_large(
        s,
        PaneId::Editor,
        layout.editor,
        minimums.terminal_width,
        minimums.terminal_height,
        now,
    ) + pane_if_large(
        s,
        PaneId::Agent,
        layout.agent,
        minimums.terminal_width,
        minimums.terminal_height,
        now,
    ) + pane_if_large(
        s,
        PaneId::Bottom,
        layout.bottom,
        minimums.terminal_width,
        minimums.shell_height,
        now,
    )
}

/// What the workbench shows.
pub open spec fn workbench_shown(s: RuntimeState, minimums: PaneMinimums, now: u128) -> Option<
    ScreenView,
> {
    match s.layout {
        Some(layout) => Some(
            if layout.compact {
                ScreenView::Compact
            } else {
                ScreenView::Panes {
                    sidebar: if layout.sidebar.width > 0 && layout.sidebar.height > 0 {
                        Some(sidebar_shown(s))
                    } else {
                        None
                    },
                    panes: panes_shown(s, layout, minimums, now),
                    controls: handle_symbols(layout),
                    menu: match s.context_menu {
                        Some(context) => Some((context.menu.area, menu_lines(context.menu))),
                        None => None,
                    },
                }
            },
        ),
        None => None,
    }
}

/// What the program shows in an area: the workbench, or a single pane.
pub open spec fn screen_shown(
    s: RuntimeState,
    area: Rect,
    minimums: PaneMinimums,
    now: u128,
) -> Option<ScreenView> {
    if s.launch_mode.is_workbench() {
        workbench_shown(s, minimums, now)
    } else {
        Some(
            ScreenView::Panes {
                sidebar: None,
                panes: seq![pane_shown(s, PaneId::Editor, area, true, None, now)],
                controls: None,
                menu: None,
            },
        )
    }
}

} // verus!
