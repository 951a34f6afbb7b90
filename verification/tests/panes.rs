//! Menus, titles, the sidebar's lines, keys and the geometry of the panes.

use ami_workbench::context_menu::{
    menu_background, menu_item_style, render_context_menu, ContextMenu, ContextMenuAction,
};
use ami_workbench::geometry::Rect;
use ami_workbench::git::{GitDecoration, GitStatus};
use ami_workbench::input::{
    context_menu_key_action, is_quit, is_system_paste, mouse_at, should_copy_selection,
    ContextMenuKeyAction, KeyCode, KeyEvent, KeyModifiers, MouseButton, MouseEvent,
    MouseEventKind, CONTROL, SUPER,
};
use ami_workbench::path::PathBuf;
use ami_workbench::sidebar_view::{
    git_marker, render_sidebar, sidebar_line, SidebarEditKind, SidebarEditView, SidebarStyle,
    SidebarView,
};
use ami_workbench::style::{Color, TextLine};
use ami_workbench::title::{
    retry_hint, session_title, session_title_with_handle, truncate, unavailable_pane_status,
};
use ami_workbench::tree::{EntryKind, SidebarRow};
use ami_workbench::trust::{
    sidebar_trust_hit, sidebar_trust_rows, SidebarTrustChrome, SidebarTrustTarget,
    WorkspaceTrustState,
};
use ami_workbench::workbench::{
    activated_layout_handle, activated_sidebar_row, canceled_layout_config,
    context_menu_copy_enabled, edge_scroll_direction, is_sidebar_double_click,
    layout_drag_config, offset_clamped, pointer_content_position, render_layout_controls,
    sidebar_tree_viewport_rows, LayoutDivider, LayoutHandle, MouseTarget, PaneId, PaneMinimums,
    PendingLayoutGesture, PendingMouseGesture, TerminalPoint, TerminalSize, WorkbenchLayout,
    WorkbenchLayoutConfig, WorkbenchState,
};

const MILLISECOND: u128 = 1_000_000;

const MINIMUMS: PaneMinimums =
    PaneMinimums { terminal_width: 10, terminal_height: 4, shell_height: 5 };

fn rect(x: u16, y: u16, width: u16, height: u16) -> Rect {
    Rect { x, y, width, height }
}

fn key(code: KeyCode, bits: u8) -> KeyEvent {
    KeyEvent { code, modifiers: KeyModifiers { bits } }
}

fn mouse(column: u16, row: u16) -> MouseEvent {
    MouseEvent {
        kind: MouseEventKind::Drag(MouseButton::Left),
        column,
        row,
        modifiers: KeyModifiers { bits: 0 },
    }
}

fn config() -> WorkbenchLayoutConfig {
    WorkbenchLayoutConfig { sidebar_width: 24, editor_width: None, bottom_height: 10 }
}

/// Panes on a screen of 120 columns and 40 rows.
fn layout() -> WorkbenchLayout {
    WorkbenchLayout {
        sidebar: rect(0, 0, 24, 40),
        editor: rect(24, 0, 48, 30),
        agent: rect(72, 0, 48, 30),
        bottom: rect(24, 30, 96, 10),
        compact: false,
    }
}

fn path(text: &str) -> PathBuf {
    PathBuf::from_bytes(text.as_bytes())
}

fn line_text(line: &TextLine) -> String {
    let mut text = String::new();
    for span in &line.spans {
        text.push_str(&span.text);
    }
    text
}

#[test]
fn terminal_menu_clamps_and_disables_copy() {
    let mut menu = ContextMenu::new(rect(5, 3, 20, 10), 24, 12, false);
    assert_eq!(menu.area(), rect(7, 9, 18, 4));
    assert_eq!(menu.action_at(8, 10), None);
    assert_eq!(menu.action_at(8, 11), Some(ContextMenuAction::Paste));
    menu.update_hover(8, 11);
    assert_eq!(menu.hovered(), Some(ContextMenuAction::Paste));
}

#[test]
fn sidebar_menu_applies_capability_matrix_without_geometry_shift() {
    let menu = ContextMenu::sidebar(rect(0, 0, 30, 12), 2, 2, true, false);
    assert_eq!(menu.area().height, 6);
    assert_eq!(menu.action_at(3, 3), Some(ContextMenuAction::NewFile));
    assert_eq!(menu.action_at(3, 4), Some(ContextMenuAction::NewFolder));
    assert_eq!(menu.action_at(3, 5), None);
    assert_eq!(menu.action_at(3, 6), None);
    let enabled = ContextMenu::sidebar(rect(0, 0, 30, 12), 2, 2, true, true);
    assert_eq!(enabled.area(), menu.area());
    assert_eq!(enabled.action_at(3, 5), Some(ContextMenuAction::Rename));
    assert_eq!(enabled.action_at(3, 6), Some(ContextMenuAction::Delete));
}

#[test]
fn menu_items_are_painted_by_what_they_can_do() {
    let mut menu = ContextMenu::new(rect(0, 0, 40, 20), 1, 1, false);
    menu.update_hover(2, 3);
    let lines = render_context_menu(&menu);
    assert_eq!(lines.len(), 2);
    assert_eq!(line_text(&lines[0]).chars().count(), 16);
    assert!(line_text(&lines[1]).starts_with(" Paste"));
    assert_eq!(lines[0].style, menu_item_style(false, false));
    assert_eq!(lines[1].style, menu_item_style(true, true));
    assert_eq!(menu_item_style(true, true).fg, Some(Color::Black));
    assert!(menu_item_style(true, true).bold);
    assert_eq!(menu_item_style(false, true).fg, Some(Color::White));
    assert_eq!(menu_item_style(false, true).bg, Some(menu_background()));
    assert_eq!(menu_item_style(true, false).fg, Some(Color::DarkGray));
}

#[test]
fn trust_chrome_rows_and_hits_are_frontend_owned() {
    let normal =
        SidebarTrustChrome { state: WorkspaceTrustState::Untrusted, confirming: false };
    assert_eq!(sidebar_trust_rows(normal), 1);
    assert_eq!(sidebar_trust_hit(normal, 0), Some(SidebarTrustTarget::Review));
    assert_eq!(sidebar_trust_hit(normal, 1), None);

    let prompt = SidebarTrustChrome { confirming: true, ..normal };
    assert_eq!(sidebar_trust_rows(prompt), 4);
    assert_eq!(sidebar_trust_hit(prompt, 0), Some(SidebarTrustTarget::Chrome));
    assert_eq!(sidebar_trust_hit(prompt, 2), Some(SidebarTrustTarget::ConfirmTrust));
    assert_eq!(sidebar_trust_hit(prompt, 3), Some(SidebarTrustTarget::Cancel));
    assert_eq!(sidebar_trust_hit(prompt, 4), None);
    let trusted = SidebarTrustChrome { state: WorkspaceTrustState::Trusted, ..normal };
    assert_eq!(sidebar_trust_hit(trusted, 0), Some(SidebarTrustTarget::Revoke));
}

#[test]
fn maps_every_git_status_to_the_expected_marker() {
    assert_eq!(git_marker(Some(GitStatus::Modified)), Some('M'));
    assert_eq!(git_marker(Some(GitStatus::Added)), Some('A'));
    assert_eq!(git_marker(Some(GitStatus::Deleted)), Some('D'));
    assert_eq!(git_marker(Some(GitStatus::Renamed)), Some('R'));
    assert_eq!(git_marker(Some(GitStatus::Conflict)), Some('U'));
    assert_eq!(git_marker(Some(GitStatus::Untracked)), Some('?'));
    assert_eq!(git_marker(None), None);
}

fn row(place: &str, name: &str, depth: usize, kind: EntryKind) -> SidebarRow {
    SidebarRow {
        path: path(place),
        name: name.as_bytes().to_vec(),
        depth,
        kind,
        expanded: false,
        loading: false,
        selected: false,
        error: None,
        git: GitDecoration { status: None, dirty_descendant: false },
    }
}

#[test]
fn a_row_shows_its_name_and_its_status() {
    let mut file = row("/w/a", "a", 1, EntryKind::File);
    file.git.status = Some(GitStatus::Modified);
    let line = line_text(&sidebar_line(&file, None));
    assert!(line.contains('a'));
    assert!(line.contains('M'));
    let renamed = line_text(&sidebar_line(&file, Some("b_")));
    assert!(renamed.contains("b_"));
}

#[test]
fn a_name_that_is_entered_stands_below_its_directory() {
    let rows = vec![row("/w", "w", 0, EntryKind::Directory), row("/w/a", "a", 1, EntryKind::File)];
    let target = path("/w");
    let view = SidebarView {
        rows: &rows,
        edit: Some(SidebarEditView {
            target: &target,
            value: "fresh",
            kind: SidebarEditKind::NewFile,
            error: None,
        }),
        trust: SidebarTrustChrome {
            state: WorkspaceTrustState::Untrusted,
            confirming: false,
        },
        error: Some("not a repository"),
        focused: true,
        style: SidebarStyle::default(),
    };
    let frame = render_sidebar(view);
    assert_eq!(frame.title, "  sidebar !");
    assert_eq!(frame.border, Color::LightYellow);
    assert_eq!(frame.lines.len(), 4);
    assert!(line_text(&frame.lines[2]).contains("fresh"));
}

#[test]
fn unavailable_status_uses_reachable_retry_hint() {
    assert_eq!(retry_hint(true), "click to retry");
    assert_eq!(retry_hint(false), "press any key to retry");
}

#[test]
fn bounds_status_to_available_title_width() {
    assert_eq!(
        session_title("pi", Some("clipboard unavailable"), 20),
        "pi — clipboard un…"
    );
    assert_eq!(session_title("nvim", None, 20), "nvim");
    assert_eq!(session_title_with_handle("shell", None, 20, true), "  shell");
    assert!(!session_title("shell", None, 20).contains("Ctrl+Q"));
    assert_eq!(truncate("long", 1), "…");
    assert_eq!(truncate("long", 4), "long");
}

#[test]
fn unavailable_editor_composes_file_action_and_lifecycle_status() {
    assert_eq!(
        unavailable_pane_status(
            PaneId::Editor,
            "starting…",
            Some("editor unavailable; file was not opened")
        ),
        "editor unavailable; file was not opened; starting…"
    );
    assert_eq!(
        unavailable_pane_status(PaneId::Agent, "starting…", Some("clipboard error")),
        "starting…"
    );
}

#[test]
fn context_menu_keys_are_consumed_and_copy_is_pane_owned() {
    let copy = key(KeyCode::Char('c'), SUPER);
    let paste = key(KeyCode::Char('v'), SUPER);
    let control_copy = key(KeyCode::Char('c'), CONTROL);
    let escape = key(KeyCode::Esc, 0);
    let ordinary = key(KeyCode::Char('x'), 0);
    assert_eq!(context_menu_key_action(copy, true), ContextMenuKeyAction::Copy);
    assert_eq!(context_menu_key_action(copy, false), ContextMenuKeyAction::Dismiss);
    assert_eq!(context_menu_key_action(control_copy, true), ContextMenuKeyAction::Dismiss);
    assert_eq!(context_menu_key_action(paste, false), ContextMenuKeyAction::Paste);
    assert_eq!(context_menu_key_action(escape, true), ContextMenuKeyAction::Dismiss);
    assert_eq!(context_menu_key_action(ordinary, true), ContextMenuKeyAction::Dismiss);

    let mut workbench = WorkbenchState::default();
    workbench.begin_selection(TerminalPoint { line: 0, col: 0 });
    assert!(context_menu_copy_enabled(&workbench, PaneId::Editor));
    let agent_copy_enabled = context_menu_copy_enabled(&workbench, PaneId::Agent);
    assert!(!agent_copy_enabled);
    assert_eq!(
        context_menu_key_action(copy, agent_copy_enabled),
        ContextMenuKeyAction::Dismiss
    );
}

#[test]
fn recognizes_system_clipboard_keys() {
    assert!(should_copy_selection(key(KeyCode::Char('c'), SUPER), false));
    assert!(should_copy_selection(key(KeyCode::Char('c'), CONTROL), true));
    assert!(is_system_paste(key(KeyCode::Char('v'), SUPER)));
    assert!(!should_copy_selection(key(KeyCode::Char('c'), CONTROL), false));
    assert!(is_quit(key(KeyCode::Char('q'), CONTROL)));
    assert!(is_quit(key(KeyCode::Char('q'), CONTROL | SUPER)));
    assert!(!is_quit(key(KeyCode::Char('q'), 0)));
}

#[test]
fn modifiers_are_numbered_as_the_terminal_numbers_them() {
    assert_eq!(crossterm::event::KeyModifiers::CONTROL.bits(), CONTROL);
    assert_eq!(crossterm::event::KeyModifiers::SUPER.bits(), SUPER);
    assert_eq!(crossterm::event::KeyModifiers::ALT.bits(), ami_workbench::input::ALT);
}

#[test]
fn layout_drags_use_snapshot_delta_capture_and_clamp_all_terminals() {
    let config = config();
    let layout = layout();

    // A move is calculated from the down snapshot, not a prior move.
    let sidebar = layout_drag_config(
        LayoutDivider::SidebarMain,
        mouse(layout.editor.x, 2),
        mouse(layout.editor.x + 10, 2),
        layout,
        config,
        MINIMUMS,
    );
    assert_eq!(sidebar.sidebar_width, config.sidebar_width + 10);

    // The editor/agent divider follows the captured pointer cell exactly.
    let split = layout_drag_config(
        LayoutDivider::EditorAgent,
        mouse(layout.agent.x, 2),
        mouse(layout.agent.x + 7, 2),
        layout,
        config,
        MINIMUMS,
    );
    assert_eq!(split.editor_width, Some(layout.editor.width + 7));

    // Coordinates far outside the pane remain captured and clamp both sides
    // to a bordered-terminal minimum.
    let clamped_split = layout_drag_config(
        LayoutDivider::EditorAgent,
        mouse(layout.agent.x, 2),
        mouse(u16::MAX, 2),
        layout,
        config,
        MINIMUMS,
    );
    let editor_width = clamped_split.editor_width.unwrap();
    assert!(editor_width >= MINIMUMS.terminal_width);
    assert!(
        layout.editor.width + layout.agent.width - editor_width >= MINIMUMS.terminal_width
    );
    assert_eq!(editor_width, 86);

    let bottom = layout_drag_config(
        LayoutDivider::EditorBottom,
        mouse(30, layout.bottom.y),
        mouse(30, 0),
        layout,
        config,
        MINIMUMS,
    );
    let rest = layout.editor.height + layout.bottom.height - bottom.bottom_height;
    assert!(rest >= MINIMUMS.terminal_height);
    assert!(bottom.bottom_height >= MINIMUMS.shell_height);
    assert_eq!(bottom.bottom_height, 36);
}

#[test]
fn offsets_are_clamped() {
    assert_eq!(offset_clamped(10, 5, 4, 12), 12);
    assert_eq!(offset_clamped(10, -50, 4, 12), 4);
    assert_eq!(offset_clamped(10, 1, 4, 12), 11);
    assert_eq!(offset_clamped(10, 0, 8, 3), 8);
    assert_eq!(offset_clamped(10, i32::MAX - 10, 4, 12), 12);
    assert_eq!(offset_clamped(10, i32::MIN, 4, 12), 4);
}

fn pending() -> PendingMouseGesture {
    let down = mouse(4, 3);
    PendingMouseGesture {
        target: MouseTarget::Sidebar { row: 2, col: 3 },
        down,
        current: down,
        dragging: false,
        moved: false,
        next_edge_scroll: 0,
    }
}

#[test]
fn sidebar_click_requires_an_unmoved_pointer_on_the_same_cell() {
    let down = mouse(4, 3);
    let pending = pending();
    assert_eq!(activated_sidebar_row(pending, down), Some(2));
    assert_eq!(activated_sidebar_row(pending, mouse(5, 3)), None);
    assert_eq!(
        activated_sidebar_row(PendingMouseGesture { moved: true, ..pending }, down),
        None
    );
}

#[test]
fn sidebar_double_click_requires_same_path_within_interval() {
    let now = 7 * MILLISECOND;
    let main = path("src/main.rs");
    let previous = Some((main.clone(), now));
    assert!(is_sidebar_double_click(&previous, &main, now + 399 * MILLISECOND));
    assert!(!is_sidebar_double_click(
        &previous,
        &path("src/lib.rs"),
        now + 20 * MILLISECOND
    ));
    assert!(!is_sidebar_double_click(&previous, &main, now + 401 * MILLISECOND));
    assert!(!is_sidebar_double_click(&None, &main, now));
}

#[test]
fn handle_release_requires_an_unmoved_pointer_on_the_same_handle() {
    let origin = mouse(24, 0);
    let handle =
        PendingLayoutGesture::Handle { handle: LayoutHandle::Sidebar, origin, moved: false };
    assert_eq!(
        activated_layout_handle(handle, Some(MouseTarget::Handle(LayoutHandle::Sidebar))),
        Some(LayoutHandle::Sidebar)
    );
    let moved =
        PendingLayoutGesture::Handle { handle: LayoutHandle::Sidebar, origin, moved: true };
    assert_eq!(
        activated_layout_handle(moved, Some(MouseTarget::Handle(LayoutHandle::Sidebar))),
        None
    );
    assert_eq!(
        activated_layout_handle(handle, Some(MouseTarget::Sidebar { row: 0, col: 0 })),
        None
    );
}

#[test]
fn canceled_drag_returns_its_snapshot_for_rollback() {
    let snapshot = config();
    let layout = layout();
    let mut pending = Some(PendingLayoutGesture::Drag {
        divider: LayoutDivider::EditorAgent,
        origin: mouse(layout.agent.x, 2),
        layout,
        config: snapshot,
    });
    assert_eq!(canceled_layout_config(&mut pending), Some(snapshot));
    assert!(pending.is_none());

    let mut handle = Some(PendingLayoutGesture::Handle {
        handle: LayoutHandle::Sidebar,
        origin: mouse(1, 0),
        moved: false,
    });
    assert_eq!(canceled_layout_config(&mut handle), None);
    assert!(handle.is_none());
}

#[test]
fn bottom_terminal_coordinates_skip_tab_chrome() {
    let layout = layout();
    let event = MouseEvent {
        kind: MouseEventKind::Moved,
        column: layout.bottom.x + 3,
        row: layout.bottom.y + 2,
        modifiers: KeyModifiers { bits: 0 },
    };
    let size = TerminalSize { cols: 94, rows: 7 };
    assert_eq!(
        pointer_content_position(layout, PaneId::Bottom, event, size),
        Some((0, 2))
    );
    assert_eq!(edge_scroll_direction(layout, PaneId::Bottom, event), 1);
    assert_eq!(pointer_content_position(layout, PaneId::Sidebar, event, size), None);
}

#[test]
fn pointers_outside_fall_on_the_nearest_cell() {
    let size = TerminalSize { cols: 46, rows: 28 };
    let at = |column: u16, row: u16| {
        pointer_content_position(layout(), PaneId::Editor, mouse(column, row), size)
    };
    assert_eq!(at(0, 0), Some((0, 0)));
    assert_eq!(at(u16::MAX, u16::MAX), Some((27, 45)));
    assert_eq!(at(30, 5), Some((4, 5)));
    assert_eq!(mouse_at(mouse(30, 5), 1, 2), mouse(2, 1));
}

#[test]
fn detects_vertical_selection_edges() {
    let layout = layout();
    let event = |row: u16| mouse(layout.editor.x + 2, row);
    assert_eq!(edge_scroll_direction(layout, PaneId::Editor, event(1)), 1);
    assert_eq!(edge_scroll_direction(layout, PaneId::Editor, event(10)), 0);
    let bottom = layout.editor.y + layout.editor.height;
    assert_eq!(edge_scroll_direction(layout, PaneId::Editor, event(bottom - 2)), -1);
}

#[test]
fn sidebar_tree_viewport_excludes_normal_and_prompt_chrome() {
    let area = rect(0, 0, 24, 12);
    let normal =
        SidebarTrustChrome { state: WorkspaceTrustState::Untrusted, confirming: false };
    let prompt = SidebarTrustChrome { confirming: true, ..normal };
    assert_eq!(sidebar_tree_viewport_rows(area, normal), 9);
    assert_eq!(sidebar_tree_viewport_rows(area, prompt), 6);
}

#[test]
fn handles_show_which_way_they_go() {
    let open = render_layout_controls(layout());
    assert!(open.is_some());
    let compact = WorkbenchLayout { compact: true, ..layout() };
    assert_eq!(render_layout_controls(compact), None);
    let hidden = WorkbenchLayout { sidebar: rect(0, 0, 0, 40), ..layout() };
    assert_ne!(render_layout_controls(hidden), open);
}

#[test]
fn dragging_a_border_back_restores_the_split() {
    let layout = layout();
    let config = WorkbenchLayoutConfig { editor_width: Some(layout.editor.width), ..config() };
    let drag = |column: u16| {
        layout_drag_config(
            LayoutDivider::EditorAgent,
            mouse(layout.agent.x, 2),
            mouse(column, 2),
            layout,
            config,
            MINIMUMS,
        )
    };
    assert_eq!(drag(layout.agent.x - 60).editor_width, Some(MINIMUMS.terminal_width));
    assert_eq!(drag(layout.agent.x), config);
}

#[test]
fn a_menu_at_the_last_columns_is_cut() {
    let menu = ContextMenu::new(rect(65530, 0, 10, 10), 65535, 5, true);
    assert_eq!(menu.area(), rect(65530, 5, 5, 4));
    assert_eq!(menu.action_at(65531, 6), Some(ContextMenuAction::Copy));
    assert_eq!(menu.action_at(65534, 6), None);
}
