//! The whole program, event by event.

use ami_workbench::context_menu::ContextMenuAction;
use ami_workbench::geometry::Rect;
use ami_workbench::input::{
    KeyCode, KeyEvent, KeyModifiers, MouseButton, MouseEvent, MouseEventKind, CONTROL, SUPER,
};
use ami_workbench::jobs::{Job, MutationOutcome, Response, SidebarMutation};
use ami_workbench::load::{DirectoryItem, DirectoryReader, FileType};
use ami_workbench::path::PathBuf;
use ami_workbench::runtime::{
    apply_sidebar_open_result, trust_capability_changed, trust_confirmation_after_refresh,
    trust_restart_key, AppRuntime, Handled,
};
use ami_workbench::runtime_replies::{Event, LaunchFacts, LayoutLoad, TrustLoad};
use ami_workbench::runtime_state::{Effect, MouseFacts};
use ami_workbench::runtime_view::{PaneBody, ScreenPlan};
use ami_workbench::sessions::{
    BackendOperation, FileOpenDelivery, PaneSizes, PasteFailure, PollReport, RestartDecision,
    SessionEffect, SessionKey, SpawnOutcome,
};
use ami_workbench::sidebar_view::SidebarEditKind;
use ami_workbench::trust::WorkspaceTrustState;
use ami_workbench::workbench::{
    LaunchMode, LayoutDivider, LayoutHandle, MouseTarget, PaneId, PaneMinimums, ShellTabId,
    ShellTabTarget, TerminalPoint, TerminalSize, WorkbenchLayout, WorkbenchLayoutConfig,
    WorkbenchState,
};

const MILLISECOND: u128 = 1_000_000;
const SECOND: u128 = 1_000_000_000;

const EDITOR: SessionKey = SessionKey::Pane(PaneId::Editor);
const AGENT: SessionKey = SessionKey::Pane(PaneId::Agent);
const SHELL: SessionKey = SessionKey::Shell(ShellTabId(1));

const MINIMUMS: PaneMinimums =
    PaneMinimums { terminal_width: 10, terminal_height: 4, shell_height: 5 };

const CONFIG: WorkbenchLayoutConfig =
    WorkbenchLayoutConfig { sidebar_width: 24, editor_width: None, bottom_height: 10 };

fn rect(x: u16, y: u16, width: u16, height: u16) -> Rect {
    Rect { x, y, width, height }
}

fn path(text: &str) -> PathBuf {
    PathBuf::from_bytes(text.as_bytes())
}

fn size(cols: u16, rows: u16) -> TerminalSize {
    TerminalSize { cols, rows }
}

fn sizes() -> PaneSizes {
    PaneSizes { editor: size(46, 28), agent: size(46, 28), shell: size(94, 7) }
}

fn layout() -> WorkbenchLayout {
    WorkbenchLayout {
        sidebar: rect(0, 0, 24, 40),
        editor: rect(24, 0, 48, 30),
        agent: rect(72, 0, 48, 30),
        bottom: rect(24, 30, 96, 10),
        compact: false,
    }
}

fn facts(trust: TrustLoad) -> LaunchFacts {
    LaunchFacts {
        root: path("/w"),
        area: rect(0, 0, 120, 40),
        config: CONFIG,
        saved: LayoutLoad::Missing,
        trust,
        layout: layout(),
        sizes: sizes(),
        shell: "zsh".to_owned(),
        worker: Ok(()),
    }
}

fn key(code: KeyCode, bits: u8) -> Event {
    Event::Key(KeyEvent { code, modifiers: KeyModifiers { bits } })
}

fn mouse(kind: MouseEventKind, column: u16, row: u16, target: Option<MouseTarget>) -> Event {
    let event = MouseEvent { kind, column, row, modifiers: KeyModifiers { bits: 0 } };
    Event::Mouse(
        event,
        MouseFacts {
            target,
            tab: None,
            mouse_reporting: false,
            sizes: sizes(),
            minimums: MINIMUMS,
        },
    )
}

fn down(column: u16, row: u16, target: MouseTarget) -> Event {
    mouse(MouseEventKind::Down(MouseButton::Left), column, row, Some(target))
}

fn drag(column: u16, row: u16) -> Event {
    mouse(MouseEventKind::Drag(MouseButton::Left), column, row, None)
}

fn up(column: u16, row: u16, target: MouseTarget) -> Event {
    mouse(MouseEventKind::Up(MouseButton::Left), column, row, Some(target))
}

fn effects(handled: Handled) -> Vec<Effect> {
    match handled {
        Handled::Continue(effects) => effects,
        Handled::Quit(_) => panic!("the program ended"),
    }
}

/// Starts whatever is to be started.
fn carry_out(runtime: &mut AppRuntime, effects: &[Effect], now: u128) {
    for effect in effects {
        if let Effect::Session(SessionEffect::Spawn { key, identity, .. }) = effect {
            runtime.spawn_answered(
                *key,
                *identity,
                now,
                SpawnOutcome::Started { display_name: "proc".to_owned() },
            );
        }
    }
}

fn workbench(trust: WorkspaceTrustState) -> AppRuntime {
    let (mut runtime, effects) =
        AppRuntime::new(LaunchMode::Workbench, facts(TrustLoad::Resolved(trust)), 0);
    carry_out(&mut runtime, &effects, 0);
    runtime
}

/// A workbench whose sidebar lists a directory and a file.
fn listed(trust: WorkspaceTrustState) -> AppRuntime {
    list(workbench(trust))
}

fn list(mut runtime: AppRuntime) -> AppRuntime {
    let mut replies = Vec::new();
    while let Some(job) = runtime.take_job() {
        match job {
            Job::Load { id, path: place, root, ancestor_targets, cap } => {
                let mut reader = DirectoryReader::start(
                    root,
                    place.duplicate(),
                    ancestor_targets,
                    cap,
                    Ok(place.duplicate()),
                )
                .ok()
                .unwrap();
                let items = [
                    ("dir", FileType::Directory { canonical: Some(path("/w/dir")) }),
                    ("file", FileType::File),
                ];
                for (name, file_type) in items {
                    reader
                        .accept(Ok(DirectoryItem {
                            name: name.as_bytes().to_vec(),
                            file_type: Ok(file_type),
                        }))
                        .unwrap();
                }
                replies.push(Response::Load { id, path: place, result: Ok(reader.finish()) });
            }
            Job::Git { id, .. } => replies.push(Response::Git { id, result: Ok(Vec::new()) }),
            Job::Mutation { .. } => panic!("no operation was asked for"),
        }
    }
    runtime.tick_sidebar(0, replies, Vec::new());
    runtime
}

/// The rows of the sidebar: the trust line, the root, the directory, the file.
fn sidebar_row(row: u16) -> MouseTarget {
    MouseTarget::Sidebar { row, col: 2 }
}

fn click(runtime: &mut AppRuntime, row: u16, now: u128) -> Vec<Effect> {
    runtime.handle_event(down(3, row + 1, sidebar_row(row)), now);
    effects(runtime.handle_event(up(3, row + 1, sidebar_row(row)), now))
}

fn status(runtime: &AppRuntime) -> Option<&str> {
    runtime.status().map(String::as_str)
}

#[test]
fn sidebar_open_focuses_editor_only_on_success_and_reports_failures() {
    let mut workbench = WorkbenchState::default();
    workbench.focus_pane(PaneId::Sidebar);
    let mut status = Some("old".to_string());

    apply_sidebar_open_result(&mut workbench, &mut status, FileOpenDelivery::Unavailable);
    assert_eq!(workbench.focused_pane(), PaneId::Sidebar);
    assert_eq!(status.as_deref(), Some("editor unavailable; file was not opened"));

    apply_sidebar_open_result(
        &mut workbench,
        &mut status,
        FileOpenDelivery::Failed("remote failed".to_string()),
    );
    assert_eq!(workbench.focused_pane(), PaneId::Sidebar);
    assert!(status.as_deref().unwrap().contains("remote failed"));

    apply_sidebar_open_result(&mut workbench, &mut status, FileOpenDelivery::Opened);
    assert_eq!(workbench.focused_pane(), PaneId::Editor);
    assert_eq!(status, None);
}

#[test]
fn trust_refresh_cancels_stale_confirmation_prompts() {
    assert!(!trust_confirmation_after_refresh(
        true,
        WorkspaceTrustState::Untrusted,
        WorkspaceTrustState::Trusted,
        false
    ));
    assert!(!trust_confirmation_after_refresh(
        true,
        WorkspaceTrustState::Untrusted,
        WorkspaceTrustState::Untrusted,
        true
    ));
    assert!(trust_confirmation_after_refresh(
        true,
        WorkspaceTrustState::Untrusted,
        WorkspaceTrustState::Untrusted,
        false
    ));
    assert!(!trust_confirmation_after_refresh(
        false,
        WorkspaceTrustState::Untrusted,
        WorkspaceTrustState::Untrusted,
        false
    ));
}

#[test]
fn trust_capability_transitions_restart_only_the_agent_slot() {
    assert!(trust_capability_changed(
        WorkspaceTrustState::Trusted,
        WorkspaceTrustState::Untrusted
    ));
    assert!(trust_capability_changed(
        WorkspaceTrustState::Stale,
        WorkspaceTrustState::Trusted
    ));
    assert!(!trust_capability_changed(
        WorkspaceTrustState::Untrusted,
        WorkspaceTrustState::Stale
    ));
    assert_eq!(
        trust_restart_key(LaunchMode::Workbench),
        Some(SessionKey::Pane(PaneId::Agent))
    );
    assert_eq!(
        trust_restart_key(LaunchMode::Pi),
        Some(SessionKey::Pane(PaneId::Editor))
    );
    assert_eq!(trust_restart_key(LaunchMode::Nvim), None);
    assert_eq!(trust_restart_key(LaunchMode::Shell), None);
}

#[test]
fn a_workbench_starts_three_processes_and_asks_for_its_tree() {
    let (mut runtime, effects) = AppRuntime::new(
        LaunchMode::Workbench,
        facts(TrustLoad::Resolved(WorkspaceTrustState::Trusted)),
        0,
    );
    assert_eq!(effects.len(), 3);
    assert_eq!(status(&runtime), None);
    assert_eq!(runtime.layout(), Some(layout()));
    assert_eq!(runtime.layout_config(), CONFIG);
    assert!(matches!(runtime.take_job(), Some(Job::Load { .. })));
    assert!(matches!(runtime.take_job(), Some(Job::Git { .. })));
    assert!(runtime.take_job().is_none());
}

#[test]
fn a_single_process_has_neither_layout_nor_sidebar() {
    let (runtime, effects) = AppRuntime::new(
        LaunchMode::Nvim,
        facts(TrustLoad::Unavailable("no home".to_owned())),
        0,
    );
    assert_eq!(effects.len(), 1);
    assert_eq!(status(&runtime), None);
    assert_eq!(runtime.layout(), None);
    assert!(runtime.sidebar().is_none());
    assert_eq!(runtime.sidebar_trust_chrome().state, WorkspaceTrustState::Untrusted);
}

#[test]
fn trouble_at_the_start_is_told() {
    let mut given = facts(TrustLoad::Resolved(WorkspaceTrustState::Trusted));
    given.saved = LayoutLoad::Ignored("bad file".to_owned());
    given.worker = Err("no threads".to_owned());
    let (runtime, _) = AppRuntime::new(LaunchMode::Workbench, given, 0);
    assert_eq!(status(&runtime), Some("saved layout ignored: bad file"));
    assert!(runtime.sidebar().is_none());

    let mut given = facts(TrustLoad::Unresolved("denied".to_owned()));
    given.saved = LayoutLoad::Unavailable("no home".to_owned());
    let (runtime, _) = AppRuntime::new(LaunchMode::Workbench, given, 0);
    assert_eq!(status(&runtime), Some("workspace trust unavailable: denied"));
    assert_eq!(runtime.sidebar_trust_chrome().state, WorkspaceTrustState::Untrusted);

    let mut given = facts(TrustLoad::Resolved(WorkspaceTrustState::Trusted));
    given.saved = LayoutLoad::Unavailable("no home".to_owned());
    let (runtime, _) = AppRuntime::new(LaunchMode::Workbench, given, 0);
    assert_eq!(status(&runtime), Some("layout persistence unavailable: no home"));

    let saved = WorkbenchLayoutConfig { sidebar_width: 30, ..CONFIG };
    let mut given = facts(TrustLoad::Resolved(WorkspaceTrustState::Trusted));
    given.saved = LayoutLoad::Loaded(saved);
    let (runtime, _) = AppRuntime::new(LaunchMode::Workbench, given, 0);
    assert_eq!(runtime.layout_config(), saved);
}

#[test]
fn keys_go_to_the_pane_that_has_the_focus() {
    let mut runtime = workbench(WorkspaceTrustState::Trusted);
    let sent = effects(runtime.handle_event(key(KeyCode::Char('x'), 0), 0));
    assert!(matches!(sent[..], [Effect::SendKey { key: EDITOR, .. }]));
    let content = MouseTarget::Content { pane: PaneId::Bottom, row: 1, col: 1 };
    runtime.handle_event(down(30, 33, content), 0);
    let sent = effects(runtime.handle_event(key(KeyCode::Char('x'), 0), 0));
    assert!(matches!(sent[..], [Effect::SendKey { key: SHELL, .. }]));
}

#[test]
fn a_key_starts_a_process_that_does_not_run() {
    let (mut runtime, _) = AppRuntime::new(
        LaunchMode::Shell,
        facts(TrustLoad::Resolved(WorkspaceTrustState::Trusted)),
        0,
    );
    let sent = effects(runtime.handle_event(key(KeyCode::Enter, 0), 0));
    assert!(matches!(
        sent[..],
        [
            Effect::Session(SessionEffect::ResetPolicy(EDITOR)),
            Effect::Session(SessionEffect::Spawn { key: EDITOR, .. }),
        ]
    ));
}

#[test]
fn the_quit_key_stops_everything_for_good() {
    let mut runtime = workbench(WorkspaceTrustState::Trusted);
    let last = match runtime.handle_event(key(KeyCode::Char('q'), CONTROL), 0) {
        Handled::Quit(last) => last,
        Handled::Continue(_) => panic!("the program goes on"),
    };
    assert_eq!(last.len(), 6);
    for place in [EDITOR, AGENT, SHELL] {
        let ended = last.iter().position(|effect| *effect == SessionEffect::Terminate(place));
        let cleaned = last.iter().position(|effect| *effect == SessionEffect::Cleanup(place));
        assert!(ended.unwrap() < cleaned.unwrap());
    }
    assert!(effects(runtime.handle_event(key(KeyCode::Enter, 0), 0)).is_empty());
    assert!(runtime.refresh_trust_state(Err("denied".to_owned())).is_empty());
}

#[test]
fn pastes_go_where_keys_go() {
    let mut runtime = workbench(WorkspaceTrustState::Trusted);
    let sent = effects(runtime.handle_event(Event::Paste("text".to_owned()), 0));
    let (place, identity) = match &sent[..] {
        [Effect::SendPaste { key, identity, contents }] => {
            assert_eq!(contents, "text");
            (*key, *identity)
        }
        _ => panic!("nothing was pasted"),
    };
    assert_eq!(place, EDITOR);
    let refused = Err(PasteFailure::MultilineUnsupported);
    let paused = RestartDecision::Paused;
    assert!(runtime.paste_finished(place, identity, refused, 0, paused).unwrap().is_empty());
    assert_eq!(
        status(&runtime),
        Some("paste rejected: multi-line paste requires backend bracketed-paste support")
    );
    runtime.paste_finished(place, identity, Ok(()), 0, paused).unwrap();
    assert_eq!(status(&runtime), None);
    let broken = Err(PasteFailure::Write("gone".to_owned()));
    let sent = runtime.paste_finished(place, identity, broken, 0, paused).unwrap();
    assert_eq!(sent.len(), 2);
    assert_eq!(status(&runtime), Some("paste failed; backend will restart"));
    assert_eq!(
        runtime.sessions().status(EDITOR, 0, true).unwrap(),
        "backend paste error: gone; paused (click to retry)"
    );
    assert!(effects(runtime.handle_event(Event::Paste("more".to_owned()), 0)).is_empty());
    assert_eq!(status(&runtime), Some("focused pane does not accept paste"));
}

#[test]
fn the_clipboard_is_read_and_written() {
    let mut runtime = workbench(WorkspaceTrustState::Trusted);
    let sent = effects(runtime.handle_event(key(KeyCode::Char('v'), SUPER), 0));
    assert!(matches!(sent[..], [Effect::ReadClipboard]));
    let sent = runtime.clipboard_read(Ok("text".to_owned()));
    assert!(matches!(sent[..], [Effect::SendPaste { key: EDITOR, .. }]));
    assert!(runtime.clipboard_read(Err("denied".to_owned())).is_empty());
    assert_eq!(status(&runtime), Some("clipboard error: denied"));
    runtime.copy_finished(Ok(()));
    assert_eq!(status(&runtime), None);
    runtime.copy_finished(Err("busy".to_owned()));
    assert_eq!(status(&runtime), Some("clipboard error: busy"));
}

#[test]
fn a_drag_selects_and_the_selection_can_be_copied() {
    let mut runtime = workbench(WorkspaceTrustState::Trusted);
    let content = MouseTarget::Content { pane: PaneId::Agent, row: 4, col: 2 };
    runtime.handle_event(down(75, 5, content), 0);
    let sent = effects(runtime.handle_event(drag(80, 7), 0));
    assert!(matches!(
        sent[..],
        [
            Effect::BeginSelection { key: AGENT, row: 4, col: 2 },
            Effect::MoveSelection { key: AGENT, row: 6, col: 7 },
        ]
    ));
    runtime.selection_started(TerminalPoint { line: 4, col: 2 });
    runtime.selection_head_moved(TerminalPoint { line: 6, col: 7 });
    let selection = runtime.workbench().selection.unwrap();
    assert_eq!(selection.pane, PaneId::Agent);
    assert_eq!(selection.head, TerminalPoint { line: 6, col: 7 });
    runtime.handle_event(drag(80, 0), 0);
    let sent = runtime.tick_mouse_selection(sizes(), 50 * MILLISECOND);
    assert!(matches!(
        sent[..],
        [Effect::ScrollSelection { key: AGENT, lines: 1, row: 0, col: 7 }]
    ));
    assert!(runtime.tick_mouse_selection(sizes(), 99 * MILLISECOND).is_empty());
    runtime.handle_event(up(80, 7, content), 0);
    let sent = effects(runtime.handle_event(key(KeyCode::Char('c'), CONTROL), 0));
    assert!(matches!(sent[..], [Effect::CopySelection { key: AGENT, .. }]));
    let sent = effects(runtime.handle_event(key(KeyCode::Char('x'), 0), 0));
    assert!(matches!(
        sent[..],
        [Effect::ResetScrollback(AGENT), Effect::SendKey { key: AGENT, .. }]
    ));
    assert!(runtime.workbench().selection.is_none());
}

#[test]
fn a_click_reaches_the_terminal() {
    let mut runtime = workbench(WorkspaceTrustState::Trusted);
    let content = MouseTarget::Content { pane: PaneId::Editor, row: 4, col: 2 };
    runtime.handle_event(down(27, 5, content), 0);
    let sent = effects(runtime.handle_event(up(27, 5, content), 0));
    assert_eq!(sent.len(), 2);
    for effect in &sent {
        assert!(matches!(
            effect,
            Effect::SendMouse { key: EDITOR, event: MouseEvent { column: 2, row: 4, .. }, .. }
        ));
    }
}

#[test]
fn the_wheel_scrolls_what_does_not_report_the_mouse() {
    let mut runtime = workbench(WorkspaceTrustState::Trusted);
    let content = Some(MouseTarget::Content { pane: PaneId::Editor, row: 4, col: 2 });
    let sent = effects(runtime.handle_event(mouse(MouseEventKind::ScrollUp, 27, 5, content), 0));
    assert!(matches!(sent[..], [Effect::ScrollViewport { key: EDITOR, lines: 3 }]));
    let mut event = mouse(MouseEventKind::ScrollDown, 27, 5, content);
    if let Event::Mouse(_, facts) = &mut event {
        facts.mouse_reporting = true;
    }
    let sent = effects(runtime.handle_event(event, 0));
    assert!(matches!(sent[..], [Effect::SendMouse { key: EDITOR, .. }]));
}

#[test]
fn the_tab_row_belongs_to_the_tabs() {
    let mut runtime = workbench(WorkspaceTrustState::Trusted);
    let content = Some(MouseTarget::Content { pane: PaneId::Bottom, row: 0, col: 0 });
    let tab_click = |tab: Option<ShellTabTarget>| {
        let mut event = mouse(MouseEventKind::Down(MouseButton::Left), 30, 31, content);
        if let Event::Mouse(_, facts) = &mut event {
            facts.tab = tab;
        }
        event
    };
    assert!(effects(runtime.handle_event(tab_click(None), 0)).is_empty());
    assert_eq!(runtime.workbench().focused, PaneId::Bottom);
    let moved = mouse(MouseEventKind::Moved, 30, 31, content);
    assert!(effects(runtime.handle_event(moved, 0)).is_empty());
    let sent = effects(runtime.handle_event(tab_click(Some(ShellTabTarget::Plus)), 0));
    assert!(matches!(sent[..], [Effect::OpenTab]));
    let sent = runtime.tab_opened(ShellTabId(2), ShellTabId(2), size(94, 7)).unwrap();
    carry_out(&mut runtime, &sent, 0);
    assert_eq!(runtime.workbench().active_shell, ShellTabId(2));
    let body = ShellTabTarget::Body(ShellTabId(1));
    let sent = effects(runtime.handle_event(tab_click(Some(body)), 0));
    assert!(matches!(sent[..], [Effect::SelectTab(ShellTabId(1))]));
    let close = ShellTabTarget::Close(ShellTabId(1));
    let sent = effects(runtime.handle_event(tab_click(Some(close)), 0));
    assert!(matches!(sent[..], [Effect::CloseTab(ShellTabId(1))]));
    let sent = runtime.tab_closed(Some((ShellTabId(1), None)), ShellTabId(2));
    assert!(matches!(sent[..], [Effect::Session(SessionEffect::Terminate(SHELL))]));
    assert!(!runtime.sessions().contains(SHELL));
}

#[test]
fn a_dragged_border_moves_and_can_be_put_back() {
    let mut runtime = workbench(WorkspaceTrustState::Trusted);
    let divider = MouseTarget::Divider(LayoutDivider::SidebarMain);
    runtime.handle_event(down(24, 5, divider), 0);
    let sent = effects(runtime.handle_event(drag(30, 5), 0));
    assert!(matches!(sent[..], [Effect::Relayout]));
    assert_eq!(runtime.layout_config().sidebar_width, 30);
    runtime.handle_event(key(KeyCode::Esc, 0), 0);
    assert_eq!(runtime.layout_config(), CONFIG);

    runtime.handle_event(down(24, 5, divider), 0);
    runtime.handle_event(drag(30, 5), 0);
    let sent = effects(runtime.handle_event(up(30, 5, divider), 0));
    assert!(matches!(sent[..], [Effect::SaveLayout]));
    assert_eq!(runtime.layout_config().sidebar_width, 30);
    runtime.layout_saved(Err("disk full".to_owned()));
    assert_eq!(status(&runtime), Some("failed to save layout: disk full"));
    runtime.layout_saved(Ok(()));
    assert_eq!(status(&runtime), None);
    runtime.copy_finished(Err("busy".to_owned()));
    runtime.layout_saved(Ok(()));
    assert_eq!(status(&runtime), Some("clipboard error: busy"));
}

#[test]
fn a_handle_hides_its_pane() {
    let mut runtime = workbench(WorkspaceTrustState::Trusted);
    let handle = MouseTarget::Handle(LayoutHandle::Bottom);
    runtime.handle_event(down(24, 30, handle), 0);
    let sent = effects(runtime.handle_event(up(24, 30, handle), 0));
    assert!(matches!(
        sent[..],
        [Effect::Toggle(LayoutHandle::Bottom), Effect::Relayout, Effect::SaveLayout]
    ));
}

#[test]
fn clicking_a_file_twice_opens_it() {
    let mut runtime = listed(WorkspaceTrustState::Trusted);
    assert!(click(&mut runtime, 3, 0).is_empty());
    assert_eq!(runtime.sidebar().unwrap().selected_path(), Some(&path("/w/file")));
    let sent = click(&mut runtime, 3, 400 * MILLISECOND);
    assert!(matches!(&sent[..], [Effect::OpenFile(opened)] if *opened == path("/w/file")));
    runtime.apply_sidebar_open_result(FileOpenDelivery::Opened);
    assert_eq!(runtime.workbench().focused, PaneId::Editor);
    assert!(click(&mut runtime, 3, SECOND).is_empty());
    assert!(click(&mut runtime, 3, 2 * SECOND).is_empty());
}

#[test]
fn a_file_is_not_opened_without_an_editor() {
    let mut runtime = listed(WorkspaceTrustState::Trusted);
    let identity = runtime.sessions().get(EDITOR).unwrap();
    runtime
        .operation_failed(
            EDITOR,
            identity,
            BackendOperation::Input,
            "gone",
            0,
            RestartDecision::Paused,
        )
        .unwrap();
    click(&mut runtime, 3, 0);
    assert!(click(&mut runtime, 3, MILLISECOND).is_empty());
    assert_eq!(status(&runtime), Some("editor unavailable; file was not opened"));
}

fn open_menu(runtime: &mut AppRuntime, row: u16) {
    let event = mouse(
        MouseEventKind::Down(MouseButton::Right),
        3,
        row + 1,
        Some(sidebar_row(row)),
    );
    assert!(effects(runtime.handle_event(event, 0)).is_empty());
}

/// The cell of an item of the open menu.
fn item_cell(runtime: &AppRuntime, action: ContextMenuAction) -> Option<(u16, u16)> {
    let menu = &runtime.context_menu().unwrap().menu;
    let area = menu.area();
    for row in area.y..area.y + area.height {
        if menu.action_at(area.x + 1, row) == Some(action) {
            return Some((area.x + 1, row));
        }
    }
    None
}

fn pick(runtime: &mut AppRuntime, action: ContextMenuAction) {
    let (column, row) = item_cell(runtime, action).unwrap();
    let event = mouse(MouseEventKind::Down(MouseButton::Left), column, row, None);
    assert!(effects(runtime.handle_event(event, 0)).is_empty());
    assert!(runtime.context_menu().is_none());
}

#[test]
fn a_file_is_made_from_the_menu() {
    let mut runtime = listed(WorkspaceTrustState::Trusted);
    open_menu(&mut runtime, 3);
    pick(&mut runtime, ContextMenuAction::NewFile);
    let edit = runtime.sidebar_edit().unwrap();
    assert_eq!(edit.kind, SidebarEditKind::NewFile);
    assert_eq!(edit.target, path("/w"));
    for character in ['a', 'b', 'c'] {
        runtime.handle_event(key(KeyCode::Char(character), 0), 0);
    }
    runtime.handle_event(key(KeyCode::Backspace, 0), 0);
    runtime.handle_event(Event::Paste("d".to_owned()), 0);
    assert_eq!(runtime.sidebar_edit().unwrap().value, "abd");
    runtime.handle_event(key(KeyCode::Enter, 0), 0);
    assert!(runtime.sidebar_edit().unwrap().pending);
    assert_eq!(status(&runtime), Some("sidebar file operation pending"));
    runtime.handle_event(key(KeyCode::Char('x'), 0), 0);
    runtime.handle_event(down(3, 3, sidebar_row(2)), 0);
    assert_eq!(runtime.sidebar_edit().unwrap().value, "abd");
    let id = loop {
        match runtime.take_job() {
            Some(Job::Mutation { id, trust, .. }) => {
                assert!(trust);
                break id;
            }
            Some(_) => continue,
            None => panic!("no operation was asked for"),
        }
    };
    let outcome = MutationOutcome { affected_parent: path("/w"), selected: path("/w/abd") };
    runtime.tick_sidebar(
        0,
        vec![Response::Mutation { id, result: Ok(outcome) }],
        Vec::new(),
    );
    assert!(runtime.sidebar_edit().is_none());
    assert_eq!(status(&runtime), None);
}

#[test]
fn a_failed_operation_can_be_tried_again() {
    let mut runtime = listed(WorkspaceTrustState::Trusted);
    open_menu(&mut runtime, 3);
    pick(&mut runtime, ContextMenuAction::Rename);
    assert_eq!(runtime.sidebar_edit().unwrap().value, "file");
    runtime.handle_event(key(KeyCode::Enter, 0), 0);
    let id = match runtime.take_job() {
        Some(Job::Mutation { id, .. }) => id,
        _ => panic!("no operation was asked for"),
    };
    runtime.tick_sidebar(
        0,
        vec![Response::Mutation { id, result: Err("taken".to_owned()) }],
        Vec::new(),
    );
    let edit = runtime.sidebar_edit().unwrap();
    assert!(!edit.pending);
    assert_eq!(edit.error.as_deref(), Some("taken"));
    assert_eq!(status(&runtime), Some("taken"));
    runtime.handle_event(key(KeyCode::Esc, 0), 0);
    assert!(runtime.sidebar_edit().is_none());
    assert_eq!(status(&runtime), None);
}

#[test]
fn deleting_is_asked_about_first() {
    let mut runtime = listed(WorkspaceTrustState::Trusted);
    open_menu(&mut runtime, 3);
    pick(&mut runtime, ContextMenuAction::Delete);
    assert_eq!(
        status(&runtime),
        Some("move /w/file to trash? Enter confirm, Esc cancel")
    );
    runtime.handle_event(key(KeyCode::Esc, 0), 0);
    assert!(runtime.sidebar_delete().is_none());
    open_menu(&mut runtime, 3);
    pick(&mut runtime, ContextMenuAction::Delete);
    runtime.handle_event(key(KeyCode::Enter, 0), 0);
    assert!(runtime.sidebar_delete().unwrap().pending);
    assert_eq!(status(&runtime), Some("moving /w/file to trash..."));
}

/// A workbench whose root is not written with single slashes.
fn spelled() -> AppRuntime {
    let mut facts = facts(TrustLoad::Resolved(WorkspaceTrustState::Trusted));
    facts.root = path("/./w//");
    let (mut runtime, effects) = AppRuntime::new(LaunchMode::Workbench, facts, 0);
    carry_out(&mut runtime, &effects, 0);
    list(runtime)
}

#[test]
fn paths_go_out_as_they_are_written() {
    let mut runtime = spelled();
    let rows = runtime.sidebar().unwrap().all_visible_rows();
    let texts: Vec<Vec<u8>> = rows.iter().map(|row| row.path.to_bytes()).collect();
    assert_eq!(texts, [b"/./w//".to_vec(), b"/./w//dir".to_vec(), b"/./w//file".to_vec()]);
    assert!(click(&mut runtime, 3, 0).is_empty());
    assert_eq!(runtime.sidebar().unwrap().selected_path().unwrap().to_bytes(), b"/./w//file");
    let sent = click(&mut runtime, 3, MILLISECOND);
    assert!(matches!(&sent[..], [Effect::OpenFile(opened)] if opened.to_bytes() == b"/./w//file"));
}

#[test]
fn operations_are_asked_for_as_paths_are_written() {
    let mut runtime = spelled();
    open_menu(&mut runtime, 3);
    let target = runtime.context_menu().unwrap().sidebar_target.as_ref().unwrap();
    assert_eq!(target.to_bytes(), b"/./w//file");
    pick(&mut runtime, ContextMenuAction::NewFile);
    assert_eq!(runtime.sidebar_edit().unwrap().target.to_bytes(), b"/./w");
    runtime.handle_event(key(KeyCode::Esc, 0), 0);
    open_menu(&mut runtime, 3);
    pick(&mut runtime, ContextMenuAction::Delete);
    assert_eq!(runtime.sidebar_delete().unwrap().target.to_bytes(), b"/./w//file");
    runtime.handle_event(key(KeyCode::Esc, 0), 0);
    open_menu(&mut runtime, 3);
    pick(&mut runtime, ContextMenuAction::Rename);
    assert_eq!(runtime.sidebar_edit().unwrap().target.to_bytes(), b"/./w//file");
    runtime.handle_event(key(KeyCode::Enter, 0), 0);
    loop {
        match runtime.take_job() {
            Some(Job::Mutation { root, mutation: SidebarMutation::Rename { source, name }, .. }) => {
                assert_eq!(root.to_bytes(), b"/./w//");
                assert_eq!(source.to_bytes(), b"/./w//file");
                assert_eq!(name, "file");
                break;
            }
            Some(_) => continue,
            None => panic!("no operation was asked for"),
        }
    }
}

#[test]
fn questions_show_the_root_as_it_is_written() {
    let mut runtime = spelled();
    open_menu(&mut runtime, 3);
    pick(&mut runtime, ContextMenuAction::Delete);
    assert_eq!(
        status(&runtime),
        Some("move /./w//file to trash? Enter confirm, Esc cancel")
    );
}

#[test]
fn an_untrusted_workspace_offers_nothing() {
    let mut runtime = listed(WorkspaceTrustState::Untrusted);
    open_menu(&mut runtime, 3);
    for action in [
        ContextMenuAction::NewFile,
        ContextMenuAction::NewFolder,
        ContextMenuAction::Rename,
        ContextMenuAction::Delete,
    ] {
        assert_eq!(item_cell(&runtime, action), None);
    }
}

#[test]
fn the_root_is_neither_renamed_nor_deleted() {
    let mut runtime = listed(WorkspaceTrustState::Trusted);
    open_menu(&mut runtime, 1);
    assert!(item_cell(&runtime, ContextMenuAction::NewFile).is_some());
    assert_eq!(item_cell(&runtime, ContextMenuAction::Rename), None);
    assert_eq!(item_cell(&runtime, ContextMenuAction::Delete), None);
}

#[test]
fn names_that_are_not_text_are_not_renamed() {
    let mut runtime = workbench(WorkspaceTrustState::Trusted);
    let id = match runtime.take_job() {
        Some(Job::Load { id, .. }) => id,
        _ => panic!("no listing was asked for"),
    };
    let mut reader =
        DirectoryReader::start(path("/w"), path("/w"), Vec::new(), 9, Ok(path("/w")))
            .ok()
            .unwrap();
    reader
        .accept(Ok(DirectoryItem { name: vec![0xff], file_type: Ok(FileType::File) }))
        .unwrap();
    let reply = Response::Load { id, path: path("/w"), result: Ok(reader.finish()) };
    runtime.tick_sidebar(0, vec![reply], Vec::new());
    open_menu(&mut runtime, 2);
    pick(&mut runtime, ContextMenuAction::Rename);
    assert!(runtime.sidebar_edit().is_none());
    assert_eq!(
        status(&runtime),
        Some("non-UTF-8 names cannot be renamed in the sidebar")
    );
}

#[test]
fn trust_is_given_and_taken() {
    let mut runtime = listed(WorkspaceTrustState::Untrusted);
    click(&mut runtime, 0, 0);
    assert!(runtime.sidebar_trust_chrome().confirming);
    let sent = click(&mut runtime, 2, 0);
    assert!(matches!(sent[..], [Effect::PersistTrust(true)]));
    let sent = runtime.trust_written(Ok(()), Ok(WorkspaceTrustState::Trusted));
    assert!(matches!(sent[0], Effect::Session(SessionEffect::Terminate(AGENT))));
    carry_out(&mut runtime, &sent, 0);
    assert_eq!(runtime.sidebar_trust_chrome().state, WorkspaceTrustState::Trusted);
    assert!(!runtime.sidebar_trust_chrome().confirming);
    let sent = click(&mut runtime, 0, 0);
    assert!(matches!(sent[..], [Effect::PersistTrust(false)]));
    assert!(runtime
        .trust_written(Err("denied".to_owned()), Ok(WorkspaceTrustState::Trusted))
        .is_empty());
    assert_eq!(status(&runtime), Some("failed to save workspace trust: denied"));
    let sent = runtime.trust_written(Ok(()), Err("lost".to_owned()));
    assert!(!sent.is_empty());
    assert_eq!(runtime.sidebar_trust_chrome().state, WorkspaceTrustState::Untrusted);
    assert_eq!(status(&runtime), Some("workspace trust unavailable: lost"));
}

#[test]
fn trust_that_cannot_be_read_is_no_trust() {
    let mut runtime = workbench(WorkspaceTrustState::Trusted);
    assert!(!runtime.trust_refresh_due(SECOND - 1));
    assert!(runtime.trust_refresh_due(SECOND));
    assert!(!runtime.trust_refresh_due(2 * SECOND - 1));
    let editor = runtime.sessions().get(EDITOR);
    let sent = runtime.refresh_trust_state(Err("denied".to_owned()));
    assert_eq!(sent.len(), 4);
    carry_out(&mut runtime, &sent, 0);
    assert_eq!(runtime.sessions().get(EDITOR), editor);
    assert_eq!(status(&runtime), Some("workspace trust unavailable: denied"));
    assert!(runtime.refresh_trust_state(Ok(WorkspaceTrustState::Stale)).is_empty());
    assert_eq!(status(&runtime), None);
}

#[test]
fn a_workspace_without_a_store_cannot_be_trusted() {
    let (mut runtime, _) = AppRuntime::new(
        LaunchMode::Workbench,
        facts(TrustLoad::Unavailable("no home".to_owned())),
        0,
    );
    click(&mut runtime, 0, 0);
    assert!(click(&mut runtime, 2, 0).is_empty());
    assert_eq!(status(&runtime), Some("workspace trust persistence is unavailable"));
}

#[test]
fn exited_shells_close_their_tabs() {
    let mut runtime = workbench(WorkspaceTrustState::Trusted);
    let report = PollReport {
        key: SHELL,
        identity: runtime.sessions().get(SHELL).unwrap(),
        exited: Ok(true),
        decision: RestartDecision::Paused,
    };
    let (sent, exited) = runtime.poll_sessions(vec![report], SECOND);
    assert!(sent.is_empty());
    assert_eq!(exited, [ShellTabId(1)]);
    let sent = runtime.close_shell_tab(ShellTabId(1));
    assert!(matches!(sent[..], [Effect::CloseTab(ShellTabId(1))]));
}

#[test]
fn another_layout_resizes_what_has_room() {
    let mut runtime = workbench(WorkspaceTrustState::Trusted);
    runtime.begin_resize(rect(0, 0, 100, 30));
    assert_eq!(runtime.viewport_area(), rect(0, 0, 100, 30));
    let narrow = WorkbenchLayout { agent: rect(72, 0, 4, 30), ..layout() };
    let tabs = vec![ShellTabId(1)];
    let sent = runtime.finish_resize(narrow, true, &tabs, sizes(), MINIMUMS);
    assert!(matches!(
        sent[..],
        [Effect::ResizeSession { key: EDITOR, .. }, Effect::ResizeSession { key: SHELL, .. }]
    ));
    assert_eq!(runtime.layout(), Some(narrow));
}

#[test]
fn the_screen_shows_the_panes_that_have_room() {
    let mut runtime = listed(WorkspaceTrustState::Trusted);
    let (sidebar, panes) = match runtime.render(rect(0, 0, 120, 40), MINIMUMS, 0) {
        Some(ScreenPlan::Panes { sidebar, panes, controls, menu }) => {
            assert!(controls.is_some());
            assert!(menu.is_none());
            (sidebar, panes)
        }
        _ => panic!("nothing is shown"),
    };
    assert_eq!(sidebar.unwrap().lines.len(), 4);
    let titles: Vec<&str> = panes.iter().map(|pane| pane.title.as_str()).collect();
    assert_eq!(titles, ["proc", "proc", "  shell"]);
    assert!(panes[0].focused);
    assert!(matches!(panes[0].body, PaneBody::Session));
    assert!(matches!(panes[2].body, PaneBody::Shell { running: true, message: None }));
    let identity = runtime.sessions().get(AGENT).unwrap();
    runtime
        .operation_failed(
            AGENT,
            identity,
            BackendOperation::Poll,
            "gone",
            0,
            RestartDecision::Paused,
        )
        .unwrap();
    let panes = match runtime.render(rect(0, 0, 120, 40), MINIMUMS, 0) {
        Some(ScreenPlan::Panes { panes, .. }) => panes,
        _ => panic!("nothing is shown"),
    };
    assert!(matches!(
        &panes[1].body,
        PaneBody::Unavailable { status } if status == "backend error: gone; paused (click to retry)"
    ));
    let compact = WorkbenchLayout { compact: true, ..layout() };
    runtime.finish_resize(compact, true, &Vec::new(), sizes(), MINIMUMS);
    assert!(matches!(
        runtime.render(rect(0, 0, 9, 9), MINIMUMS, 0),
        Some(ScreenPlan::Compact)
    ));
}

#[test]
fn a_new_layout_ends_gestures_and_menus() {
    let mut runtime = listed(WorkspaceTrustState::Trusted);
    open_menu(&mut runtime, 3);
    let tabs = vec![ShellTabId(1)];
    runtime.finish_resize(layout(), true, &tabs, sizes(), MINIMUMS);
    assert!(runtime.context_menu().is_some());
    let wider = WorkbenchLayout { sidebar: rect(0, 0, 20, 40), ..layout() };
    runtime.finish_resize(wider, true, &tabs, sizes(), MINIMUMS);
    assert!(runtime.context_menu().is_none());
}

#[test]
fn a_selection_ends_before_its_tab_does() {
    let mut runtime = workbench(WorkspaceTrustState::Trusted);
    let content = MouseTarget::Content { pane: PaneId::Bottom, row: 1, col: 1 };
    runtime.handle_event(down(30, 33, content), 0);
    runtime.handle_event(drag(31, 34), 0);
    runtime.selection_started(TerminalPoint { line: 1, col: 1 });
    let sent = runtime.close_shell_tab(ShellTabId(1));
    assert!(matches!(
        sent[..],
        [Effect::ResetScrollback(SHELL), Effect::CloseTab(ShellTabId(1))]
    ));
    assert!(runtime.workbench().selection.is_none());
}

#[test]
fn shortcuts_do_not_enter_a_name() {
    let mut runtime = listed(WorkspaceTrustState::Trusted);
    open_menu(&mut runtime, 3);
    pick(&mut runtime, ContextMenuAction::NewFolder);
    runtime.handle_event(key(KeyCode::Char('x'), CONTROL), 0);
    runtime.handle_event(key(KeyCode::Char('x'), ami_workbench::input::ALT), 0);
    assert_eq!(runtime.sidebar_edit().unwrap().value, "");
    runtime.handle_event(key(KeyCode::Char('x'), SUPER), 0);
    assert_eq!(runtime.sidebar_edit().unwrap().value, "x");
    assert_eq!(runtime.sidebar_edit().unwrap().kind, SidebarEditKind::NewFolder);
}
