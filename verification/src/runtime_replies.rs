//! What the program makes of the answers to what it asked for, as functions of
//! its state.

use vstd::prelude::*;
use vstd::string::*;

use crate::geometry::Rect;
use crate::input::{KeyEvent, MouseEvent};
use crate::path::Part;
use crate::runtime_state::{
    key_pressed, mouse_used, operation_finished, paste_received, quiet, session_effects,
    with_status, EffectView, MouseFacts, RuntimeState, Step, TRUST_REFRESH_INTERVAL,
};
use crate::sessions::{
    all_spawned, failed, operation_text, places_made, shell_added, single_kind, single_name,
    spawn_finished, workbench_places, BackendOperation, OutcomeView, PaneSizes, PasteFailure,
    RegistryView, RestartDecision, SessionEffect, SessionIdentity, SessionKey, SourceView,
};
use crate::state::{default_config, fresh, initial_requested, SidebarState};
use crate::trust::WorkspaceTrustState;
use crate::workbench::{
    initial_workbench, LaunchMode, PaneId, ShellTabId, TerminalSize, WorkbenchLayout,
    WorkbenchLayoutConfig, WorkbenchState,
};

verus! {

/// What the program hears of the user.
pub enum Event {
    Key(KeyEvent),
    Paste(String),
    Mouse(MouseEvent, MouseFacts),
    /// Anything else.
    Other,
}

/// Whether an event ends the program.
pub open spec fn ends_program(event: Event) -> bool {
    match event {
        Event::Key(key) => crate::input::quits(key),
        _ => false,
    }
}

/// An event that does not end the program is taken. The mouse is only for the
/// workbench.
pub open spec fn event_taken(s: RuntimeState, event: Event, now: u128) -> Step {
    match event {
        Event::Key(key) => key_pressed(s, key),
        Event::Paste(contents) => paste_received(s, contents@),
        Event::Mouse(event, facts) => if s.launch_mode.is_workbench() {
            mouse_used(s, event, facts, now)
        } else {
            quiet(s)
        },
        Event::Other => quiet(s),
    }
}

/// The clipboard was written, or could not be.
pub open spec fn copy_answered(s: RuntimeState, result: Result<(), Seq<char>>) -> RuntimeState {
    match result {
        Ok(()) => RuntimeState { status: None, ..s },
        Err(error) => with_status(s, "clipboard error: "@ + error),
    }
}

/// Whether a failure in a place can be dealt with.
pub open spec fn knows_place(s: RuntimeState, key: SessionKey) -> bool {
    s.sessions.shutting_down || s.sessions.slots.contains_key(key)
}

/// Something done with a process failed.
pub open spec fn backend_failed(
    s: RuntimeState,
    key: SessionKey,
    identity: SessionIdentity,
    message: Seq<char>,
    now: u128,
    decision: RestartDecision,
) -> Step {
    let (sessions, effects) = failed(s.sessions, key, identity, now, message, decision);
    (RuntimeState { sessions, ..s }, session_effects(effects))
}

/// Why a process did not take a paste.
pub enum PasteRefusal {
    MultilineUnsupported,
    Write(Seq<char>),
}

/// The answer to a paste, as a value.
pub open spec fn paste_result(answer: Result<(), PasteFailure>) -> Result<(), PasteRefusal> {
    match answer {
        Ok(()) => Ok(()),
        Err(PasteFailure::MultilineUnsupported) => Err(PasteRefusal::MultilineUnsupported),
        Err(PasteFailure::Write(error)) => Err(PasteRefusal::Write(error@)),
    }
}

/// A paste was handed to a process, or could not be.
pub open spec fn paste_answered(
    s: RuntimeState,
    key: SessionKey,
    identity: SessionIdentity,
    answer: Result<(), PasteRefusal>,
    now: u128,
    decision: RestartDecision,
) -> Step {
    match answer {
        Ok(()) => quiet(RuntimeState { status: None, ..s }),
        Err(PasteRefusal::MultilineUnsupported) => quiet(
            with_status(
                s,
                "paste rejected: multi-line paste requires backend bracketed-paste support"@,
            ),
        ),
        Err(PasteRefusal::Write(error)) => {
            let (after, effects) = backend_failed(
                s,
                key,
                identity,
                operation_text(BackendOperation::Paste, error),
                now,
                decision,
            );
            (with_status(after, "paste failed; backend will restart"@), effects)
        },
    }
}

/// A process was started, or could not be.
pub open spec fn spawn_answered(
    s: RuntimeState,
    key: SessionKey,
    identity: SessionIdentity,
    now: u128,
    outcome: OutcomeView,
) -> RuntimeState {
    RuntimeState { sessions: spawn_finished(s.sessions, key, identity, now, outcome), ..s }
}

/// Whether trust is to be looked at again.
pub open spec fn refresh_asked(s: RuntimeState, now: u128) -> (RuntimeState, bool) {
    if now >= s.next_trust_refresh {
        (
            RuntimeState { next_trust_refresh: (now + TRUST_REFRESH_INTERVAL) as u128, ..s },
            true,
        )
    } else {
        (s, false)
    }
}

/// The sidebar is another, and what ended in it is told.
pub open spec fn sidebar_news(s: RuntimeState, sidebar: SidebarState) -> RuntimeState {
    let after = RuntimeState {
        sidebar: Some(SidebarState { mutation_completion: None, ..sidebar }),
        ..s
    };
    match sidebar.mutation_completion {
        Some(result) => operation_finished(after, result),
        None => after,
    }
}

/// A tab was opened. `active` is the tab that is shown from then on.
pub open spec fn tab_opened(
    s: RuntimeState,
    id: ShellTabId,
    active: ShellTabId,
    size: TerminalSize,
) -> (RuntimeState, Result<Seq<EffectView>, Seq<char>>) {
    let s = RuntimeState {
        workbench: WorkbenchState { active_shell: active, ..s.workbench },
        ..s
    };
    match shell_added(s.sessions, id, size) {
        Ok((sessions, effects)) => (RuntimeState { sessions, ..s }, Ok(session_effects(effects))),
        Err(error) => (s, Err(error)),
    }
}

/// What came of looking for a saved layout.
#[derive(Debug)]
pub enum LayoutLoad {
    /// There is nowhere to save it.
    Unavailable(String),
    /// What was saved cannot be used.
    Ignored(String),
    Missing,
    Loaded(WorkbenchLayoutConfig),
}

/// What came of looking for trust.
#[derive(Debug)]
pub enum TrustLoad {
    /// There is no store of trust.
    Unavailable(String),
    /// There is a store, and it cannot be read.
    Unresolved(String),
    Resolved(WorkspaceTrustState),
}

/// What the program finds when it is started.
pub struct LaunchFacts {
    pub root: crate::path::PathBuf,
    pub area: Rect,
    /// The layout's numbers where none were saved.
    pub config: WorkbenchLayoutConfig,
    pub saved: LayoutLoad,
    pub trust: TrustLoad,
    /// The layout that follows from the numbers that are used.
    pub layout: WorkbenchLayout,
    pub sizes: PaneSizes,
    /// The name of the shell.
    pub shell: String,
    /// Whether the sidebar's worker runs.
    pub worker: Result<(), String>,
}

/// Whether trust matters to what is started.
pub open spec fn heeds_trust(mode: LaunchMode) -> bool {
    mode == LaunchMode::Pi || mode == LaunchMode::Workbench
}

/// The layout's numbers at the start.
pub open spec fn first_config(mode: LaunchMode, facts: LaunchFacts) -> WorkbenchLayoutConfig {
    match facts.saved {
        LayoutLoad::Loaded(config) => if mode.is_workbench() {
            config
        } else {
            facts.config
        },
        _ => facts.config,
    }
}

/// What the status says of the layout at the start.
pub open spec fn layout_status(mode: LaunchMode, saved: LayoutLoad) -> Option<Seq<char>> {
    if !mode.is_workbench() {
        None
    } else {
        match saved {
            LayoutLoad::Unavailable(error) => Some("layout persistence unavailable: "@ + error@),
            LayoutLoad::Ignored(error) => Some("saved layout ignored: "@ + error@),
            _ => None,
        }
    }
}

/// What the status says of trust at the start.
pub open spec fn trust_status(mode: LaunchMode, trust: TrustLoad) -> Option<Seq<char>> {
    if !heeds_trust(mode) {
        None
    } else {
        match trust {
            TrustLoad::Unavailable(error) => Some("workspace trust unavailable: "@ + error@),
            TrustLoad::Unresolved(error) => Some("workspace trust unavailable: "@ + error@),
            TrustLoad::Resolved(_) => None,
        }
    }
}

/// The trust at the start. Where it is not known, there is none.
pub open spec fn first_trust(mode: LaunchMode, trust: TrustLoad) -> WorkspaceTrustState {
    match trust {
        TrustLoad::Resolved(state) => if heeds_trust(mode) {
            state
        } else {
            WorkspaceTrustState::Untrusted
        },
        _ => WorkspaceTrustState::Untrusted,
    }
}

/// The places of processes at the start.
pub open spec fn first_places(mode: LaunchMode, facts: LaunchFacts) -> Seq<SourceView> {
    if mode.is_workbench() {
        workbench_places(facts.shell@, facts.sizes)
    } else {
        seq![
            SourceView {
                key: SessionKey::Pane(PaneId::Editor),
                kind: single_kind(mode),
                name: single_name(mode, facts.shell@),
                size: facts.sizes.editor,
            },
        ]
    }
}

/// The processes at the start, and what is to be done to start them. Only the
/// workbench opens further shells.
pub open spec fn first_sessions(mode: LaunchMode, facts: LaunchFacts) -> (
    RegistryView,
    Seq<SessionEffect>,
) {
    all_spawned(
        places_made(
            if mode.is_workbench() {
                Some(facts.shell@)
            } else {
                None
            },
            first_places(mode, facts),
        ),
        first_places(mode, facts),
    )
}

/// The sidebar at the start. It asks for the root and for the repository.
pub open spec fn first_sidebar(
    root: Seq<Part>,
    root_text: Seq<u8>,
    trust: bool,
    now: u128,
) -> SidebarState {
    initial_requested(fresh(root, root_text, default_config(), trust, now), now)
}

/// The program is started.
pub open spec fn launched(mode: LaunchMode, facts: LaunchFacts, now: u128) -> Step {
    let (sessions, effects) = first_sessions(mode, facts);
    let trust_store = heeds_trust(mode) && !(facts.trust is Unavailable);
    let trouble = trust_status(mode, facts.trust);
    (
        RuntimeState {
            launch_mode: mode,
            workbench: initial_workbench(),
            layout_config: first_config(mode, facts),
            layout: if mode.is_workbench() {
                Some(facts.layout)
            } else {
                None
            },
            sessions,
            sidebar: if mode.is_workbench() && facts.worker is Ok {
                Some(first_sidebar(facts.root@, facts.root.written(), trust_store, now))
            } else {
                None
            },
            sidebar_error: match facts.worker {
                Err(error) => if mode.is_workbench() {
                    Some("sidebar unavailable: "@ + error@)
                } else {
                    None
                },
                Ok(()) => None,
            },
            status: match trouble {
                Some(message) => Some(message),
                None => layout_status(mode, facts.saved),
            },
            viewport_area: facts.area,
            pending_mouse: None,
            last_sidebar_click: None,
            pending_layout: None,
            context_menu: None,
            sidebar_edit: None,
            sidebar_delete: None,
            layout_store: mode.is_workbench() && !(facts.saved is Unavailable),
            trust_store,
            trust_state: first_trust(mode, facts.trust),
            trust_confirming: false,
            trust_status_message: trouble,
            next_trust_refresh: (now + TRUST_REFRESH_INTERVAL) as u128,
        },
        session_effects(effects),
    )
}

} // verus!
