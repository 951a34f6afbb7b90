//! How trust is shown, given, taken and looked at again, and how the program
//! begins.

use vstd::prelude::*;
use vstd::string::*;

use crate::input::{MouseButton, MouseEvent, MouseEventKind};
use crate::mouse_laws::is_over_panes;
use crate::runtime_replies::{
    launched, refresh_asked, sidebar_news, LaunchFacts, LayoutLoad, TrustLoad,
};
use crate::runtime_state::{
    mouse_used, operation_finished, restart_key, session_effects, trust_persisted, trust_refreshed,
    EditStateView, EffectView, MouseFacts, RuntimeState,
};
use crate::sessions::{restarted, SessionKey};
use crate::state::SidebarState;
use crate::trust::{
    start_trust, trust_rows, trust_target, SidebarTrustChrome, SidebarTrustTarget,
    WorkspaceTrustState,
};
use crate::workbench::{LaunchMode, MouseTarget, PaneId, ShellTabId};

verus! {

/// The first line of the sidebar offers to take trust away from a trusted
/// workspace and to look at any other. While the user is asked, the third line
/// gives trust and the fourth does not; the first two only explain.
pub proof fn law_trust_lines(state: WorkspaceTrustState, row: nat)
    ensures
        ({
            let calm = SidebarTrustChrome { state, confirming: false };
            let asking = SidebarTrustChrome { state, confirming: true };
            let trusted = state == WorkspaceTrustState::Trusted;
            &&& trust_rows(calm) == 1
            &&& trust_rows(asking) == 4
            &&& trusted ==> trust_target(calm, 0) == Some(SidebarTrustTarget::Revoke)
            &&& !trusted ==> trust_target(calm, 0) == Some(SidebarTrustTarget::Review)
            &&& row >= 1 ==> trust_target(calm, row) is None
            &&& trust_target(asking, 0) == Some(SidebarTrustTarget::Chrome)
            &&& trust_target(asking, 1) == Some(SidebarTrustTarget::Chrome)
            &&& trust_target(asking, 2) == Some(SidebarTrustTarget::ConfirmTrust)
            &&& trust_target(asking, 3) == Some(SidebarTrustTarget::Cancel)
            &&& row >= 4 ==> trust_target(asking, row) is None
        }),
{
}

/// A click on a line of the sidebar that speaks of trust: a trusted workspace
/// loses it, any other is asked about first, and only the answer below the
/// question gives trust. Nothing is written where there is no store.
pub proof fn law_trust_is_clicked(
    s: RuntimeState,
    up: MouseEvent,
    facts: MouseFacts,
    now: u128,
    row: u16,
    col: u16,
)
    requires
        is_over_panes(s, up),
        s.pending_layout is None,
        s.pending_mouse is Some,
        s.pending_mouse->0.target == (MouseTarget::Sidebar { row, col }),
        !s.pending_mouse->0.dragging,
        !s.pending_mouse->0.moved,
        up.kind == MouseEventKind::Up(MouseButton::Left),
        up.row == s.pending_mouse->0.down.row,
        up.column == s.pending_mouse->0.down.column,
        row < (if s.trust_confirming {
            4int
        } else {
            1
        }),
    ensures
        ({
            let (after, effects) = mouse_used(s, up, facts, now);
            let trusted = s.trust_state == WorkspaceTrustState::Trusted;
            let gives = s.trust_confirming && row == 2;
            let takes = !s.trust_confirming && trusted;
            &&& after.trust_state == s.trust_state
            &&& after.sidebar == s.sidebar
            &&& after.sessions == s.sessions
            &&& gives && s.trust_store ==> effects =~= seq![EffectView::PersistTrust(true)]
            &&& takes && s.trust_store ==> effects =~= seq![EffectView::PersistTrust(false)]
            &&& (gives || takes) && !s.trust_store ==> effects =~= seq![] && after.status == Some(
                "workspace trust persistence is unavailable"@,
            )
            &&& !gives && !takes ==> effects =~= seq![]
            &&& !s.trust_confirming && !trusted ==> after.trust_confirming
            &&& s.trust_confirming && row == 3 ==> !after.trust_confirming
            &&& s.trust_confirming && row < 3 ==> after.trust_confirming
        }),
{
}

/// A process is started with the trust that is in the store, and without any
/// where nothing can be read.
pub proof fn law_start_trust(state: WorkspaceTrustState, error: String)
    ensures
        start_trust(Some(Ok(state))) == state,
        start_trust(Some(Err(error))) == WorkspaceTrustState::Untrusted,
        start_trust(None) == WorkspaceTrustState::Untrusted,
{
}

/// What is in the store counts. The agent is started anew exactly when trust is
/// gained or lost, and a question is put off when the answer would be about
/// another state.
pub proof fn law_trust_is_looked_at(s: RuntimeState, state: WorkspaceTrustState)
    requires
        s.trust_store,
    ensures
        ({
            let (after, effects) = trust_refreshed(s, Ok(state));
            let was = s.trust_state == WorkspaceTrustState::Trusted;
            let is = state == WorkspaceTrustState::Trusted;
            &&& after.trust_state == state
            &&& after.trust_status_message is None
            &&& s.trust_state == state ==> after.trust_confirming == s.trust_confirming
            &&& s.trust_state != state ==> !after.trust_confirming
            &&& was == is ==> effects =~= seq![] && after.sessions == s.sessions
            &&& was != is && s.launch_mode == LaunchMode::Workbench ==> effects
                == session_effects(restarted(s.sessions, SessionKey::Pane(PaneId::Agent)).1)
                && after.sessions == restarted(s.sessions, SessionKey::Pane(PaneId::Agent)).0
            &&& was != is && s.launch_mode == LaunchMode::Pi ==> effects == session_effects(
                restarted(s.sessions, SessionKey::Pane(PaneId::Editor)).1,
            )
            &&& (s.launch_mode == LaunchMode::Shell || s.launch_mode == LaunchMode::Nvim)
                ==> effects =~= seq![]
            &&& s.status is Some && s.status == s.trust_status_message ==> after.status is None
            &&& s.status != s.trust_status_message ==> after.status == s.status
        }),
{
}

/// Trust that cannot be read is reported; without a store there is none.
pub proof fn law_trust_that_is_not_known(s: RuntimeState, error: Seq<char>)
    ensures
        s.trust_store ==> trust_refreshed(s, Err(error)).0.status == Some(
            "workspace trust unavailable: "@ + error,
        ) && trust_refreshed(s, Err(error)).0.trust_status_message == Some(
            "workspace trust unavailable: "@ + error,
        ),
        !s.trust_store ==> trust_refreshed(s, Err(error)).0 == (RuntimeState {
            trust_state: WorkspaceTrustState::Untrusted,
            ..s
        }) && trust_refreshed(s, Err(error)).1 =~= seq![],
{
}

/// Trust that was written counts at once, and the question is answered.
pub proof fn law_written_trust_counts(s: RuntimeState, state: WorkspaceTrustState)
    ensures
        trust_persisted(s, Ok(()), Ok(state)).0.trust_state == state,
        !trust_persisted(s, Ok(()), Ok(state)).0.trust_confirming,
        trust_persisted(s, Ok(()), Ok(state)).0.status is None,
        restart_key(LaunchMode::Workbench) == Some(SessionKey::Pane(PaneId::Agent)),
        restart_key(LaunchMode::Pi) == Some(SessionKey::Pane(PaneId::Editor)),
        restart_key(LaunchMode::Nvim) is None,
        restart_key(LaunchMode::Shell) is None,
{
}

/// Trust is looked at again every second, and not before.
pub proof fn law_trust_is_looked_at_every_second(s: RuntimeState, now: u128)
    requires
        now + 1_000_000_000 <= u128::MAX,
    ensures
        now < s.next_trust_refresh ==> refresh_asked(s, now) == (s, false),
        now >= s.next_trust_refresh ==> refresh_asked(s, now).1 && refresh_asked(s, now).0
            == (RuntimeState { next_trust_refresh: (now + 1_000_000_000) as u128, ..s }),
{
}

/// A file operation that succeeded closes what was entered or asked and clears
/// the status. One that failed says why; a name can then be entered again, and
/// a question is not asked again.
pub proof fn law_operation_ends(s: RuntimeState, error: Seq<char>)
    ensures
        operation_finished(s, Ok(())) == (RuntimeState {
            sidebar_edit: None,
            sidebar_delete: None,
            status: None,
            ..s
        }),
        ({
            let after = operation_finished(s, Err(error));
            &&& after.status == Some(error)
            &&& after.sidebar_delete is None
            &&& s.sidebar_edit is None ==> after.sidebar_edit is None
            &&& s.sidebar_edit matches Some(edit) ==> after.sidebar_edit == Some(
                EditStateView { pending: false, error: Some(error), ..edit },
            )
            &&& after.sidebar == s.sidebar
        }),
{
}

/// What the sidebar tells of a file operation that has ended reaches the
/// program once.
pub proof fn law_news_are_told_once(s: RuntimeState, sidebar: SidebarState)
    ensures
        sidebar_news(s, sidebar).sidebar is Some,
        sidebar_news(s, sidebar).sidebar->0.mutation_completion is None,
        sidebar_news(s, sidebar).sidebar->0.tree == sidebar.tree,
        sidebar_news(s, sidebar).sidebar->0.selected == sidebar.selected,
        sidebar.mutation_completion is None ==> sidebar_news(s, sidebar).status == s.status
            && sidebar_news(s, sidebar).sidebar_edit == s.sidebar_edit,
        sidebar.mutation_completion == Some(Ok::<(), Seq<char>>(())) ==> sidebar_news(
            s,
            sidebar,
        ).sidebar_edit is None && sidebar_news(s, sidebar).status is None,
        sidebar.mutation_completion matches Some(Err(error)) ==> sidebar_news(s, sidebar).status
            == Some(error),
{
}

/// The workbench begins with the editor in focus, the first tab shown, nothing
/// selected and nothing asked. It asks for the root's listing and for the state
/// of the repository, and starts its processes. The sidebar shows at most ten
/// thousand entries of a directory and hands out at most eight jobs; it asks for
/// the repository every three seconds, waits for a seventh of a second after a
/// change, and lists everything again every five seconds. Other modes have no
/// sidebar and no layout.
pub proof fn law_program_begins(mode: LaunchMode, facts: LaunchFacts, now: u128)
    requires
        now + 5_000_000_000 <= u128::MAX,
    ensures
        ({
            let s = launched(mode, facts, now).0;
            let workbench = mode == LaunchMode::Workbench;
            &&& s.launch_mode == mode
            &&& s.workbench.focused == PaneId::Editor
            &&& s.workbench.selection is None
            &&& s.workbench.active_shell == ShellTabId(1)
            &&& s.context_menu is None
            &&& s.sidebar_edit is None
            &&& s.sidebar_delete is None
            &&& s.pending_mouse is None
            &&& s.pending_layout is None
            &&& !s.trust_confirming
            &&& s.next_trust_refresh == now + 1_000_000_000
            &&& workbench ==> s.layout == Some(facts.layout)
            &&& !workbench ==> s.layout is None && s.sidebar is None && s.sidebar_error is None
            &&& workbench && facts.worker is Ok ==> s.sidebar is Some && s.sidebar_error is None
            &&& workbench && facts.worker is Err ==> s.sidebar is None && s.sidebar_error == Some(
                "sidebar unavailable: "@ + facts.worker->Err_0@,
            )
            &&& workbench && facts.worker is Ok ==> {
                let sidebar = s.sidebar->0;
                let root = facts.root.spelled();
                &&& sidebar.root == root.path
                &&& sidebar.root_text == root.text
                &&& sidebar.trust == s.trust_store
                &&& sidebar.tree.contains_key(root.path)
                &&& sidebar.tree[root.path].expanded
                &&& sidebar.queue.len() == 2
                &&& sidebar.queue[0] is Load
                &&& sidebar.queue[0]->Load_path == root
                &&& sidebar.queue[1] is Git
                &&& sidebar.queue[1]->Git_root == root
                &&& sidebar.scroll == 0
                &&& sidebar.selected is None
                &&& sidebar.config.entry_cap == 10_000
                &&& sidebar.config.channel_capacity == 8
                &&& sidebar.config.git_refresh_interval == 3_000_000_000
                &&& sidebar.config.fs_debounce_interval == 150_000_000
                &&& sidebar.config.fs_reconcile_interval == 5_000_000_000
            }
        }),
{
}

/// Where it is not known what was written, the workspace is not trusted, the
/// question is closed and the reason is told; where nothing could be written,
/// everything stays and that is told.
pub proof fn law_written_trust_that_is_not_known(
    s: RuntimeState,
    error: Seq<char>,
    resolved: Result<WorkspaceTrustState, Seq<char>>,
)
    ensures
        ({
            let after = trust_persisted(s, Ok(()), Err(error)).0;
            &&& after.trust_state == WorkspaceTrustState::Untrusted
            &&& !after.trust_confirming
            &&& after.status == Some("workspace trust unavailable: "@ + error)
            &&& after.trust_status_message == after.status
        }),
        trust_persisted(s, Err(error), resolved).0 == (RuntimeState {
            status: Some("failed to save workspace trust: "@ + error),
            ..s
        }),
        trust_persisted(s, Err(error), resolved).1 =~= seq![],
{
}

/// A saved layout is used by the workbench, and nothing else uses one. Trust
/// matters to the agent alone, in the workbench or by itself.
pub proof fn law_beginning_uses_what_was_saved(mode: LaunchMode, facts: LaunchFacts, now: u128)
    ensures
        ({
            let s = launched(mode, facts, now).0;
            let agent = mode == LaunchMode::Workbench || mode == LaunchMode::Pi;
            &&& mode == LaunchMode::Workbench ==> (facts.saved matches LayoutLoad::Loaded(config)
                ==> s.layout_config == config)
            &&& mode != LaunchMode::Workbench || !(facts.saved is Loaded) ==> s.layout_config
                == facts.config
            &&& s.layout_store <==> mode == LaunchMode::Workbench && !(facts.saved
                is Unavailable)
            &&& s.trust_store <==> agent && !(facts.trust is Unavailable)
            &&& agent ==> (facts.trust matches TrustLoad::Resolved(state) ==> s.trust_state
                == state)
            &&& !agent ==> s.trust_state == WorkspaceTrustState::Untrusted
            &&& s.viewport_area == facts.area
        }),
{
}

} // verus!
