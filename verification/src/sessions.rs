//! The processes behind the panes: when they are started, stopped, and started
//! again.
//!
//! Starting and stopping is left to the caller. Each operation says what is to
//! be done, and what came of it is handed back.

use vstd::prelude::*;
use vstd::string::*;

use crate::collections::{Key, KeyMap};
use crate::text::{decimal, decimal_string, failure, failure_text, join2, join3};
use crate::title::{hint_text, retry_hint};
use crate::workbench::{LaunchMode, PaneId, ShellTabId, TerminalSize};

verus! {

/// Where a process runs.
#[derive(Debug, Clone, Copy, PartialEq, Eq, Structural)]
pub enum SessionKey {
    Pane(PaneId),
    Shell(ShellTabId),
}

impl View for SessionKey {
    type V = SessionKey;

    open spec fn view(&self) -> SessionKey {
        *self
    }
}

impl Key for SessionKey {
    fn same(&self, other: &SessionKey) -> (same: bool) {
        *self == *other
    }

    fn duplicate(&self) -> (copy: SessionKey) {
        *self
    }
}

/// One process among all that ever ran.
#[derive(Debug, Clone, Copy, PartialEq, Eq, Structural)]
pub struct SessionIdentity {
    pub id: u64,
    /// The how-manieth process in its place.
    pub generation: u64,
}

/// What a process is.
#[derive(Debug, Clone, Copy, PartialEq, Eq, Structural)]
pub enum ProcessKind {
    Static,
    /// An editor that can be told to open files once it is `ready`.
    ManagedNvim { ready: bool },
    NativePi,
}

/// What is to be run.
#[derive(Debug, Clone, PartialEq, Eq)]
pub struct ProcessSource {
    pub kind: ProcessKind,
    pub display_name: String,
}

/// How far a process is.
#[derive(Debug, Clone, PartialEq, Eq)]
pub enum SlotState {
    Starting,
    Running { identity: SessionIdentity, started_at: u128 },
    Backoff { until: u128, message: String },
    Paused { message: String },
}

/// What a [`SlotState`] is, as a value.
pub enum StateView {
    Starting,
    Running { identity: SessionIdentity, started_at: u128 },
    Backoff { until: u128, message: Seq<char> },
    Paused { message: Seq<char> },
}

impl View for SlotState {
    type V = StateView;

    open spec fn view(&self) -> StateView {
        match *self {
            SlotState::Starting => StateView::Starting,
            SlotState::Running { identity, started_at } => StateView::Running {
                identity,
                started_at,
            },
            SlotState::Backoff { until, message } => StateView::Backoff {
                until,
                message: message@,
            },
            SlotState::Paused { message } => StateView::Paused { message: message@ },
        }
    }
}

/// A place for a process.
#[derive(Debug)]
pub struct SessionSlot {
    pub source: ProcessSource,
    /// The name of the process that was last prepared.
    pub display_name: String,
    pub size: TerminalSize,
    pub generation: u64,
    pub state: SlotState,
}

/// What a [`SessionSlot`] is, as a value.
pub struct SlotView {
    pub kind: ProcessKind,
    pub source_name: Seq<char>,
    pub display_name: Seq<char>,
    pub size: TerminalSize,
    pub generation: u64,
    pub state: StateView,
}

impl View for SessionSlot {
    type V = SlotView;

    open spec fn view(&self) -> SlotView {
        SlotView {
            kind: self.source.kind,
            source_name: self.source.display_name@,
            display_name: self.display_name@,
            size: self.size,
            generation: self.generation,
            state: self.state@,
        }
    }
}

pub open spec fn slots_of(slots: Map<SessionKey, SessionSlot>) -> Map<SessionKey, SlotView> {
    slots.map_values(|slot: SessionSlot| slot@)
}

/// What is to be done with processes, in order.
#[derive(Debug, Clone, Copy, PartialEq, Eq, Structural)]
pub enum SessionEffect {
    /// End the process.
    Terminate(SessionKey),
    /// Give up what was prepared for the process.
    Cleanup(SessionKey),
    /// Forget earlier failures.
    ResetPolicy(SessionKey),
    /// Prepare and start a process.
    Spawn { key: SessionKey, identity: SessionIdentity, size: TerminalSize },
}

/// What to do after a failure. Times are in nanoseconds.
#[derive(Debug, Clone, Copy, PartialEq, Eq, Structural)]
pub enum RestartDecision {
    Backoff(u128),
    Paused,
}

/// What came of starting a process.
#[derive(Debug)]
pub enum SpawnOutcome {
    Started { display_name: String },
    NotPrepared { error: String, decision: RestartDecision },
    NotStarted { display_name: String, error: String, decision: RestartDecision },
}

/// What a [`SpawnOutcome`] is, as a value.
pub enum OutcomeView {
    Started { display_name: Seq<char> },
    NotPrepared { error: Seq<char>, decision: RestartDecision },
    NotStarted { display_name: Seq<char>, error: Seq<char>, decision: RestartDecision },
}

impl View for SpawnOutcome {
    type V = OutcomeView;

    open spec fn view(&self) -> OutcomeView {
        match *self {
            SpawnOutcome::Started { display_name } => OutcomeView::Started {
                display_name: display_name@,
            },
            SpawnOutcome::NotPrepared { error, decision } => OutcomeView::NotPrepared {
                error: error@,
                decision,
            },
            SpawnOutcome::NotStarted { display_name, error, decision } => {
                OutcomeView::NotStarted { display_name: display_name@, error: error@, decision }
            },
        }
    }
}

impl OutcomeView {
    pub open spec fn decision(self) -> Option<RestartDecision> {
        match self {
            OutcomeView::Started { .. } => None,
            OutcomeView::NotPrepared { decision, .. } => Some(decision),
            OutcomeView::NotStarted { decision, .. } => Some(decision),
        }
    }
}

/// Everything about the processes.
#[verifier::ext_equal]
pub struct RegistryView {
    pub slots: Map<SessionKey, SlotView>,
    pub next_id: u64,
    pub shutting_down: bool,
    /// The name of the shell that new tabs run.
    pub shell: Option<Seq<char>>,
}

/// Whether a time can be counted.
pub open spec fn fits_after(now: u128, decision: Option<RestartDecision>) -> bool {
    match decision {
        Some(RestartDecision::Backoff(delay)) => now + delay <= u128::MAX,
        _ => true,
    }
}

/// The state after a failure.
pub open spec fn settled(decision: RestartDecision, now: u128, message: Seq<char>) -> StateView {
    match decision {
        RestartDecision::Backoff(delay) => StateView::Backoff {
            until: (now + delay) as u128,
            message,
        },
        RestartDecision::Paused => StateView::Paused { message },
    }
}

/// What was prepared is given up.
pub open spec fn cleaned(kind: ProcessKind) -> ProcessKind {
    match kind {
        ProcessKind::ManagedNvim { .. } => ProcessKind::ManagedNvim { ready: false },
        other => other,
    }
}

/// What was prepared is in use.
pub open spec fn prepared(kind: ProcessKind) -> ProcessKind {
    match kind {
        ProcessKind::ManagedNvim { .. } => ProcessKind::ManagedNvim { ready: true },
        other => other,
    }
}

/// A place in which nothing has run yet.
pub open spec fn fresh_slot(kind: ProcessKind, name: Seq<char>, size: TerminalSize) -> SlotView {
    SlotView {
        kind,
        source_name: name,
        display_name: name,
        size,
        generation: 0,
        state: StateView::Starting,
    }
}

/// A process is to be started.
pub open spec fn spawn_begun(r: RegistryView, key: SessionKey) -> (
    RegistryView,
    Seq<SessionEffect>,
) {
    if r.shutting_down || !r.slots.contains_key(key) {
        (r, seq![])
    } else {
        let slot = r.slots[key];
        let generation = (slot.generation + 1) as u64;
        let slots = r.slots.insert(key, SlotView { generation, ..slot });
        if r.next_id == u64::MAX {
            (RegistryView { slots, ..r }, seq![])
        } else {
            let identity = SessionIdentity { id: r.next_id, generation };
            (
                RegistryView { slots, next_id: (r.next_id + 1) as u64, ..r },
                seq![SessionEffect::Spawn { key, identity, size: slot.size }],
            )
        }
    }
}

/// The place after a process was to be started in it.
pub open spec fn slot_after_spawn(
    slot: SlotView,
    identity: SessionIdentity,
    now: u128,
    outcome: OutcomeView,
) -> SlotView {
    match outcome {
        OutcomeView::Started { display_name } => SlotView {
            kind: prepared(slot.kind),
            display_name,
            state: StateView::Running { identity, started_at: now },
            ..slot
        },
        OutcomeView::NotPrepared { error, decision } => SlotView {
            kind: cleaned(slot.kind),
            state: settled(
                decision,
                now,
                failure_text("failed to prepare "@, slot.source_name, error),
            ),
            ..slot
        },
        OutcomeView::NotStarted { display_name, error, decision } => SlotView {
            kind: cleaned(slot.kind),
            display_name,
            state: settled(decision, now, failure_text("failed to start "@, display_name, error)),
            ..slot
        },
    }
}

/// Whether an answer is one to the latest attempt to start a process in a place.
/// Once everything is being stopped, none is.
pub open spec fn is_awaited(r: RegistryView, key: SessionKey, identity: SessionIdentity) -> bool {
    &&& !r.shutting_down
    &&& r.slots.contains_key(key)
    &&& r.slots[key].generation == identity.generation
}

/// A process was started, or could not be. An answer that comes too late changes
/// nothing.
pub open spec fn spawn_finished(
    r: RegistryView,
    key: SessionKey,
    identity: SessionIdentity,
    now: u128,
    outcome: OutcomeView,
) -> RegistryView {
    if is_awaited(r, key, identity) {
        RegistryView {
            slots: r.slots.insert(key, slot_after_spawn(r.slots[key], identity, now, outcome)),
            ..r
        }
    } else {
        r
    }
}

/// The process that runs in a place.
pub open spec fn running(r: RegistryView, key: SessionKey) -> Option<SessionIdentity> {
    if r.slots.contains_key(key) {
        match r.slots[key].state {
            StateView::Running { identity, .. } => Some(identity),
            _ => None,
        }
    } else {
        None
    }
}

/// Whether a failure is one of the process that runs now. What is known of a
/// process that was replaced comes too late.
pub open spec fn is_current(r: RegistryView, key: SessionKey, identity: SessionIdentity) -> bool {
    !r.shutting_down && running(r, key) == Some(identity)
}

/// A process failed.
pub open spec fn failed(
    r: RegistryView,
    key: SessionKey,
    identity: SessionIdentity,
    now: u128,
    message: Seq<char>,
    decision: RestartDecision,
) -> (RegistryView, Seq<SessionEffect>) {
    if is_current(r, key, identity) {
        let slot = r.slots[key];
        (
            RegistryView {
                slots: r.slots.insert(
                    key,
                    SlotView {
                        kind: cleaned(slot.kind),
                        state: settled(decision, now, message),
                        ..slot
                    },
                ),
                ..r
            },
            seq![SessionEffect::Terminate(key), SessionEffect::Cleanup(key)],
        )
    } else {
        (r, seq![])
    }
}

/// The end of a process that may be running.
pub open spec fn terminated(slot: SlotView, key: SessionKey) -> Seq<SessionEffect> {
    if slot.state is Running {
        seq![SessionEffect::Terminate(key)]
    } else {
        seq![]
    }
}

/// A process is replaced by a new one.
pub open spec fn restarted(r: RegistryView, key: SessionKey) -> (
    RegistryView,
    Seq<SessionEffect>,
) {
    if r.shutting_down || !r.slots.contains_key(key) {
        (r, seq![])
    } else {
        let slot = r.slots[key];
        let stopped = RegistryView {
            slots: r.slots.insert(
                key,
                SlotView { kind: cleaned(slot.kind), state: StateView::Starting, ..slot },
            ),
            ..r
        };
        let (after, effects) = spawn_begun(stopped, key);
        (
            after,
            terminated(slot, key) + seq![
                SessionEffect::Cleanup(key),
                SessionEffect::ResetPolicy(key),
            ] + effects,
        )
    }
}

/// A process that does not run is started at once.
pub open spec fn retried(r: RegistryView, key: SessionKey) -> (RegistryView, Seq<SessionEffect>) {
    if r.shutting_down || !r.slots.contains_key(key) || r.slots[key].state is Running {
        (r, seq![])
    } else {
        let ready = RegistryView {
            slots: r.slots.insert(key, SlotView { state: StateView::Starting, ..r.slots[key] }),
            ..r
        };
        let (after, effects) = spawn_begun(ready, key);
        (after, seq![SessionEffect::ResetPolicy(key)] + effects)
    }
}

/// A tab is opened.
pub open spec fn shell_added(r: RegistryView, id: ShellTabId, size: TerminalSize) -> Result<
    (RegistryView, Seq<SessionEffect>),
    Seq<char>,
> {
    match r.shell {
        Some(name) => Ok(
            spawn_begun(
                RegistryView {
                    slots: r.slots.insert(
                        SessionKey::Shell(id),
                        fresh_slot(ProcessKind::Static, name, size),
                    ),
                    ..r
                },
                SessionKey::Shell(id),
            ),
        ),
        None => Err("shell tab registry is missing its process spec"@),
    }
}

/// A tab is closed, and perhaps another opened in its place.
pub open spec fn shell_closed(
    r: RegistryView,
    id: ShellTabId,
    replacement: Option<ShellTabId>,
) -> (RegistryView, Seq<SessionEffect>) {
    let key = SessionKey::Shell(id);
    if !r.slots.contains_key(key) {
        (r, seq![])
    } else {
        let slot = r.slots[key];
        let without = RegistryView { slots: r.slots.remove(key), ..r };
        match replacement {
            Some(next) => {
                let (after, effects) = spawn_begun(
                    RegistryView {
                        slots: without.slots.insert(
                            SessionKey::Shell(next),
                            fresh_slot(ProcessKind::Static, slot.display_name, slot.size),
                        ),
                        ..without
                    },
                    SessionKey::Shell(next),
                );
                (after, terminated(slot, key) + effects)
            },
            None => (without, terminated(slot, key)),
        }
    }
}

/// Everything is stopped for good.
pub open spec fn shut_down(r: RegistryView) -> RegistryView {
    RegistryView {
        slots: r.slots.map_values(
            |slot: SlotView|
                SlotView {
                    kind: cleaned(slot.kind),
                    state: StateView::Paused { message: "shut down"@ },
                    ..slot
                },
        ),
        shutting_down: true,
        ..r
    }
}

/// Whether `order` holds every place once.
pub open spec fn is_slot_order(r: RegistryView, order: Seq<SessionKey>) -> bool {
    &&& order.no_duplicates()
    &&& forall|key: SessionKey| #[trigger] order.contains(key) <==> r.slots.contains_key(key)
}

/// What is to be done when everything is stopped: what runs is ended, and what
/// was prepared in a place is cleaned up.
pub open spec fn shutdown_effects(r: RegistryView, order: Seq<SessionKey>) -> Seq<SessionEffect>
    decreases order.len(),
{
    if order.len() == 0 {
        seq![]
    } else {
        let key = order.last();
        shutdown_effects(r, order.drop_last()) + terminated(r.slots[key], key) + seq![
            SessionEffect::Cleanup(key),
        ]
    }
}

/// A place gets another size.
pub open spec fn resized(r: RegistryView, key: SessionKey, size: TerminalSize) -> RegistryView {
    if r.slots.contains_key(key) {
        RegistryView { slots: r.slots.insert(key, SlotView { size, ..r.slots[key] }), ..r }
    } else {
        r
    }
}

/// What a place without a process waits for.
pub open spec fn status_text(
    r: RegistryView,
    key: SessionKey,
    now: u128,
    click_retry: bool,
) -> Option<Seq<char>> {
    if !r.slots.contains_key(key) {
        None
    } else {
        match r.slots[key].state {
            StateView::Running { .. } => None,
            StateView::Starting => Some("starting…"@),
            StateView::Backoff { until, message } => Some(
                message + "; retrying in "@ + decimal(milliseconds_left(until, now)) + "ms ("@
                    + hint_text(click_retry) + ")"@,
            ),
            StateView::Paused { message } => Some(
                message + "; paused ("@ + hint_text(click_retry) + ")"@,
            ),
        }
    }
}

/// The whole milliseconds until a time.
pub open spec fn milliseconds_left(until: u128, now: u128) -> nat {
    if until >= now {
        ((until - now) / 1_000_000) as nat
    } else {
        0
    }
}

/// Whether a place waits to be tried again and it is time.
pub open spec fn is_due(r: RegistryView, key: SessionKey, now: u128) -> bool {
    r.slots.contains_key(key) && (r.slots[key].state matches StateView::Backoff { until, .. } && now
        >= until)
}

/// What is done with a process.
#[derive(Debug, Clone, Copy, PartialEq, Eq, Structural)]
pub enum BackendOperation {
    Resize,
    Input,
    Mouse,
    Paste,
    Poll,
}

/// What is said when it fails.
pub open spec fn operation_text(operation: BackendOperation, error: Seq<char>) -> Seq<char> {
    match operation {
        BackendOperation::Resize => "backend resize error: "@ + error,
        BackendOperation::Input => "backend input error: "@ + error,
        BackendOperation::Mouse => "backend mouse error: "@ + error,
        BackendOperation::Paste => "backend paste error: "@ + error,
        BackendOperation::Poll => "backend error: "@ + error,
    }
}

/// What is said when something fails that is done with a process.
pub fn operation_failure(operation: BackendOperation, error: &str) -> (message: String)
    ensures
        message@ == operation_text(operation, error@),
{
    match operation {
        BackendOperation::Resize => join2("backend resize error: ", error),
        BackendOperation::Input => join2("backend input error: ", error),
        BackendOperation::Mouse => join2("backend mouse error: ", error),
        BackendOperation::Paste => join2("backend paste error: ", error),
        BackendOperation::Poll => join2("backend error: ", error),
    }
}

/// What a look at a process shows.
#[derive(Debug, Clone, PartialEq, Eq)]
pub enum PollOutcome {
    Alive,
    /// A shell has ended, and its tab goes.
    ShellExited(ShellTabId),
    Failed(String),
}

/// What a [`PollOutcome`] is, as a value.
pub enum PollView {
    Alive,
    ShellExited(ShellTabId),
    Failed(Seq<char>),
}

impl View for PollOutcome {
    type V = PollView;

    open spec fn view(&self) -> PollView {
        match *self {
            PollOutcome::Alive => PollView::Alive,
            PollOutcome::ShellExited(id) => PollView::ShellExited(id),
            PollOutcome::Failed(message) => PollView::Failed(message@),
        }
    }
}

/// What a look at a process shows: a shell that ends takes its tab with it, and
/// any other process that ends has failed.
pub open spec fn polled(key: SessionKey, exited: Result<bool, Seq<char>>) -> PollView {
    match exited {
        Ok(true) => match key {
            SessionKey::Shell(id) => PollView::ShellExited(id),
            SessionKey::Pane(_) => PollView::Failed("backend exited"@),
        },
        Ok(false) => PollView::Alive,
        Err(error) => PollView::Failed(operation_text(BackendOperation::Poll, error)),
    }
}

/// What a look at a process shows.
pub fn poll_outcome(key: SessionKey, exited: Result<bool, String>) -> (outcome: PollOutcome)
    ensures
        outcome@ == polled(
            key,
            match exited {
                Ok(exited) => Ok(exited),
                Err(error) => Err(error@),
            },
        ),
{
    match exited {
        Ok(true) => match key {
            SessionKey::Shell(id) => PollOutcome::ShellExited(id),
            SessionKey::Pane(_) => PollOutcome::Failed("backend exited".to_owned()),
        },
        Ok(false) => PollOutcome::Alive,
        Err(error) => PollOutcome::Failed(
            operation_failure(BackendOperation::Poll, error.as_str()),
        ),
    }
}

/// Why a paste did not reach a process.
#[derive(Debug, Clone, PartialEq, Eq)]
pub enum PasteFailure {
    MultilineUnsupported,
    Write(String),
}

/// What became of a request to open a file.
#[derive(Debug, Clone, PartialEq, Eq)]
pub enum FileOpenDelivery {
    Opened,
    Unavailable,
    Failed(String),
}

/// What a [`FileOpenDelivery`] is, as a value.
pub enum DeliveryView {
    Opened,
    Unavailable,
    Failed(Seq<char>),
}

impl View for FileOpenDelivery {
    type V = DeliveryView;

    open spec fn view(&self) -> DeliveryView {
        match *self {
            FileOpenDelivery::Opened => DeliveryView::Opened,
            FileOpenDelivery::Unavailable => DeliveryView::Unavailable,
            FileOpenDelivery::Failed(error) => DeliveryView::Failed(error@),
        }
    }
}

/// Whether an editor can be told to open a file now.
pub open spec fn opens_files(kind: ProcessKind, running: bool) -> bool {
    running && kind == ProcessKind::ManagedNvim { ready: true }
}

/// Whether an editor can be told to open a file now.
pub fn can_open_file(kind: ProcessKind, running: bool) -> (can: bool)
    ensures
        can == opens_files(kind, running),
{
    match kind {
        ProcessKind::ManagedNvim { ready } => running && ready,
        _ => false,
    }
}

/// What became of a request to open a file. `result` is what the editor
/// answered, if it was asked.
pub fn file_open_delivery(result: Option<Result<(), String>>) -> (delivery: FileOpenDelivery)
    ensures
        delivery@ == (match result {
            Some(Ok(())) => DeliveryView::Opened,
            Some(Err(error)) => DeliveryView::Failed(error@),
            None => DeliveryView::Unavailable,
        }),
{
    match result {
        Some(Ok(())) => FileOpenDelivery::Opened,
        Some(Err(error)) => FileOpenDelivery::Failed(error),
        None => FileOpenDelivery::Unavailable,
    }
}

/// All places for processes.
#[derive(Debug)]
pub struct SessionRegistry {
    slots: KeyMap<SessionKey, SessionSlot>,
    next_id: u64,
    shutting_down: bool,
    shell: Option<String>,
}

impl View for SessionRegistry {
    type V = RegistryView;

    closed spec fn view(&self) -> RegistryView {
        RegistryView {
            slots: slots_of(self.slots@),
            next_id: self.next_id,
            shutting_down: self.shutting_down,
            shell: crate::text::text_view(self.shell),
        }
    }
}

/// Whether a place can still get a new process, or is never to get one: it does
/// not exist, or everything is being stopped.
pub open spec fn has_generation(r: RegistryView, key: SessionKey) -> bool {
    ||| r.shutting_down
    ||| !r.slots.contains_key(key)
    ||| r.slots[key].generation < u64::MAX
}

/// Whether every place can still get new processes, or none is to get one.
pub open spec fn has_generations(r: RegistryView) -> bool {
    forall|key: SessionKey| #[trigger]
        r.slots.contains_key(key) ==> has_generation(r, key)
}

fn settle(decision: RestartDecision, now: u128, message: String) -> (state: SlotState)
    requires
        fits_after(now, Some(decision)),
    ensures
        state@ == settled(decision, now, message@),
{
    match decision {
        RestartDecision::Backoff(delay) => SlotState::Backoff { until: now + delay, message },
        RestartDecision::Paused => SlotState::Paused { message },
    }
}

fn clean(kind: ProcessKind) -> (after: ProcessKind)
    ensures
        after == cleaned(kind),
{
    match kind {
        ProcessKind::ManagedNvim { .. } => ProcessKind::ManagedNvim { ready: false },
        other => other,
    }
}

fn prepare(kind: ProcessKind) -> (after: ProcessKind)
    ensures
        after == prepared(kind),
{
    match kind {
        ProcessKind::ManagedNvim { .. } => ProcessKind::ManagedNvim { ready: true },
        other => other,
    }
}

proof fn lemma_slots_insert(slots: Map<SessionKey, SessionSlot>, key: SessionKey, slot: SessionSlot)
    ensures
        slots_of(slots.insert(key, slot)) == slots_of(slots).insert(key, slot@),
{
    assert(slots_of(slots.insert(key, slot)) =~= slots_of(slots).insert(key, slot@));
}

proof fn lemma_slots_remove(slots: Map<SessionKey, SessionSlot>, key: SessionKey)
    ensures
        slots_of(slots.remove(key)) == slots_of(slots).remove(key),
{
    assert(slots_of(slots.remove(key)) =~= slots_of(slots).remove(key));
}

impl SessionSlot {
    /// A place in which nothing has run yet.
    fn fresh(kind: ProcessKind, name: String, size: TerminalSize) -> (slot: SessionSlot)
        ensures
            slot@ == fresh_slot(kind, name@, size),
    {
        SessionSlot {
            display_name: name.clone(),
            source: ProcessSource { kind, display_name: name },
            size,
            generation: 0,
            state: SlotState::Starting,
        }
    }

    fn is_running(&self) -> (running: bool)
        ensures
            running == (self@.state is Running),
    {
        match self.state {
            SlotState::Running { .. } => true,
            _ => false,
        }
    }
}

impl SessionRegistry {
    /// Every place has one key.
    pub closed spec fn wf(&self) -> bool {
        self.slots.wf()
    }

    /// No places yet. New tabs run the shell of this name.
    pub fn new(shell: Option<String>) -> (registry: SessionRegistry)
        ensures
            registry.wf(),
            registry@ == (RegistryView {
                slots: Map::empty(),
                next_id: 1,
                shutting_down: false,
                shell: crate::text::text_view(shell),
            }),
    {
        let registry = SessionRegistry {
            slots: KeyMap::new(),
            next_id: 1,
            shutting_down: false,
            shell,
        };
        assert(registry@.slots =~= Map::<SessionKey, SlotView>::empty());
        registry
    }

    /// Makes a place, in place of the one with the same key.
    pub fn add_slot(&mut self, key: SessionKey, source: ProcessSource, size: TerminalSize)
        requires
            old(self).wf(),
        ensures
            final(self).wf(),
            final(self)@ == (RegistryView {
                slots: old(self)@.slots.insert(
                    key,
                    fresh_slot(source.kind, source.display_name@, size),
                ),
                ..old(self)@
            }),
    {
        let ProcessSource { kind, display_name } = source;
        let slot = SessionSlot::fresh(kind, display_name, size);
        proof {
            lemma_slots_insert(self.slots@, key, slot);
        }
        self.slots.insert(key, slot);
    }

    /// Begins to start a process: takes the next generation and the next
    /// identity.
    pub fn spawn(&mut self, key: SessionKey) -> (effects: Vec<SessionEffect>)
        requires
            old(self).wf(),
            has_generation(old(self)@, key),
        ensures
            final(self).wf(),
            (final(self)@, effects@) == spawn_begun(old(self)@, key),
    {
        let mut effects: Vec<SessionEffect> = Vec::new();
        assert(effects@ =~= seq![]);
        if self.shutting_down {
            return effects;
        }
        let ghost slots = self.slots@;
        let mut generation: u64 = 0;
        let mut size = TerminalSize { cols: 0, rows: 0 };
        if let Some(slot) = self.slots.get_mut(&key) {
            slot.generation = slot.generation + 1;
            generation = slot.generation;
            size = slot.size;
            proof {
                lemma_slots_insert(slots, key, *slot);
            }
        } else {
            return effects;
        }
        if self.next_id == u64::MAX {
            return effects;
        }
        let identity = SessionIdentity { id: self.next_id, generation };
        self.next_id = self.next_id + 1;
        effects.push(SessionEffect::Spawn { key, identity, size });
        assert(effects@ =~= seq![SessionEffect::Spawn { key, identity, size }]);
        effects
    }

    /// Takes what came of starting a process. Returns whether the answer was
    /// awaited.
    pub fn finish_spawn(
        &mut self,
        key: SessionKey,
        identity: SessionIdentity,
        now: u128,
        outcome: SpawnOutcome,
    ) -> (awaited: bool)
        requires
            old(self).wf(),
            fits_after(now, outcome@.decision()),
        ensures
            final(self).wf(),
            final(self)@ == spawn_finished(old(self)@, key, identity, now, outcome@),
            awaited == is_awaited(old(self)@, key, identity),
    {
        let awaited = match self.slots.get(&key) {
            Some(slot) => !self.shutting_down && slot.generation == identity.generation,
            None => false,
        };
        if !awaited {
            return false;
        }
        let ghost slots = self.slots@;
        if let Some(slot) = self.slots.get_mut(&key) {
            match outcome {
                SpawnOutcome::Started { display_name } => {
                    slot.source.kind = prepare(slot.source.kind);
                    slot.display_name = display_name;
                    slot.state = SlotState::Running { identity, started_at: now };
                },
                SpawnOutcome::NotPrepared { error, decision } => {
                    slot.source.kind = clean(slot.source.kind);
                    let message = failure(
                        "failed to prepare ",
                        slot.source.display_name.as_str(),
                        error.as_str(),
                    );
                    slot.state = settle(decision, now, message);
                },
                SpawnOutcome::NotStarted { display_name, error, decision } => {
                    slot.source.kind = clean(slot.source.kind);
                    let message = failure(
                        "failed to start ",
                        display_name.as_str(),
                        error.as_str(),
                    );
                    slot.display_name = display_name;
                    slot.state = settle(decision, now, message);
                },
            }
            proof {
                lemma_slots_insert(slots, key, *slot);
            }
        }
        true
    }

    /// The process that runs in a place.
    pub fn get(&self, key: SessionKey) -> (identity: Option<SessionIdentity>)
        requires
            self.wf(),
        ensures
            identity == running(self@, key),
    {
        match self.slots.get(&key) {
            Some(slot) => match slot.state {
                SlotState::Running { identity, .. } => Some(identity),
                _ => None,
            },
            None => None,
        }
    }

    /// Whether there is a place.
    pub fn contains(&self, key: SessionKey) -> (contained: bool)
        requires
            self.wf(),
        ensures
            contained == self@.slots.contains_key(key),
    {
        self.slots.contains_key(&key)
    }

    /// The name of what runs in a place.
    pub fn display_name(&self, key: SessionKey) -> (name: Option<String>)
        requires
            self.wf(),
        ensures
            crate::text::text_view(name) == (if self@.slots.contains_key(key) {
                Some(self@.slots[key].display_name)
            } else {
                None
            }),
    {
        match self.slots.get(&key) {
            Some(slot) => Some(slot.display_name.clone()),
            None => None,
        }
    }

    /// Gives a place another size. Returns the process that is to be told.
    pub fn resize_slot(&mut self, key: SessionKey, size: TerminalSize) -> (identity: Option<
        SessionIdentity,
    >)
        requires
            old(self).wf(),
        ensures
            final(self).wf(),
            final(self)@ == resized(old(self)@, key, size),
            identity == running(old(self)@, key),
    {
        let ghost slots = self.slots@;
        if let Some(slot) = self.slots.get_mut(&key) {
            slot.size = size;
            let identity = match slot.state {
                SlotState::Running { identity, .. } => Some(identity),
                _ => None,
            };
            proof {
                lemma_slots_insert(slots, key, *slot);
            }
            identity
        } else {
            None
        }
    }

    /// How long the process that failed has run, if the failure is one of the
    /// process that runs now.
    pub fn failure_runtime(
        &self,
        key: SessionKey,
        identity: SessionIdentity,
        now: u128,
    ) -> (runtime:
        Option<u128>)
        requires
            self.wf(),
        ensures
            runtime is Some <==> is_current(self@, key, identity),
            runtime is Some ==> (self@.slots[key].state matches StateView::Running {
                started_at,
                ..
            } && runtime == Some(
                if now >= started_at {
                    (now - started_at) as u128
                } else {
                    0
                },
            )),
    {
        if self.shutting_down {
            return None;
        }
        match self.slots.get(&key) {
            Some(slot) => match slot.state {
                SlotState::Running { identity: current, started_at } => if current == identity {
                    Some(now.saturating_sub(started_at))
                } else {
                    None
                },
                _ => None,
            },
            None => None,
        }
    }

    /// Takes a failure, and what was decided about it. A failure of a process
    /// that was replaced changes nothing, and one in a place that there is not
    /// is an error.
    pub fn handle_failure(
        &mut self,
        key: SessionKey,
        identity: SessionIdentity,
        now: u128,
        message: String,
        decision: RestartDecision,
    ) -> (effects: Result<Vec<SessionEffect>, String>)
        requires
            old(self).wf(),
            fits_after(now, Some(decision)),
        ensures
            final(self).wf(),
            match effects {
                Ok(effects) => (old(self)@.shutting_down || old(self)@.slots.contains_key(key)) && (
                    final(self)@,
                    effects@,
                ) == failed(old(self)@, key, identity, now, message@, decision),
                Err(error) => !old(self)@.shutting_down && !old(self)@.slots.contains_key(key)
                    && final(self)@ == old(self)@ && error@
                    == "lifecycle event for unknown session slot"@,
            },
    {
        let mut effects: Vec<SessionEffect> = Vec::new();
        assert(effects@ =~= seq![]);
        if self.shutting_down {
            return Ok(effects);
        }
        if !self.slots.contains_key(&key) {
            return Err("lifecycle event for unknown session slot".to_owned());
        }
        if self.failure_runtime(key, identity, now).is_none() {
            return Ok(effects);
        }
        let ghost slots = self.slots@;
        if let Some(slot) = self.slots.get_mut(&key) {
            slot.source.kind = clean(slot.source.kind);
            slot.state = settle(decision, now, message);
            proof {
                lemma_slots_insert(slots, key, *slot);
            }
        }
        effects.push(SessionEffect::Terminate(key));
        effects.push(SessionEffect::Cleanup(key));
        assert(effects@ =~= seq![SessionEffect::Terminate(key), SessionEffect::Cleanup(key)]);
        Ok(effects)
    }

    /// Replaces a process by a new one.
    pub fn restart(&mut self, key: SessionKey) -> (effects: Vec<SessionEffect>)
        requires
            old(self).wf(),
            has_generation(old(self)@, key),
        ensures
            final(self).wf(),
            (final(self)@, effects@) == restarted(old(self)@, key),
    {
        let ghost before = self@;
        let mut effects: Vec<SessionEffect> = Vec::new();
        assert(effects@ =~= seq![]);
        if self.shutting_down {
            return effects;
        }
        let ghost slots = self.slots@;
        if let Some(slot) = self.slots.get_mut(&key) {
            if slot.is_running() {
                effects.push(SessionEffect::Terminate(key));
            }
            slot.source.kind = clean(slot.source.kind);
            slot.state = SlotState::Starting;
            proof {
                lemma_slots_insert(slots, key, *slot);
            }
        } else {
            return effects;
        }
        effects.push(SessionEffect::Cleanup(key));
        effects.push(SessionEffect::ResetPolicy(key));
        let ghost head = effects@;
        assert(head =~= terminated(before.slots[key], key) + seq![
            SessionEffect::Cleanup(key),
            SessionEffect::ResetPolicy(key),
        ]);
        let mut more = self.spawn(key);
        effects.append(&mut more);
        effects
    }

    /// Starts a process that does not run at once.
    pub fn retry(&mut self, key: SessionKey) -> (effects: Vec<SessionEffect>)
        requires
            old(self).wf(),
            running(old(self)@, key) is Some || has_generation(old(self)@, key),
        ensures
            final(self).wf(),
            (final(self)@, effects@) == retried(old(self)@, key),
    {
        let mut effects: Vec<SessionEffect> = Vec::new();
        assert(effects@ =~= seq![]);
        if self.shutting_down {
            return effects;
        }
        match self.slots.get(&key) {
            Some(slot) => {
                if slot.is_running() {
                    return effects;
                }
            },
            None => return effects,
        }
        let ghost slots = self.slots@;
        if let Some(slot) = self.slots.get_mut(&key) {
            slot.state = SlotState::Starting;
            proof {
                lemma_slots_insert(slots, key, *slot);
            }
        }
        effects.push(SessionEffect::ResetPolicy(key));
        assert(effects@ =~= seq![SessionEffect::ResetPolicy(key)]);
        let mut more = self.spawn(key);
        effects.append(&mut more);
        effects
    }

    /// Opens a tab.
    pub fn add_shell(&mut self, id: ShellTabId, size: TerminalSize) -> (effects: Result<
        Vec<SessionEffect>,
        String,
    >)
        requires
            old(self).wf(),
        ensures
            final(self).wf(),
            match effects {
                Ok(effects) => shell_added(old(self)@, id, size) == Ok::<
                    (RegistryView, Seq<SessionEffect>),
                    Seq<char>,
                >((final(self)@, effects@)),
                Err(error) => shell_added(old(self)@, id, size) == Err::<
                    (RegistryView, Seq<SessionEffect>),
                    Seq<char>,
                >(error@) && final(self)@ == old(self)@,
            },
    {
        let name = match &self.shell {
            Some(name) => name.clone(),
            None => {
                return Err("shell tab registry is missing its process spec".to_owned());
            },
        };
        self.add_slot(
            SessionKey::Shell(id),
            ProcessSource { kind: ProcessKind::Static, display_name: name },
            size,
        );
        Ok(self.spawn(SessionKey::Shell(id)))
    }

    /// Closes a tab, and perhaps opens another in its place.
    pub fn close_shell(&mut self, id: ShellTabId, replacement: Option<ShellTabId>) -> (effects: Vec<
        SessionEffect,
    >)
        requires
            old(self).wf(),
        ensures
            final(self).wf(),
            (final(self)@, effects@) == shell_closed(old(self)@, id, replacement),
    {
        let key = SessionKey::Shell(id);
        let mut effects: Vec<SessionEffect> = Vec::new();
        assert(effects@ =~= seq![]);
        proof {
            lemma_slots_remove(self.slots@, key);
        }
        let removed = match self.slots.remove(&key) {
            Some(removed) => removed,
            None => {
                assert(self@.slots =~= old(self)@.slots);
                return effects;
            },
        };
        if removed.is_running() {
            effects.push(SessionEffect::Terminate(key));
        }
        assert(effects@ =~= terminated(removed@, key));
        if let Some(next) = replacement {
            self.add_slot(
                SessionKey::Shell(next),
                ProcessSource { kind: ProcessKind::Static, display_name: removed.display_name },
                removed.size,
            );
            let mut more = self.spawn(SessionKey::Shell(next));
            effects.append(&mut more);
        }
        effects
    }

    /// What a place without a process waits for.
    pub fn status(&self, key: SessionKey, now: u128, click_retry: bool) -> (status: Option<String>)
        requires
            self.wf(),
        ensures
            crate::text::text_view(status) == status_text(self@, key, now, click_retry),
    {
        match self.slots.get(&key) {
            Some(slot) => match &slot.state {
                SlotState::Running { .. } => None,
                SlotState::Starting => Some("starting…".to_owned()),
                SlotState::Backoff { until, message } => {
                    let left = until.saturating_sub(now) / 1_000_000;
                    let mut text = join3(
                        message.as_str(),
                        "; retrying in ",
                        decimal_string(left).as_str(),
                    );
                    text.append("ms (");
                    text.append(retry_hint(click_retry));
                    text.append(")");
                    Some(text)
                },
                SlotState::Paused { message } => {
                    let mut text = join3(
                        message.as_str(),
                        "; paused (",
                        retry_hint(click_retry),
                    );
                    text.append(")");
                    Some(text)
                },
            },
            None => None,
        }
    }

    /// The places in which a process runs, unless everything is being stopped.
    pub fn running_slots(&self) -> (keys: Vec<SessionKey>)
        requires
            self.wf(),
        ensures
            keys@.no_duplicates(),
            forall|key: SessionKey| #[trigger]
                keys@.contains(key) <==> !self@.shutting_down && running(self@, key) is Some,
    {
        if self.shutting_down {
            return Vec::new();
        }
        let all = self.slots.keys();
        let ghost names = crate::collections::keys_view(all@);
        assert(names =~= all@);
        let mut keys: Vec<SessionKey> = Vec::new();
        let mut i: usize = 0;
        while i < all.len()
            invariant
                i <= all@.len(),
                self.wf(),
                all@.no_duplicates(),
                keys@.no_duplicates(),
                forall|key: SessionKey| #[trigger]
                    keys@.contains(key) <==> all@.take(i as int).contains(key) && running(
                        self@,
                        key,
                    ) is Some,
            decreases all@.len() - i,
        {
            let key = all[i];
            let ghost before = keys@;
            assert(!all@.take(i as int).contains(key));
            assert(!before.contains(key));
            if self.get(key).is_some() {
                keys.push(key);
            }
            proof {
                assert(all@.take(i + 1) =~= all@.take(i as int).push(key));
                assert forall|k: SessionKey| #[trigger]
                    keys@.contains(k) <==> all@.take(i + 1).contains(k) && running(
                        self@,
                        k,
                    ) is Some by {
                    vstd::seq_lib::lemma_seq_contains_after_push(all@.take(i as int), key, k);
                    vstd::seq_lib::lemma_seq_contains_after_push(before, key, k);
                    assert(before.contains(k) <==> all@.take(i as int).contains(k) && running(
                        self@,
                        k,
                    ) is Some);
                }
            }
            i += 1;
        }
        proof {
            assert(all@.take(i as int) =~= all@);
            assert forall|key: SessionKey| #[trigger]
                keys@.contains(key) <==> !self@.shutting_down && running(self@, key) is Some by {
                assert(names.contains(key) <==> self.slots@.contains_key(key));
            }
        }
        keys
    }

    /// Whether every place can still get new processes, or none is to get one.
    pub fn generations_left(&self) -> (left: bool)
        requires
            self.wf(),
        ensures
            left == has_generations(self@),
    {
        if self.shutting_down {
            return true;
        }
        let all = self.slots.keys();
        let ghost names = crate::collections::keys_view(all@);
        assert(names =~= all@);
        let mut i: usize = 0;
        while i < all.len()
            invariant
                i <= all@.len(),
                self.wf(),
                !self@.shutting_down,
                forall|j: int|
                    0 <= j < i && self@.slots.contains_key(#[trigger] all@[j])
                        ==> self@.slots[all@[j]].generation < u64::MAX,
            decreases all@.len() - i,
        {
            let left = match self.slots.get(&all[i]) {
                Some(slot) => slot.generation < u64::MAX,
                None => true,
            };
            if !left {
                assert(self@.slots.contains_key(all@[i as int]));
                return false;
            }
            i += 1;
        }
        proof {
            assert forall|key: SessionKey| #[trigger]
                self@.slots.contains_key(key) implies self@.slots[key].generation < u64::MAX by {
                assert(self.slots@.contains_key(key));
                assert(names.contains(key));
                let j = choose|j: int| 0 <= j < names.len() && names[j] == key;
                assert(all@[j] == key);
            }
        }
        true
    }

    /// The places that wait to be tried again and whose time has come, unless
    /// everything is being stopped.
    pub fn due_slots(&self, now: u128) -> (keys: Vec<SessionKey>)
        requires
            self.wf(),
        ensures
            keys@.no_duplicates(),
            forall|key: SessionKey| #[trigger]
                keys@.contains(key) <==> !self@.shutting_down && is_due(self@, key, now),
    {
        let mut keys: Vec<SessionKey> = Vec::new();
        if self.shutting_down {
            return keys;
        }
        let all = self.slots.keys();
        let ghost names = crate::collections::keys_view(all@);
        assert(names =~= all@);
        let mut i: usize = 0;
        while i < all.len()
            invariant
                i <= all@.len(),
                self.wf(),
                all@.no_duplicates(),
                keys@.no_duplicates(),
                forall|key: SessionKey| #[trigger]
                    keys@.contains(key) <==> all@.take(i as int).contains(key) && is_due(
                        self@,
                        key,
                        now,
                    ),
            decreases all@.len() - i,
        {
            let key = all[i];
            let ghost before = keys@;
            assert(!all@.take(i as int).contains(key));
            assert(!before.contains(key));
            let due = match self.slots.get(&key) {
                Some(slot) => match slot.state {
                    SlotState::Backoff { until, .. } => now >= until,
                    _ => false,
                },
                None => false,
            };
            if due {
                keys.push(key);
            }
            proof {
                assert(due == is_due(self@, key, now));
                assert(all@.take(i + 1) =~= all@.take(i as int).push(key));
                assert forall|k: SessionKey| #[trigger]
                    keys@.contains(k) <==> all@.take(i + 1).contains(k) && is_due(
                        self@,
                        k,
                        now,
                    ) by {
                    vstd::seq_lib::lemma_seq_contains_after_push(all@.take(i as int), key, k);
                    vstd::seq_lib::lemma_seq_contains_after_push(before, key, k);
                    assert(before.contains(k) <==> all@.take(i as int).contains(k) && is_due(
                        self@,
                        k,
                        now,
                    ));
                }
            }
            i += 1;
        }
        proof {
            assert(all@.take(i as int) =~= all@);
            assert forall|key: SessionKey| #[trigger]
                keys@.contains(key) <==> !self@.shutting_down && is_due(self@, key, now) by {
                assert(names.contains(key) <==> self.slots@.contains_key(key));
            }
        }
        keys
    }

    /// Stops everything for good. Returns what is to be done in every place.
    pub fn shutdown(&mut self) -> (effects: Vec<SessionEffect>)
        requires
            old(self).wf(),
        ensures
            final(self).wf(),
            final(self)@ == shut_down(old(self)@),
            exists|order: Seq<SessionKey>| #[trigger]
                is_slot_order(old(self)@, order) && effects@ == shutdown_effects(
                    old(self)@,
                    order,
                ),
    {
        let mut effects: Vec<SessionEffect> = Vec::new();
        assert(effects@ =~= seq![]);
        let ghost before = self@;
        let ghost stopped = shut_down(before);
        let all = self.slots.keys();
        let ghost names = crate::collections::keys_view(all@);
        assert(names =~= all@);
        self.shutting_down = true;
        let mut i: usize = 0;
        assert(all@.take(0) =~= Seq::<SessionKey>::empty());
        while i < all.len()
            invariant
                i <= all@.len(),
                effects@ == shutdown_effects(before, all@.take(i as int)),
                self.wf(),
                self@.shutting_down,
                self@.next_id == before.next_id,
                self@.shell == before.shell,
                all@.no_duplicates(),
                stopped == shut_down(before),
                self@.slots.dom() == before.slots.dom(),
                forall|key: SessionKey| #[trigger]
                    all@.contains(key) <==> before.slots.contains_key(key),
                forall|key: SessionKey| #[trigger]
                    before.slots.contains_key(key) ==> self@.slots[key] == (if all@.take(
                        i as int,
                    ).contains(key) {
                        stopped.slots[key]
                    } else {
                        before.slots[key]
                    }),
            decreases all@.len() - i,
        {
            let key = all[i];
            let ghost slots = self.slots@;
            let ghost here = self@;
            assert(!all@.take(i as int).contains(key));
            assert(all@.contains(key));
            let ghost done = effects@;
            if let Some(slot) = self.slots.get_mut(&key) {
                if slot.is_running() {
                    effects.push(SessionEffect::Terminate(key));
                }
                slot.source.kind = clean(slot.source.kind);
                slot.state = SlotState::Paused { message: "shut down".to_owned() };
                proof {
                    lemma_slots_insert(slots, key, *slot);
                }
            }
            effects.push(SessionEffect::Cleanup(key));
            proof {
                assert(here.slots[key] == before.slots[key]);
                assert(effects@ =~= done + terminated(before.slots[key], key) + seq![
                    SessionEffect::Cleanup(key),
                ]);
                assert(all@.take(i + 1).drop_last() =~= all@.take(i as int));
                assert(self@.slots =~= here.slots.insert(key, stopped.slots[key]));
                assert(all@.take(i + 1) =~= all@.take(i as int).push(key));
                assert forall|k: SessionKey| #[trigger]
                    before.slots.contains_key(k) implies self@.slots[k] == (if all@.take(
                    i + 1,
                ).contains(k) {
                    stopped.slots[k]
                } else {
                    before.slots[k]
                }) by {
                    vstd::seq_lib::lemma_seq_contains_after_push(all@.take(i as int), key, k);
                }
            }
            i += 1;
        }
        proof {
            assert(all@.take(i as int) =~= all@);
            assert(self@.slots =~= stopped.slots);
            assert(is_slot_order(before, all@));
        }
        effects
    }

    /// Whether the editor can be told to open a file now.
    pub fn editor_opens_files(&self) -> (can: bool)
        requires
            self.wf(),
        ensures
            can == editor_takes_files(self@),
    {
        match self.slots.get(&SessionKey::Pane(PaneId::Editor)) {
            Some(slot) => can_open_file(slot.source.kind, slot.is_running()),
            None => false,
        }
    }
}

/// Whether the editor can be told to open a file now.
pub open spec fn editor_takes_files(r: RegistryView) -> bool {
    let key = SessionKey::Pane(PaneId::Editor);
    r.slots.contains_key(key) && opens_files(r.slots[key].kind, r.slots[key].state is Running)
}

/// A place that is to be made, as a value.
pub struct SourceView {
    pub key: SessionKey,
    pub kind: ProcessKind,
    pub name: Seq<char>,
    pub size: TerminalSize,
}

/// A place that is to be made.
#[derive(Debug, Clone, PartialEq, Eq)]
pub struct SlotSource {
    pub key: SessionKey,
    pub source: ProcessSource,
    pub size: TerminalSize,
}

impl View for SlotSource {
    type V = SourceView;

    open spec fn view(&self) -> SourceView {
        SourceView {
            key: self.key,
            kind: self.source.kind,
            name: self.source.display_name@,
            size: self.size,
        }
    }
}

pub open spec fn sources_view(sources: Seq<SlotSource>) -> Seq<SourceView> {
    sources.map_values(|source: SlotSource| source@)
}

/// What a single process is, by how the program was started.
pub open spec fn single_kind(mode: LaunchMode) -> ProcessKind {
    match mode {
        LaunchMode::Nvim => ProcessKind::ManagedNvim { ready: false },
        LaunchMode::Pi => ProcessKind::NativePi,
        _ => ProcessKind::Static,
    }
}

/// The name of a single process.
pub open spec fn single_name(mode: LaunchMode, shell: Seq<char>) -> Seq<char> {
    match mode {
        LaunchMode::Nvim => "nvim"@,
        LaunchMode::Pi => "pi"@,
        _ => shell,
    }
}

/// The only place of a program that runs a single process.
pub fn single_source(mode: LaunchMode, shell: String, size: TerminalSize) -> (source: SlotSource)
    requires
        !mode.is_workbench(),
    ensures
        source@ == (SourceView {
            key: SessionKey::Pane(PaneId::Editor),
            kind: single_kind(mode),
            name: single_name(mode, shell@),
            size,
        }),
{
    let (kind, display_name): (ProcessKind, String) = match mode {
        LaunchMode::Nvim => (ProcessKind::ManagedNvim { ready: false }, "nvim".to_owned()),
        LaunchMode::Pi => (ProcessKind::NativePi, "pi".to_owned()),
        _ => (ProcessKind::Static, shell),
    };
    SlotSource {
        key: SessionKey::Pane(PaneId::Editor),
        source: ProcessSource { kind, display_name },
        size,
    }
}

/// The sizes of the terminals in the panes.
#[derive(Debug, Clone, Copy, PartialEq, Eq, Structural)]
pub struct PaneSizes {
    pub editor: TerminalSize,
    pub agent: TerminalSize,
    pub shell: TerminalSize,
}

/// The places of a workbench: the editor, the agent, and the first tab.
pub open spec fn workbench_places(shell: Seq<char>, sizes: PaneSizes) -> Seq<SourceView> {
    seq![
        SourceView {
            key: SessionKey::Pane(PaneId::Editor),
            kind: ProcessKind::ManagedNvim { ready: false },
            name: "nvim"@,
            size: sizes.editor,
        },
        SourceView {
            key: SessionKey::Pane(PaneId::Agent),
            kind: ProcessKind::NativePi,
            name: "pi"@,
            size: sizes.agent,
        },
        SourceView {
            key: SessionKey::Shell(ShellTabId(1)),
            kind: ProcessKind::Static,
            name: shell,
            size: sizes.shell,
        },
    ]
}

/// The places of a workbench.
pub fn workbench_sources(shell: String, sizes: PaneSizes) -> (sources: Vec<SlotSource>)
    ensures
        sources_view(sources@) == workbench_places(shell@, sizes),
{
    let mut sources: Vec<SlotSource> = Vec::new();
    sources.push(
        SlotSource {
            key: SessionKey::Pane(PaneId::Editor),
            source: ProcessSource {
                kind: ProcessKind::ManagedNvim { ready: false },
                display_name: "nvim".to_owned(),
            },
            size: sizes.editor,
        },
    );
    sources.push(
        SlotSource {
            key: SessionKey::Pane(PaneId::Agent),
            source: ProcessSource {
                kind: ProcessKind::NativePi,
                display_name: "pi".to_owned(),
            },
            size: sizes.agent,
        },
    );
    sources.push(
        SlotSource {
            key: SessionKey::Shell(ShellTabId(1)),
            source: ProcessSource { kind: ProcessKind::Static, display_name: shell },
            size: sizes.shell,
        },
    );
    assert(sources_view(sources@) =~= workbench_places(shell@, sizes));
    sources
}

/// A registry with all places made and nothing started.
pub open spec fn places_made(shell: Option<Seq<char>>, sources: Seq<SourceView>) -> RegistryView
    decreases sources.len(),
{
    if sources.len() == 0 {
        RegistryView { slots: Map::empty(), next_id: 1, shutting_down: false, shell }
    } else {
        let before = places_made(shell, sources.drop_last());
        let source = sources.last();
        RegistryView {
            slots: before.slots.insert(
                source.key,
                fresh_slot(source.kind, source.name, source.size),
            ),
            ..before
        }
    }
}

/// Processes are to be started in the places, one by one.
pub open spec fn all_spawned(r: RegistryView, sources: Seq<SourceView>) -> (
    RegistryView,
    Seq<SessionEffect>,
)
    decreases sources.len(),
{
    if sources.len() == 0 {
        (r, seq![])
    } else {
        let (before, effects) = all_spawned(r, sources.drop_last());
        let (after, more) = spawn_begun(before, sources.last().key);
        (after, effects + more)
    }
}

/// How often each place was started in.
proof fn lemma_generations(r: RegistryView, sources: Seq<SourceView>)
    requires
        sources.len() < u64::MAX,
        forall|key: SessionKey| #[trigger]
            r.slots.contains_key(key) ==> r.slots[key].generation == 0,
    ensures
        forall|key: SessionKey| #[trigger]
            all_spawned(r, sources).0.slots.contains_key(key) ==> all_spawned(
                r,
                sources,
            ).0.slots[key].generation <= sources.len(),
    decreases sources.len(),
{
    if sources.len() > 0 {
        lemma_generations(r, sources.drop_last());
    }
}

proof fn lemma_places_fresh(shell: Option<Seq<char>>, sources: Seq<SourceView>)
    ensures
        forall|key: SessionKey| #[trigger]
            places_made(shell, sources).slots.contains_key(key) ==> places_made(
                shell,
                sources,
            ).slots[key].generation == 0,
    decreases sources.len(),
{
    if sources.len() > 0 {
        lemma_places_fresh(shell, sources.drop_last());
    }
}

impl SessionRegistry {
    /// Makes all places, and begins to start a process in each.
    pub fn from_sources(sources: Vec<SlotSource>, shell: Option<String>) -> (started: (
        SessionRegistry,
        Vec<SessionEffect>,
    ))
        requires
            sources@.len() < u64::MAX,
        ensures
            started.0.wf(),
            (started.0@, started.1@) == all_spawned(
                places_made(crate::text::text_view(shell), sources_view(sources@)),
                sources_view(sources@),
            ),
    {
        let ghost all = sources_view(sources@);
        let ghost name = crate::text::text_view(shell);
        let mut registry = SessionRegistry::new(shell);
        let mut i: usize = 0;
        assert(all.take(0) =~= Seq::<SourceView>::empty());
        while i < sources.len()
            invariant
                i <= sources@.len(),
                all == sources_view(sources@),
                registry.wf(),
                registry@ == places_made(name, all.take(i as int)),
            decreases sources@.len() - i,
        {
            let source = &sources[i];
            proof {
                assert(all.take(i + 1).drop_last() =~= all.take(i as int));
                assert(all.take(i + 1).last() == source@);
            }
            registry.add_slot(
                source.key,
                ProcessSource {
                    kind: source.source.kind,
                    display_name: source.source.display_name.clone(),
                },
                source.size,
            );
            i += 1;
        }
        assert(all.take(i as int) =~= all);
        let ghost made = registry@;
        let mut effects: Vec<SessionEffect> = Vec::new();
        let mut j: usize = 0;
        proof {
            lemma_places_fresh(name, all);
            assert(effects@ =~= seq![]);
        }
        while j < sources.len()
            invariant
                j <= sources@.len(),
                sources@.len() < u64::MAX,
                all == sources_view(sources@),
                registry.wf(),
                forall|key: SessionKey| #[trigger]
                    made.slots.contains_key(key) ==> made.slots[key].generation == 0,
                (registry@, effects@) == all_spawned(made, all.take(j as int)),
            decreases sources@.len() - j,
        {
            proof {
                assert(all.take(j + 1).drop_last() =~= all.take(j as int));
                assert(all.take(j + 1).last() == sources@[j as int]@);
                lemma_generations(made, all.take(j as int));
            }
            let mut more = registry.spawn(sources[j].key);
            effects.append(&mut more);
            j += 1;
        }
        assert(all.take(j as int) =~= all);
        (registry, effects)
    }
}

/// What was heard of a process that runs, and what is decided about it if it
/// failed.
pub struct PollReport {
    pub key: SessionKey,
    pub identity: SessionIdentity,
    /// Whether the process has ended.
    pub exited: Result<bool, String>,
    pub decision: RestartDecision,
}

/// What a [`PollReport`] is, as a value.
pub struct ReportView {
    pub key: SessionKey,
    pub identity: SessionIdentity,
    pub exited: Result<bool, Seq<char>>,
    pub decision: RestartDecision,
}

impl View for PollReport {
    type V = ReportView;

    open spec fn view(&self) -> ReportView {
        ReportView {
            key: self.key,
            identity: self.identity,
            exited: match self.exited {
                Ok(exited) => Ok(exited),
                Err(error) => Err(error@),
            },
            decision: self.decision,
        }
    }
}

pub open spec fn reports_view(reports: Seq<PollReport>) -> Seq<ReportView> {
    reports.map_values(|report: PollReport| report@)
}

/// What a round of reports leads to.
pub struct Polled {
    pub registry: RegistryView,
    pub effects: Seq<SessionEffect>,
    /// The tabs whose shells have ended.
    pub exited: Seq<ShellTabId>,
}

/// The reports are taken in, one by one.
pub open spec fn reports_taken(r: RegistryView, reports: Seq<ReportView>, now: u128) -> Polled
    decreases reports.len(),
{
    if reports.len() == 0 {
        Polled { registry: r, effects: seq![], exited: seq![] }
    } else {
        let before = reports_taken(r, reports.drop_last(), now);
        let report = reports.last();
        match polled(report.key, report.exited) {
            PollView::Alive => before,
            PollView::ShellExited(id) => Polled { exited: before.exited.push(id), ..before },
            PollView::Failed(message) => {
                let (registry, effects) = failed(
                    before.registry,
                    report.key,
                    report.identity,
                    now,
                    message,
                    report.decision,
                );
                Polled { registry, effects: before.effects + effects, ..before }
            },
        }
    }
}

/// Processes are to be started in places, one by one.
pub open spec fn keys_spawned(r: RegistryView, keys: Seq<SessionKey>) -> (
    RegistryView,
    Seq<SessionEffect>,
)
    decreases keys.len(),
{
    if keys.len() == 0 {
        (r, seq![])
    } else {
        let (before, effects) = keys_spawned(r, keys.drop_last());
        let (after, more) = spawn_begun(before, keys.last());
        (after, effects + more)
    }
}

/// Whether `order` holds the places that are due, each once.
pub open spec fn is_due_order(r: RegistryView, order: Seq<SessionKey>, now: u128) -> bool {
    &&& order.no_duplicates()
    &&& forall|key: SessionKey| #[trigger]
        order.contains(key) <==> !r.shutting_down && is_due(r, key, now)
}

/// A round of reports is taken in, and what is due is started.
pub open spec fn round_polled(
    r: RegistryView,
    reports: Seq<ReportView>,
    order: Seq<SessionKey>,
    now: u128,
) -> Polled {
    let taken = reports_taken(r, reports, now);
    let (registry, effects) = keys_spawned(taken.registry, order);
    Polled { registry, effects: taken.effects + effects, ..taken }
}

/// Reports keep the places and their generations.
proof fn lemma_reports_keep_generations(r: RegistryView, reports: Seq<ReportView>, now: u128)
    ensures
        reports_taken(r, reports, now).registry.slots.dom() == r.slots.dom(),
        reports_taken(r, reports, now).registry.shutting_down == r.shutting_down,
        forall|key: SessionKey| #[trigger]
            r.slots.contains_key(key) ==> reports_taken(r, reports, now).registry.slots[key].generation
                == r.slots[key].generation,
    decreases reports.len(),
{
    if reports.len() > 0 {
        lemma_reports_keep_generations(r, reports.drop_last(), now);
        assert(reports_taken(r, reports, now).registry.slots.dom() =~= r.slots.dom());
    } else {
        assert(reports_taken(r, reports, now).registry.slots.dom() =~= r.slots.dom());
    }
}

/// A place that is not among the keys keeps its generation.
proof fn lemma_spawned_elsewhere(r: RegistryView, keys: Seq<SessionKey>, key: SessionKey)
    requires
        !keys.contains(key),
    ensures
        keys_spawned(r, keys).0.shutting_down == r.shutting_down,
        keys_spawned(r, keys).0.slots.contains_key(key) == r.slots.contains_key(key),
        r.slots.contains_key(key) ==> keys_spawned(r, keys).0.slots[key] == r.slots[key],
    decreases keys.len(),
{
    if keys.len() > 0 {
        assert(!keys.drop_last().contains(key)) by {
            if keys.drop_last().contains(key) {
                let i = choose|i: int| 0 <= i < keys.drop_last().len() && keys.drop_last()[i] == key;
                assert(keys[i] == key);
            }
        }
        assert(keys[keys.len() - 1] == keys.last());
        lemma_spawned_elsewhere(r, keys.drop_last(), key);
    }
}

impl SessionRegistry {
    fn take_report(&mut self, report: PollReport, exited: &mut Vec<ShellTabId>, now: u128) -> (
        effects: Vec<SessionEffect>)
        requires
            old(self).wf(),
            fits_after(now, Some(report.decision)),
            old(self)@.slots.contains_key(report.key),
        ensures
            final(self).wf(),
            match polled(report.key, report@.exited) {
                PollView::Alive => {
                    &&& final(self)@ == old(self)@
                    &&& effects@ == Seq::<SessionEffect>::empty()
                    &&& final(exited)@ == old(exited)@
                },
                PollView::ShellExited(id) => {
                    &&& final(self)@ == old(self)@
                    &&& effects@ == Seq::<SessionEffect>::empty()
                    &&& final(exited)@ == old(exited)@.push(id)
                },
                PollView::Failed(message) => {
                    &&& (final(self)@, effects@) == failed(
                        old(self)@,
                        report.key,
                        report.identity,
                        now,
                        message,
                        report.decision,
                    )
                    &&& final(exited)@ == old(exited)@
                },
            },
    {
        match poll_outcome(report.key, report.exited) {
            PollOutcome::Alive => Vec::new(),
            PollOutcome::ShellExited(id) => {
                exited.push(id);
                Vec::new()
            },
            PollOutcome::Failed(message) => match self.handle_failure(
                report.key,
                report.identity,
                now,
                message,
                report.decision,
            ) {
                Ok(effects) => effects,
                Err(_) => Vec::new(),
            },
        }
    }

    /// Takes in what was heard of the processes that run, and begins to start
    /// those that are due. Returns what is to be done, and the tabs whose shells
    /// have ended.
    pub fn poll(&mut self, reports: Vec<PollReport>, now: u128) -> (outcome: (
        Vec<SessionEffect>,
        Vec<ShellTabId>,
    ))
        requires
            old(self).wf(),
            has_generations(old(self)@),
            old(self)@.shutting_down || forall|i: int|
                0 <= i < reports@.len() ==> old(self)@.slots.contains_key(
                    (#[trigger] reports@[i]).key,
                ) && fits_after(now, Some(reports@[i].decision)),
        ensures
            final(self).wf(),
            old(self)@.shutting_down ==> final(self)@ == old(self)@ && outcome.0@.len() == 0
                && outcome.1@.len() == 0,
            !old(self)@.shutting_down ==> exists|order: Seq<SessionKey>|
                #![trigger round_polled(old(self)@, reports_view(reports@), order, now)]
                {
                    let taken = reports_taken(old(self)@, reports_view(reports@), now);
                    &&& is_due_order(taken.registry, order, now)
                    &&& round_polled(old(self)@, reports_view(reports@), order, now) == (Polled {
                        registry: final(self)@,
                        effects: outcome.0@,
                        exited: outcome.1@,
                    })
                },
    {
        let mut effects: Vec<SessionEffect> = Vec::new();
        let mut exited: Vec<ShellTabId> = Vec::new();
        if self.shutting_down {
            return (effects, exited);
        }
        let ghost first = self@;
        let ghost all = reports_view(reports@);
        let ghost given = reports@;
        let mut left = reports;
        let ghost mut i: int = 0;
        assert(all.take(0) =~= Seq::<ReportView>::empty());
        assert(given.skip(0) =~= given);
        assert(effects@ =~= seq![]);
        assert(exited@ =~= seq![]);
        while left.len() > 0
            invariant
                0 <= i,
                i + left@.len() == given.len(),
                left@ == given.skip(i),
                all == reports_view(given),
                self.wf(),
                forall|k: int|
                    0 <= k < given.len() ==> first.slots.contains_key((#[trigger] given[k]).key)
                        && fits_after(now, Some(given[k].decision)),
                reports_taken(first, all.take(i), now) == (Polled {
                    registry: self@,
                    effects: effects@,
                    exited: exited@,
                }),
            decreases left@.len(),
        {
            let ghost before = reports_taken(first, all.take(i), now);
            let report = left.remove(0);
            proof {
                assert(report == given[i]);
                assert(left@ =~= given.skip(i + 1));
                assert(all.take(i + 1).drop_last() =~= all.take(i));
                assert(all.take(i + 1).last() == report@);
                lemma_reports_keep_generations(first, all.take(i), now);
                assert(self@.slots.dom().contains(report.key));
            }
            let mut more = self.take_report(report, &mut exited, now);
            effects.append(&mut more);
            proof {
                assert(before.effects + Seq::<SessionEffect>::empty() =~= before.effects);
                i = i + 1;
            }
        }
        assert(all.take(i) =~= all);
        let ghost taken = self@;
        let ghost heard = effects@;
        proof {
            lemma_reports_keep_generations(first, all, now);
        }
        let due = self.due_slots(now);
        assert(is_due_order(taken, due@, now));
        let mut j: usize = 0;
        assert(due@.take(0) =~= Seq::<SessionKey>::empty());
        assert(heard + keys_spawned(taken, due@.take(0)).1 =~= heard);
        while j < due.len()
            invariant
                j <= due@.len(),
                due@.no_duplicates(),
                self.wf(),
                has_generations(taken),
                self@ == keys_spawned(taken, due@.take(j as int)).0,
                effects@ == heard + keys_spawned(taken, due@.take(j as int)).1,
            decreases due@.len() - j,
        {
            let key = due[j];
            proof {
                let spawned = due@.take(j as int);
                assert(due@.take(j + 1).drop_last() =~= spawned);
                assert(due@.take(j + 1).last() == key);
                assert(!spawned.contains(key)) by {
                    if spawned.contains(key) {
                        let k = choose|k: int| 0 <= k < spawned.len() && spawned[k] == key;
                        assert(due@[k] == due@[j as int]);
                    }
                }
                lemma_spawned_elsewhere(taken, spawned, key);
            }
            let ghost so_far = keys_spawned(taken, due@.take(j as int)).1;
            let mut more = self.spawn(key);
            let ghost last = more@;
            effects.append(&mut more);
            assert(heard + so_far + last =~= heard + (so_far + last));
            j += 1;
        }
        assert(due@.take(j as int) =~= due@);
        assert(round_polled(first, all, due@, now) == (Polled {
            registry: self@,
            effects: effects@,
            exited: exited@,
        }));
        (effects, exited)
    }
}

/// A failure of a process that was replaced, or that is of no place, changes
/// nothing.
pub proof fn law_stale_failure_is_ignored(
    r: RegistryView,
    key: SessionKey,
    identity: SessionIdentity,
    now: u128,
    message: Seq<char>,
    decision: RestartDecision,
)
    requires
        running(r, key) != Some(identity),
    ensures
        failed(r, key, identity, now, message, decision) == (r, Seq::<SessionEffect>::empty()),
{
}

/// Once everything was stopped, nothing runs, nothing is due, and nothing is
/// started again.
pub proof fn law_shutdown_is_final(
    r: RegistryView,
    key: SessionKey,
    identity: SessionIdentity,
    now: u128,
    message: Seq<char>,
    decision: RestartDecision,
    outcome: OutcomeView,
)
    ensures
        running(shut_down(r), key) is None,
        !is_due(shut_down(r), key, now),
        spawn_begun(shut_down(r), key) == (shut_down(r), Seq::<SessionEffect>::empty()),
        retried(shut_down(r), key) == (shut_down(r), Seq::<SessionEffect>::empty()),
        restarted(shut_down(r), key) == (shut_down(r), Seq::<SessionEffect>::empty()),
        failed(shut_down(r), key, identity, now, message, decision) == (
            shut_down(r),
            Seq::<SessionEffect>::empty(),
        ),
        spawn_finished(shut_down(r), key, identity, now, outcome) == shut_down(r),
{
}

/// The answer to an attempt that was replaced by a later one changes nothing.
pub proof fn law_late_answers_are_passed_over(
    r: RegistryView,
    key: SessionKey,
    identity: SessionIdentity,
    now: u128,
    outcome: OutcomeView,
)
    requires
        is_awaited(r, key, identity),
        has_generation(r, key),
    ensures
        !is_awaited(spawn_begun(r, key).0, key, identity),
        spawn_finished(spawn_begun(r, key).0, key, identity, now, outcome) == spawn_begun(
            r,
            key,
        ).0,
{
}

/// Retries, one after the other: the state afterwards, and what is to be done.
pub open spec fn all_retried(r: RegistryView, keys: Seq<SessionKey>) -> (
    RegistryView,
    Seq<SessionEffect>,
)
    decreases keys.len(),
{
    if keys.len() == 0 {
        (r, seq![])
    } else {
        let (before, effects) = all_retried(r, keys.drop_last());
        let (after, more) = retried(before, keys.last());
        (after, effects + more)
    }
}

/// Once everything was stopped, no number of retries changes anything: none asks
/// for a process, none needs a generation, every place is still paused because
/// of the shutdown, and a poll has nothing to start.
pub proof fn law_shutdown_survives_retries(
    r: RegistryView,
    keys: Seq<SessionKey>,
    key: SessionKey,
    now: u128,
)
    ensures
        all_retried(shut_down(r), keys) == (shut_down(r), Seq::<SessionEffect>::empty()),
        has_generations(all_retried(shut_down(r), keys).0),
        all_retried(shut_down(r), keys).0.shutting_down,
        !is_due(all_retried(shut_down(r), keys).0, key, now),
        r.slots.contains_key(key) ==> all_retried(shut_down(r), keys).0.slots.contains_key(key)
            && all_retried(shut_down(r), keys).0.slots[key].state == (StateView::Paused {
            message: "shut down"@,
        }),
    decreases keys.len(),
{
    if keys.len() > 0 {
        law_shutdown_survives_retries(r, keys.drop_last(), key, now);
        let none = Seq::<SessionEffect>::empty();
        assert(none + none =~= none);
    }
}

/// What happens in one place leaves every other place as it is.
pub proof fn law_places_are_independent(
    r: RegistryView,
    key: SessionKey,
    other: SessionKey,
    identity: SessionIdentity,
    now: u128,
    message: Seq<char>,
    decision: RestartDecision,
    outcome: OutcomeView,
)
    requires
        key != other,
        r.slots.contains_key(other),
    ensures
        spawn_begun(r, key).0.slots.contains_key(other),
        spawn_begun(r, key).0.slots[other] == r.slots[other],
        spawn_finished(r, key, identity, now, outcome).slots.contains_key(other),
        spawn_finished(r, key, identity, now, outcome).slots[other] == r.slots[other],
        failed(r, key, identity, now, message, decision).0.slots.contains_key(other),
        failed(r, key, identity, now, message, decision).0.slots[other] == r.slots[other],
        restarted(r, key).0.slots.contains_key(other),
        restarted(r, key).0.slots[other] == r.slots[other],
        retried(r, key).0.slots.contains_key(other),
        retried(r, key).0.slots[other] == r.slots[other],
{
}

/// Whether all identities in use were given out before.
pub open spec fn identities_are_old(r: RegistryView) -> bool {
    forall|key: SessionKey| #[trigger]
        r.slots.contains_key(key) ==> (running(r, key) matches Some(identity) ==> identity.id
            < r.next_id)
}

/// A process that is started gets an identity that no running process has, so
/// that no news of an earlier process is taken for news of it.
pub proof fn law_identities_are_unique(
    r: RegistryView,
    key: SessionKey,
    other: SessionKey,
    now: u128,
    outcome: OutcomeView,
)
    requires
        identities_are_old(r),
    ensures
        identities_are_old(spawn_begun(r, key).0),
        spawn_begun(r, key).1.len() > 0 ==> {
            &&& spawn_begun(r, key).1[0] matches SessionEffect::Spawn { identity, .. }
            &&& running(r, other) != Some(identity)
            &&& is_awaited(spawn_begun(r, key).0, key, identity)
            &&& identities_are_old(
                spawn_finished(spawn_begun(r, key).0, key, identity, now, outcome),
            )
        },
{
    let after = spawn_begun(r, key).0;
    assert forall|k: SessionKey| #[trigger] after.slots.contains_key(k) implies (running(
        after,
        k,
    ) matches Some(identity) ==> identity.id < after.next_id) by {
        assert(r.slots.contains_key(k));
    }
    if r.slots.contains_key(other) {
        assert(running(r, other) matches Some(identity) ==> identity.id < r.next_id);
    }
    if spawn_begun(r, key).1.len() > 0 {
        let identity = spawn_begun(r, key).1[0]->identity;
        let done = spawn_finished(after, key, identity, now, outcome);
        assert forall|k: SessionKey| #[trigger] done.slots.contains_key(k) implies (running(
            done,
            k,
        ) matches Some(identity) ==> identity.id < done.next_id) by {
            assert(after.slots.contains_key(k));
        }
    }
}

/// A process that failed no longer runs. It is tried again when its time comes,
/// or waits for the user.
pub proof fn law_failed_process_waits(
    r: RegistryView,
    key: SessionKey,
    identity: SessionIdentity,
    now: u128,
    message: Seq<char>,
    decision: RestartDecision,
    later: u128,
)
    requires
        is_current(r, key, identity),
        fits_after(now, Some(decision)),
    ensures
        ({
            let after = failed(r, key, identity, now, message, decision).0;
            &&& running(after, key) is None
            &&& match decision {
                RestartDecision::Backoff(delay) => is_due(after, key, later) <==> later >= now
                    + delay,
                RestartDecision::Paused => !is_due(after, key, later),
            }
        }),
{
}

/// A tab that is closed is gone, and a process in it is ended.
pub proof fn law_closed_tab_is_gone(
    r: RegistryView,
    id: ShellTabId,
    replacement: Option<ShellTabId>,
)
    requires
        r.slots.contains_key(SessionKey::Shell(id)),
        replacement != Some(id),
    ensures
        !shell_closed(r, id, replacement).0.slots.contains_key(SessionKey::Shell(id)),
        running(r, SessionKey::Shell(id)) is Some ==> shell_closed(r, id, replacement).1.contains(
            SessionEffect::Terminate(SessionKey::Shell(id)),
        ),
{
    let key = SessionKey::Shell(id);
    if running(r, key) is Some {
        assert(shell_closed(r, id, replacement).1[0] == SessionEffect::Terminate(key));
    }
}

} // verus!
