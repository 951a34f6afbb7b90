//! Running `git status`: waiting for it, cutting it short, and reading what it
//! wrote.

use vstd::prelude::*;
use vstd::string::*;

use crate::bytes::copy_range;
use crate::git::{
    changes_result, parse_git_porcelain_v2_capped, porcelain_changes, Change, GitChange,
};
use crate::text::{
    decimal, decimal_string, join2, join3, lossy_string, lossy_text, trim_text, trimmed,
};

verus! {

/// How much of each output is kept.
pub const GIT_OUTPUT_CAP_BYTES: usize = 4_194_304;

/// How long `git status` may take, in nanoseconds.
pub const GIT_TIMEOUT: u128 = 5_000_000_000;

/// How long to wait between two looks at the process, in nanoseconds.
pub const PROCESS_POLL_INTERVAL: u128 = 10_000_000;

/// How long the outputs may stay open once the processes were stopped, in
/// nanoseconds.
pub const PIPE_GRACE: u128 = 100_000_000;

/// The first bytes of an output, up to a cap.
pub struct CappedOutput {
    kept: Vec<u8>,
    cap: usize,
    truncated: bool,
    all: Ghost<Seq<u8>>,
}

/// The first `cap` bytes.
pub open spec fn capped(all: Seq<u8>, cap: nat) -> Seq<u8> {
    if all.len() <= cap {
        all
    } else {
        all.take(cap as int)
    }
}

impl CappedOutput {
    /// Everything that was read.
    pub closed spec fn all(&self) -> Seq<u8> {
        self.all@
    }

    pub closed spec fn cap(&self) -> nat {
        self.cap as nat
    }

    pub closed spec fn wf(&self) -> bool {
        &&& self.kept@ == capped(self.all@, self.cap as nat)
        &&& self.truncated == (self.all@.len() > self.cap)
    }

    /// Nothing read yet.
    pub fn new(cap: usize) -> (output: CappedOutput)
        ensures
            output.wf(),
            output.cap() == cap,
            output.all() == Seq::<u8>::empty(),
    {
        let output = CappedOutput {
            kept: Vec::new(),
            cap,
            truncated: false,
            all: Ghost(Seq::empty()),
        };
        assert(output.kept@ =~= Seq::<u8>::empty());
        output
    }

    /// Takes in what was read next.
    pub fn read_capped(&mut self, chunk: &[u8])
        requires
            old(self).wf(),
        ensures
            final(self).wf(),
            final(self).cap() == old(self).cap(),
            final(self).all() == old(self).all() + chunk@,
    {
        let ghost before = self.all@;
        let ghost after = before + chunk@;
        let remaining = self.cap - self.kept.len();
        let keep = if remaining <= chunk.len() {
            remaining
        } else {
            chunk.len()
        };
        let mut more = copy_range(chunk, 0, keep);
        let ghost kept = self.kept@;
        self.kept.append(&mut more);
        if keep < chunk.len() {
            self.truncated = true;
        }
        self.all = Ghost(after);
        proof {
            assert(self.kept@ == kept + chunk@.subrange(0, keep as int));
            if before.len() >= self.cap {
                assert(self.kept@ =~= kept);
                assert(self.kept@ =~= capped(after, self.cap as nat));
            } else {
                assert(kept == before);
                assert(self.kept@ =~= capped(after, self.cap as nat));
            }
        }
    }

    /// What was kept, and whether something was left out.
    pub fn finish(self) -> (output: (Vec<u8>, bool))
        requires
            self.wf(),
        ensures
            output.0@ == capped(self.all(), self.cap()),
            output.1 == (self.all().len() > self.cap()),
    {
        (self.kept, self.truncated)
    }
}

/// How a process ended.
#[derive(Debug, Clone, PartialEq, Eq)]
pub struct ExitReport {
    pub success: bool,
    /// The end in words.
    pub text: String,
}

/// What a [`ExitReport`] is, as a value.
pub struct ExitView {
    pub success: bool,
    pub text: Seq<char>,
}

impl View for ExitReport {
    type V = ExitView;

    open spec fn view(&self) -> ExitView {
        ExitView { success: self.success, text: self.text@ }
    }
}

/// What was read from one output.
#[derive(Debug)]
pub struct Capture {
    pub bytes: Vec<u8>,
    pub truncated: bool,
}

/// What a [`Capture`] is, as a value.
pub struct CaptureView {
    pub bytes: Seq<u8>,
    pub truncated: bool,
}

impl View for Capture {
    type V = CaptureView;

    open spec fn view(&self) -> CaptureView {
        CaptureView { bytes: self.bytes@, truncated: self.truncated }
    }
}

/// The result of reading an output.
pub open spec fn capture_result(result: Result<Capture, String>) -> Result<CaptureView, Seq<char>> {
    match result {
        Ok(capture) => Ok(capture@),
        Err(error) => Err(error@),
    }
}

pub open spec fn capture_option(result: Option<Result<Capture, String>>) -> Option<
    Result<CaptureView, Seq<char>>,
> {
    match result {
        Some(result) => Some(capture_result(result)),
        None => None,
    }
}

/// The outcome of starting the process.
#[derive(Debug)]
pub enum Spawn {
    Started,
    NoStdout,
    NoStderr,
    Failed(String),
}

/// What happened, and when.
#[derive(Debug)]
pub enum GitEvent {
    Spawned(Spawn),
    /// The process has ended, or not yet, or it could not be asked.
    Polled(Result<Option<ExitReport>, String>),
    Slept,
    /// The processes were stopped.
    Stopped(Result<(), String>),
    /// The process was waited for.
    Reaped(Result<ExitReport, String>),
    /// One output was read to its end.
    Output { stdout: bool, result: Result<Capture, String> },
    /// Nothing came in time.
    TimedOut,
    /// Nothing can come any more.
    Disconnected,
}

/// What a [`GitEvent`] is, as a value.
pub enum GitEventView {
    Started,
    NoStdout,
    NoStderr,
    NotStarted(Seq<char>),
    Polled(Result<Option<ExitView>, Seq<char>>),
    Slept,
    Stopped(Result<(), Seq<char>>),
    Reaped(Result<ExitView, Seq<char>>),
    Output { stdout: bool, result: Result<CaptureView, Seq<char>> },
    TimedOut,
    Disconnected,
}

impl View for GitEvent {
    type V = GitEventView;

    open spec fn view(&self) -> GitEventView {
        match *self {
            GitEvent::Spawned(Spawn::Started) => GitEventView::Started,
            GitEvent::Spawned(Spawn::NoStdout) => GitEventView::NoStdout,
            GitEvent::Spawned(Spawn::NoStderr) => GitEventView::NoStderr,
            GitEvent::Spawned(Spawn::Failed(error)) => GitEventView::NotStarted(error@),
            GitEvent::Polled(answer) => GitEventView::Polled(
                match answer {
                    Ok(Some(exit)) => Ok(Some(exit@)),
                    Ok(None) => Ok(None),
                    Err(error) => Err(error@),
                },
            ),
            GitEvent::Slept => GitEventView::Slept,
            GitEvent::Stopped(answer) => GitEventView::Stopped(
                match answer {
                    Ok(()) => Ok(()),
                    Err(error) => Err(error@),
                },
            ),
            GitEvent::Reaped(answer) => GitEventView::Reaped(
                match answer {
                    Ok(exit) => Ok(exit@),
                    Err(error) => Err(error@),
                },
            ),
            GitEvent::Output { stdout, result } => GitEventView::Output {
                stdout,
                result: capture_result(result),
            },
            GitEvent::TimedOut => GitEventView::TimedOut,
            GitEvent::Disconnected => GitEventView::Disconnected,
        }
    }
}

/// What a run waits for.
#[derive(Debug, Clone, Copy, PartialEq, Eq, Structural)]
pub enum GitPhase {
    /// The start of the process.
    Spawn,
    /// A look at whether the process has ended.
    Poll,
    /// Some time.
    Sleep,
    /// The end of a process that took too long.
    StopLate,
    /// The exit of that process.
    Reap,
    /// The end of a process that could not be asked.
    Abandon,
    /// The outputs.
    Read,
    /// The end of whatever holds the outputs open.
    StopHolders,
}

/// A run of `git status`.
#[derive(Debug)]
pub struct GitRun {
    cap: usize,
    phase: GitPhase,
    deadline: u128,
    pipe_deadline: u128,
    timed_out: bool,
    group_stopped: bool,
    exit: Option<ExitReport>,
    wait_error: Option<String>,
    stdout: Option<Result<Capture, String>>,
    stderr: Option<Result<Capture, String>>,
}

/// What a [`GitRun`] is, as a value.
pub struct GitRunView {
    pub cap: nat,
    pub phase: GitPhase,
    pub deadline: u128,
    pub pipe_deadline: u128,
    pub timed_out: bool,
    pub group_stopped: bool,
    pub exit: Option<ExitView>,
    pub wait_error: Option<Seq<char>>,
    pub stdout: Option<Result<CaptureView, Seq<char>>>,
    pub stderr: Option<Result<CaptureView, Seq<char>>>,
}

pub open spec fn exit_option(exit: Option<ExitReport>) -> Option<ExitView> {
    match exit {
        Some(exit) => Some(exit@),
        None => None,
    }
}

impl View for GitRun {
    type V = GitRunView;

    closed spec fn view(&self) -> GitRunView {
        GitRunView {
            cap: self.cap as nat,
            phase: self.phase,
            deadline: self.deadline,
            pipe_deadline: self.pipe_deadline,
            timed_out: self.timed_out,
            group_stopped: self.group_stopped,
            exit: exit_option(self.exit),
            wait_error: crate::text::text_view(self.wait_error),
            stdout: capture_option(self.stdout),
            stderr: capture_option(self.stderr),
        }
    }
}

/// What is to be done next.
#[derive(Debug, Clone, Copy, PartialEq, Eq, Structural)]
pub enum GitAction {
    Spawn,
    Poll,
    Sleep(u128),
    /// Stop the process and its group.
    Stop,
    Reap,
    /// Stop and wait, whatever comes of it.
    StopAndReap,
    /// Wait for an output, no longer than this.
    Receive(u128),
}

/// Where a run goes.
pub enum GitProgressView {
    Running(GitRunView),
    Finished(Result<Seq<Change>, Seq<char>>),
}

pub open spec fn git_failed(message: Seq<char>) -> GitProgressView {
    GitProgressView::Finished(Err(message))
}

/// Whether an event is one that a run waits for.
pub open spec fn event_fits(phase: GitPhase, event: GitEventView) -> bool {
    match phase {
        GitPhase::Spawn => event is Started || event is NoStdout || event is NoStderr
            || event is NotStarted,
        GitPhase::Poll => event is Polled,
        GitPhase::Sleep => event is Slept,
        GitPhase::StopLate => event is Stopped,
        GitPhase::Reap => event is Reaped,
        GitPhase::Abandon => event is Stopped,
        GitPhase::Read => event is Output || event is TimedOut || event is Disconnected,
        GitPhase::StopHolders => event is Stopped,
    }
}

/// What a run asks for at a time.
pub open spec fn git_action(run: GitRunView, now: u128) -> GitAction {
    match run.phase {
        GitPhase::Spawn => GitAction::Spawn,
        GitPhase::Poll => GitAction::Poll,
        GitPhase::Sleep => GitAction::Sleep(PROCESS_POLL_INTERVAL),
        GitPhase::StopLate => GitAction::Stop,
        GitPhase::Reap => GitAction::Reap,
        GitPhase::Abandon => GitAction::StopAndReap,
        GitPhase::Read => GitAction::Receive(
            if now < run.pipe_deadline {
                (run.pipe_deadline - now) as u128
            } else {
                0
            },
        ),
        GitPhase::StopHolders => GitAction::Stop,
    }
}

/// The changes, or why there are none, once both outputs are in.
pub open spec fn git_result(run: GitRunView) -> Result<Seq<Change>, Seq<char>> {
    match run.stdout->0 {
        Err(error) => Err("failed to read git status stdout: "@ + error),
        Ok(stdout) => match run.stderr->0 {
            Err(error) => Err("failed to read git status stderr: "@ + error),
            Ok(stderr) => if run.timed_out {
                Err("git status timed out after "@ + decimal(5) + "s"@)
            } else if stdout.truncated || stderr.truncated {
                Err(
                    "git status output exceeded "@ + decimal(GIT_OUTPUT_CAP_BYTES as nat)
                        + " bytes"@,
                )
            } else if !run.exit->0.success {
                let text = trimmed(lossy_text(stderr.bytes));
                Err(
                    if text.len() == 0 {
                        "git status exited with "@ + run.exit->0.text
                    } else {
                        text
                    },
                )
            } else {
                porcelain_changes(stdout.bytes, run.cap)
            },
        },
    }
}

/// One output is in.
pub open spec fn output_taken(
    run: GitRunView,
    stdout: bool,
    result: Result<CaptureView, Seq<char>>,
) -> GitProgressView {
    let after = if stdout {
        GitRunView { stdout: Some(result), ..run }
    } else {
        GitRunView { stderr: Some(result), ..run }
    };
    if after.stdout is Some && after.stderr is Some {
        GitProgressView::Finished(git_result(after))
    } else {
        GitProgressView::Running(after)
    }
}

/// What an event at a time leads to.
pub open spec fn git_advanced(run: GitRunView, event: GitEventView, now: u128) -> GitProgressView {
    match run.phase {
        GitPhase::Spawn => match event {
            GitEventView::Started => GitProgressView::Running(
                GitRunView {
                    phase: GitPhase::Poll,
                    deadline: (now + GIT_TIMEOUT) as u128,
                    ..run
                },
            ),
            GitEventView::NoStdout => git_failed("failed to capture git status output"@),
            GitEventView::NoStderr => git_failed("failed to capture git status errors"@),
            _ => git_failed("failed to run git status: "@ + event->NotStarted_0),
        },
        GitPhase::Poll => match event->Polled_0 {
            Ok(Some(exit)) => GitProgressView::Running(
                GitRunView {
                    phase: GitPhase::Read,
                    exit: Some(exit),
                    pipe_deadline: run.deadline,
                    ..run
                },
            ),
            Ok(None) => GitProgressView::Running(
                GitRunView {
                    phase: if now < run.deadline {
                        GitPhase::Sleep
                    } else {
                        GitPhase::StopLate
                    },
                    ..run
                },
            ),
            Err(error) => GitProgressView::Running(
                GitRunView { phase: GitPhase::Abandon, wait_error: Some(error), ..run },
            ),
        },
        GitPhase::Sleep => GitProgressView::Running(GitRunView { phase: GitPhase::Poll, ..run }),
        GitPhase::StopLate => match event->Stopped_0 {
            Ok(()) => GitProgressView::Running(GitRunView { phase: GitPhase::Reap, ..run }),
            Err(error) => git_failed("failed to stop timed-out git status: "@ + error),
        },
        GitPhase::Reap => match event->Reaped_0 {
            Ok(exit) => GitProgressView::Running(
                GitRunView {
                    phase: GitPhase::Read,
                    exit: Some(exit),
                    timed_out: true,
                    group_stopped: true,
                    pipe_deadline: (now + PIPE_GRACE) as u128,
                    ..run
                },
            ),
            Err(error) => git_failed("failed to reap timed-out git status: "@ + error),
        },
        GitPhase::Abandon => git_failed("failed to wait for git status: "@ + run.wait_error->0),
        GitPhase::Read => match event {
            GitEventView::Output { stdout, result } => output_taken(run, stdout, result),
            GitEventView::TimedOut => if run.group_stopped {
                git_failed("git status pipes remained open after process-group termination"@)
            } else {
                GitProgressView::Running(GitRunView { phase: GitPhase::StopHolders, ..run })
            },
            _ => git_failed("git status pipe readers disconnected"@),
        },
        GitPhase::StopHolders => match event->Stopped_0 {
            Ok(()) => GitProgressView::Running(
                GitRunView {
                    phase: GitPhase::Read,
                    group_stopped: true,
                    pipe_deadline: (now + PIPE_GRACE) as u128,
                    ..run
                },
            ),
            Err(error) => git_failed("failed to stop git status pipe holders: "@ + error),
        },
    }
}

/// A run that begins.
pub open spec fn git_started(cap: nat) -> GitRunView {
    GitRunView {
        cap,
        phase: GitPhase::Spawn,
        deadline: 0,
        pipe_deadline: 0,
        timed_out: false,
        group_stopped: false,
        exit: None,
        wait_error: None,
        stdout: None,
        stderr: None,
    }
}

/// What holds of a run at all times.
pub open spec fn git_run_ok(run: GitRunView) -> bool {
    &&& run.stdout is None || run.stderr is None
    &&& run.phase is Read || run.phase is StopHolders ==> run.exit is Some
    &&& run.phase is Abandon ==> run.wait_error is Some
}

/// What became of a run.
#[derive(Debug)]
pub enum GitProgress {
    Running(GitRun),
    Finished(Result<Vec<GitChange>, String>),
}

impl View for GitProgress {
    type V = GitProgressView;

    open spec fn view(&self) -> GitProgressView {
        match *self {
            GitProgress::Running(run) => GitProgressView::Running(run@),
            GitProgress::Finished(result) => GitProgressView::Finished(changes_result(result)),
        }
    }
}

pub open spec fn git_progress_ok(progress: GitProgressView) -> bool {
    match progress {
        GitProgressView::Running(run) => git_run_ok(run),
        GitProgressView::Finished(_) => true,
    }
}

fn fail_with(message: &str) -> (progress: GitProgress)
    ensures
        progress@ == git_failed(message@),
{
    GitProgress::Finished(Err(message.to_owned()))
}

fn fail_because(what: &str, reason: &str) -> (progress: GitProgress)
    ensures
        progress@ == git_failed(what@ + reason@),
{
    GitProgress::Finished(Err(join2(what, reason)))
}

impl GitRun {
    /// What holds of a run at all times.
    pub open spec fn wf(&self) -> bool {
        git_run_ok(self@)
    }

    /// Begins a run that reads at most `cap` changes.
    pub fn start(cap: usize) -> (run: GitRun)
        ensures
            run.wf(),
            run@ == git_started(cap as nat),
    {
        GitRun {
            cap,
            phase: GitPhase::Spawn,
            deadline: 0,
            pipe_deadline: 0,
            timed_out: false,
            group_stopped: false,
            exit: None,
            wait_error: None,
            stdout: None,
            stderr: None,
        }
    }

    /// What is to be done next.
    pub fn action(&self, now: u128) -> (action: GitAction)
        ensures
            action == git_action(self@, now),
    {
        match self.phase {
            GitPhase::Spawn => GitAction::Spawn,
            GitPhase::Poll => GitAction::Poll,
            GitPhase::Sleep => GitAction::Sleep(PROCESS_POLL_INTERVAL),
            GitPhase::StopLate => GitAction::Stop,
            GitPhase::Reap => GitAction::Reap,
            GitPhase::Abandon => GitAction::StopAndReap,
            GitPhase::Read => GitAction::Receive(self.pipe_deadline.saturating_sub(now)),
            GitPhase::StopHolders => GitAction::Stop,
        }
    }

    fn with_phase(self, phase: GitPhase) -> (progress: GitProgress)
        ensures
            progress@ == GitProgressView::Running(GitRunView { phase, ..self@ }),
    {
        let mut run = self;
        run.phase = phase;
        GitProgress::Running(run)
    }

    /// The changes, or why there are none.
    fn conclude(self) -> (result: Result<Vec<GitChange>, String>)
        requires
            self@.stdout is Some,
            self@.stderr is Some,
            self@.exit is Some,
        ensures
            changes_result(result) == git_result(self@),
    {
        let GitRun { cap, timed_out, exit, stdout, stderr, .. } = self;
        let stdout = match stdout {
            Some(Ok(stdout)) => stdout,
            Some(Err(error)) => {
                return Err(join2("failed to read git status stdout: ", error.as_str()));
            },
            None => return Err(String::new()),
        };
        let stderr = match stderr {
            Some(Ok(stderr)) => stderr,
            Some(Err(error)) => {
                return Err(join2("failed to read git status stderr: ", error.as_str()));
            },
            None => return Err(String::new()),
        };
        if timed_out {
            return Err(
                join3("git status timed out after ", decimal_string(5).as_str(), "s"),
            );
        }
        if stdout.truncated || stderr.truncated {
            return Err(
                join3(
                    "git status output exceeded ",
                    decimal_string(GIT_OUTPUT_CAP_BYTES as u128).as_str(),
                    " bytes",
                ),
            );
        }
        let exit = match exit {
            Some(exit) => exit,
            None => return Err(String::new()),
        };
        if !exit.success {
            let text = trim_text(lossy_string(&stderr.bytes).as_str());
            return Err(
                if text.as_str().unicode_len() == 0 {
                    join2("git status exited with ", exit.text.as_str())
                } else {
                    text
                },
            );
        }
        parse_git_porcelain_v2_capped(stdout.bytes.as_slice(), cap)
    }

    fn take_output(self, stdout: bool, result: Result<Capture, String>) -> (progress: GitProgress)
        requires
            self@.exit is Some,
        ensures
            progress@ == output_taken(self@, stdout, capture_result(result)),
    {
        let mut run = self;
        if stdout {
            run.stdout = Some(result);
        } else {
            run.stderr = Some(result);
        }
        if run.stdout.is_some() && run.stderr.is_some() {
            GitProgress::Finished(run.conclude())
        } else {
            GitProgress::Running(run)
        }
    }

    /// Takes an event that happened at `now`.
    pub fn next(self, event: GitEvent, now: u128) -> (progress: GitProgress)
        requires
            self.wf(),
            event_fits(self@.phase, event@),
            now + GIT_TIMEOUT <= u128::MAX,
        ensures
            progress@ == git_advanced(self@, event@, now),
            git_progress_ok(progress@),
    {
        match (self.phase, event) {
            (GitPhase::Spawn, GitEvent::Spawned(spawn)) => match spawn {
                Spawn::Started => {
                    let mut run = self;
                    run.phase = GitPhase::Poll;
                    run.deadline = now + GIT_TIMEOUT;
                    GitProgress::Running(run)
                },
                Spawn::NoStdout => fail_with("failed to capture git status output"),
                Spawn::NoStderr => fail_with("failed to capture git status errors"),
                Spawn::Failed(error) => fail_because(
                    "failed to run git status: ",
                    error.as_str(),
                ),
            },
            (GitPhase::Poll, GitEvent::Polled(answer)) => match answer {
                Ok(Some(exit)) => {
                    let mut run = self;
                    run.phase = GitPhase::Read;
                    run.exit = Some(exit);
                    run.pipe_deadline = run.deadline;
                    GitProgress::Running(run)
                },
                Ok(None) => if now < self.deadline {
                    self.with_phase(GitPhase::Sleep)
                } else {
                    self.with_phase(GitPhase::StopLate)
                },
                Err(error) => {
                    let mut run = self;
                    run.phase = GitPhase::Abandon;
                    run.wait_error = Some(error);
                    GitProgress::Running(run)
                },
            },
            (GitPhase::Sleep, _) => self.with_phase(GitPhase::Poll),
            (GitPhase::StopLate, GitEvent::Stopped(answer)) => match answer {
                Ok(()) => self.with_phase(GitPhase::Reap),
                Err(error) => fail_because(
                    "failed to stop timed-out git status: ",
                    error.as_str(),
                ),
            },
            (GitPhase::Reap, GitEvent::Reaped(answer)) => match answer {
                Ok(exit) => {
                    let mut run = self;
                    run.phase = GitPhase::Read;
                    run.exit = Some(exit);
                    run.timed_out = true;
                    run.group_stopped = true;
                    run.pipe_deadline = now + PIPE_GRACE;
                    GitProgress::Running(run)
                },
                Err(error) => fail_because(
                    "failed to reap timed-out git status: ",
                    error.as_str(),
                ),
            },
            (GitPhase::Abandon, _) => match &self.wait_error {
                Some(error) => fail_because("failed to wait for git status: ", error.as_str()),
                None => fail_with("failed to wait for git status: "),
            },
            (GitPhase::Read, GitEvent::Output { stdout, result }) => self.take_output(
                stdout,
                result,
            ),
            (GitPhase::Read, GitEvent::TimedOut) => if self.group_stopped {
                fail_with("git status pipes remained open after process-group termination")
            } else {
                self.with_phase(GitPhase::StopHolders)
            },
            (GitPhase::StopHolders, GitEvent::Stopped(answer)) => match answer {
                Ok(()) => {
                    let mut run = self;
                    run.phase = GitPhase::Read;
                    run.group_stopped = true;
                    run.pipe_deadline = now + PIPE_GRACE;
                    GitProgress::Running(run)
                },
                Err(error) => fail_because(
                    "failed to stop git status pipe holders: ",
                    error.as_str(),
                ),
            },
            _ => fail_with("git status pipe readers disconnected"),
        }
    }
}

/// Output that was cut off, and output of a process that was cut short or
/// failed, is never read as a snapshot.
pub proof fn law_incomplete_output_is_no_snapshot(run: GitRunView)
    requires
        run.timed_out || !run.exit->0.success || (run.stdout->0 matches Ok(
            capture,
        ) && capture.truncated) || (run.stderr->0 matches Ok(capture) && capture.truncated),
    ensures
        git_result(run) is Err,
{
}

/// The process is given its time, and stopped once it is over.
pub proof fn law_timeout_stops_the_process(run: GitRunView, now: u128)
    requires
        run.phase is Poll,
    ensures
        now < run.deadline ==> git_advanced(run, GitEventView::Polled(Ok(None)), now)
            == GitProgressView::Running(GitRunView { phase: GitPhase::Sleep, ..run }),
        now >= run.deadline ==> git_advanced(run, GitEventView::Polled(Ok(None)), now)
            == GitProgressView::Running(GitRunView { phase: GitPhase::StopLate, ..run }),
{
}

/// Outputs that stay open after everything was stopped are given up: the
/// processes are stopped at most once while reading.
pub proof fn law_open_pipes_are_given_up(run: GitRunView, now: u128, later: u128)
    requires
        run.phase is StopHolders,
    ensures
        git_advanced(run, GitEventView::Stopped(Ok(())), now) matches GitProgressView::Running(
            after,
        ) && git_advanced(after, GitEventView::TimedOut, later) matches GitProgressView::Finished(
            Err(_),
        ),
{
}

} // verus!
