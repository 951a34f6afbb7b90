//! How `git status` is run, and what its end means.

use vstd::prelude::*;
use vstd::string::*;

use crate::git::{porcelain_changes, Change};
use crate::git_status::{
    capped, git_action, git_advanced, git_result, git_started, CaptureView, ExitView, GitAction,
    GitEventView, GitProgressView, GitRunView,
};
use crate::text::{decimal, lossy_text, trimmed};

verus! {

/// Of an output its beginning is kept, up to the cap, and all of it where it is
/// no longer than that.
pub proof fn law_outputs_keep_their_beginning(all: Seq<u8>, cap: nat)
    ensures
        all.len() <= cap ==> capped(all, cap) == all,
        all.len() > cap ==> capped(all, cap).len() == cap && capped(all, cap) + all.skip(
            cap as int,
        ) == all,
{
    if all.len() > cap {
        assert(capped(all, cap) + all.skip(cap as int) =~= all);
    }
}

/// A run that ends well hands on what Git wrote: the process is started and
/// asked after, its two outputs come in, in either order, and what it wrote is
/// read as changes.
pub proof fn law_good_run_reads_the_output(
    cap: nat,
    exit: ExitView,
    stdout: CaptureView,
    stderr: CaptureView,
    begun: u128,
    now: u128,
    errors_first: bool,
)
    requires
        exit.success,
        !stdout.truncated,
        !stderr.truncated,
        begun + 5_000_000_000 <= u128::MAX,
    ensures
        ({
            let start = git_started(cap);
            let polls = git_advanced(start, GitEventView::Started, begun)->Running_0;
            let reads = git_advanced(polls, GitEventView::Polled(Ok(Some(exit))), now)->Running_0;
            let half = git_advanced(
                reads,
                GitEventView::Output {
                    stdout: !errors_first,
                    result: Ok(
                        if errors_first {
                            stderr
                        } else {
                            stdout
                        },
                    ),
                },
                now,
            )->Running_0;
            let done = git_advanced(
                half,
                GitEventView::Output {
                    stdout: errors_first,
                    result: Ok(
                        if errors_first {
                            stdout
                        } else {
                            stderr
                        },
                    ),
                },
                now,
            );
            &&& git_action(start, begun) is Spawn
            &&& polls.phase is Poll
            &&& git_action(polls, now) is Poll
            &&& polls.deadline == begun + 5_000_000_000
            &&& reads.phase is Read
            &&& git_action(reads, now) is Receive
            &&& reads.pipe_deadline == polls.deadline
            &&& done == GitProgressView::Finished(porcelain_changes(stdout.bytes, cap))
        }),
{
}

/// A process that has not ended is asked after again a hundredth of a second
/// later, as long as its time is not over.
pub proof fn law_running_process_is_asked_after(run: GitRunView, now: u128)
    requires
        run.phase is Poll,
        now < run.deadline,
    ensures
        ({
            let waits = git_advanced(run, GitEventView::Polled(Ok(None)), now)->Running_0;
            let again = git_advanced(waits, GitEventView::Slept, now)->Running_0;
            &&& git_action(waits, now) == GitAction::Sleep(10_000_000)
            &&& again.phase is Poll
            &&& again.deadline == run.deadline
        }),
{
}

/// A process whose time is over is stopped and reaped, what it wrote is waited
/// for a tenth of a second more, and then the run says that it timed out.
pub proof fn law_late_process_is_stopped(
    run: GitRunView,
    exit: ExitView,
    stdout: CaptureView,
    stderr: CaptureView,
    now: u128,
)
    requires
        run.phase is Poll,
        now >= run.deadline,
        run.stdout is None,
        run.stderr is None,
        now + 100_000_000 <= u128::MAX,
    ensures
        ({
            let late = git_advanced(run, GitEventView::Polled(Ok(None)), now)->Running_0;
            let stopped = git_advanced(late, GitEventView::Stopped(Ok(())), now)->Running_0;
            let reads = git_advanced(stopped, GitEventView::Reaped(Ok(exit)), now)->Running_0;
            let half = git_advanced(
                reads,
                GitEventView::Output { stdout: true, result: Ok(stdout) },
                now,
            )->Running_0;
            let done = git_advanced(
                half,
                GitEventView::Output { stdout: false, result: Ok(stderr) },
                now,
            );
            &&& git_action(late, now) is Stop
            &&& git_action(stopped, now) is Reap
            &&& git_action(reads, now) == GitAction::Receive(100_000_000)
            &&& done == GitProgressView::Finished(
                Err::<Seq<Change>, _>("git status timed out after "@ + decimal(5) + "s"@),
            )
        }),
{
}

/// A process that failed says why in its own words, or else how it ended.
/// Output that is too long is none.
pub proof fn law_failed_process_says_why(run: GitRunView, stdout: CaptureView, stderr: CaptureView)
    requires
        run.stdout == Some(Ok::<_, Seq<char>>(stdout)),
        run.stderr == Some(Ok::<_, Seq<char>>(stderr)),
        run.exit is Some,
        !run.timed_out,
    ensures
        ({
            let words = trimmed(lossy_text(stderr.bytes));
            let result = git_result(run);
            &&& stdout.truncated || stderr.truncated ==> result == Err::<Seq<Change>, _>(
                "git status output exceeded "@ + decimal(4_194_304) + " bytes"@,
            )
            &&& !stdout.truncated && !stderr.truncated && !run.exit->0.success && words.len() > 0
                ==> result == Err::<Seq<Change>, _>(words)
            &&& !stdout.truncated && !stderr.truncated && !run.exit->0.success && words.len() == 0
                ==> result == Err::<Seq<Change>, _>("git status exited with "@ + run.exit->0.text)
            &&& !stdout.truncated && !stderr.truncated && run.exit->0.success ==> result
                == porcelain_changes(stdout.bytes, run.cap)
        }),
{
}

/// A process that cannot be started, asked after, stopped or read ends the run
/// with a message.
pub proof fn law_trouble_ends_the_run(run: GitRunView, error: Seq<char>, now: u128)
    ensures
        run.phase is Spawn ==> git_advanced(run, GitEventView::NotStarted(error), now)
            == GitProgressView::Finished(
            Err::<Seq<Change>, _>("failed to run git status: "@ + error),
        ),
        run.phase is Spawn ==> git_advanced(run, GitEventView::NoStdout, now)
            == GitProgressView::Finished(
            Err::<Seq<Change>, _>("failed to capture git status output"@),
        ),
        run.phase is Spawn ==> git_advanced(run, GitEventView::NoStderr, now)
            == GitProgressView::Finished(
            Err::<Seq<Change>, _>("failed to capture git status errors"@),
        ),
        run.phase is Poll ==> ({
            let given_up = git_advanced(run, GitEventView::Polled(Err(error)), now);
            &&& given_up is Running
            &&& git_action(given_up->Running_0, now) is StopAndReap
            &&& git_advanced(given_up->Running_0, GitEventView::Stopped(Ok(())), now)
                == GitProgressView::Finished(
                Err::<Seq<Change>, _>("failed to wait for git status: "@ + error),
            )
        }),
        run.phase is StopLate ==> git_advanced(run, GitEventView::Stopped(Err(error)), now)
            == GitProgressView::Finished(
            Err::<Seq<Change>, _>("failed to stop timed-out git status: "@ + error),
        ),
        run.phase is Reap ==> git_advanced(run, GitEventView::Reaped(Err(error)), now)
            == GitProgressView::Finished(
            Err::<Seq<Change>, _>("failed to reap timed-out git status: "@ + error),
        ),
        run.phase is Read ==> git_advanced(run, GitEventView::Disconnected, now)
            == GitProgressView::Finished(
            Err::<Seq<Change>, _>("git status pipe readers disconnected"@),
        ),
        run.phase is StopHolders ==> git_advanced(run, GitEventView::Stopped(Err(error)), now)
            == GitProgressView::Finished(
            Err::<Seq<Change>, _>("failed to stop git status pipe holders: "@ + error),
        ),
{
}

/// Outputs that stay open once the process has ended: those who hold them are
/// stopped, and they are waited for a tenth of a second more.
pub proof fn law_open_outputs_are_waited_for(run: GitRunView, now: u128)
    requires
        run.phase is Read,
        now + 100_000_000 <= u128::MAX,
    ensures
        now < run.pipe_deadline ==> git_action(run, now) == GitAction::Receive(
            (run.pipe_deadline - now) as u128,
        ),
        now >= run.pipe_deadline ==> git_action(run, now) == GitAction::Receive(0),
        run.group_stopped ==> git_advanced(run, GitEventView::TimedOut, now)
            == GitProgressView::Finished(
            Err::<Seq<Change>, _>(
                "git status pipes remained open after process-group termination"@,
            ),
        ),
        !run.group_stopped ==> ({
            let stops = git_advanced(run, GitEventView::TimedOut, now)->Running_0;
            let reads = git_advanced(stops, GitEventView::Stopped(Ok(())), now)->Running_0;
            &&& git_action(stops, now) is Stop
            &&& reads.phase is Read
            &&& reads.group_stopped
            &&& reads.pipe_deadline == now + 100_000_000
            &&& reads.stdout == run.stdout
            &&& reads.stderr == run.stderr
        }),
{
}

/// An output that cannot be read is told, that of the changes first.
pub proof fn law_unreadable_output_is_told(run: GitRunView, error: Seq<char>)
    ensures
        run.stdout == Some(Err::<CaptureView, _>(error)) ==> git_result(run) == Err::<
            Seq<Change>,
            _,
        >("failed to read git status stdout: "@ + error),
        run.stderr == Some(Err::<CaptureView, _>(error)) && run.stdout is Some && run.stdout->0
            is Ok ==> git_result(run) == Err::<Seq<Change>, _>(
            "failed to read git status stderr: "@ + error,
        ),
{
}

} // verus!
