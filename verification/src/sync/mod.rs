//! Keeping the task file in sync with a git remote.
//!
//! A worker waits for requests. A scheduled push is debounced: it waits
//! until no request has come for the debounce time, so a burst of edits
//! becomes one commit. A push commits the task file and pushes it; when the
//! remote has newer commits it pulls them first and pushes again; a merge
//! conflict keeps the remote's version and backs up the local one. A push
//! that failed for want of network is retried after the next debounce. The
//! worker itself decides; its host runs the git commands it asks for and
//! reports their outcome.
pub mod git;

use vstd::prelude::*;
use crate::app::owned;
use self::git::{GitError, GitErrorView, error_text, outcome_view};

verus! {

/// What the application asks of the worker.
#[derive(Clone, Copy, Debug, PartialEq, Eq, Structural)]
pub enum SyncRequest {
    /// The task file changed: push it once edits have settled.
    SchedulePush,
    /// Push now.
    ForceSync,
    /// The application is closing: push what is pending, then stop.
    Shutdown,
}

/// What the worker reports to the application.
#[derive(Clone, Debug, PartialEq, Eq)]
pub enum SyncStatus {
    Disabled,
    Idle,
    Syncing(String),
    Synced,
    UpdatedRemoteData,
    Offline,
    Conflict(String),
    Error(String),
}

/// A report as plain values.
pub enum StatusView {
    Disabled,
    Idle,
    Syncing(Seq<char>),
    Synced,
    UpdatedRemoteData,
    Offline,
    Conflict(Seq<char>),
    Error(Seq<char>),
}

impl View for SyncStatus {
    type V = StatusView;

    open spec fn view(&self) -> StatusView {
        match self {
            SyncStatus::Disabled => StatusView::Disabled,
            SyncStatus::Idle => StatusView::Idle,
            SyncStatus::Syncing(s) => StatusView::Syncing(s@),
            SyncStatus::Synced => StatusView::Synced,
            SyncStatus::UpdatedRemoteData => StatusView::UpdatedRemoteData,
            SyncStatus::Offline => StatusView::Offline,
            SyncStatus::Conflict(s) => StatusView::Conflict(s@),
            SyncStatus::Error(s) => StatusView::Error(s@),
        }
    }
}

/// A git operation the worker asks its host to run.
#[derive(Clone, Copy, Debug, PartialEq, Eq, Structural)]
pub enum GitCommand {
    /// `git pull --rebase --autostash`.
    PullRebase,
    /// `git add` of the task file, then `git commit`.
    StageAndCommit,
    /// `git push`.
    Push,
    /// Abort the rebase, back up the local task file and reset to the
    /// remote branch; reports the backup's path.
    ResolveConflict,
}

/// Where the worker stands.
#[derive(Clone, Copy, Debug, PartialEq, Eq, Structural)]
pub enum Stage {
    /// Waiting for requests.
    Waiting,
    /// Pulling once at start-up.
    StartupPull,
    /// Committing the task file, the first step of a push.
    Committing,
    /// Pushing; `retried` once the remote's newer commits were pulled.
    Pushing { retried: bool },
    /// Pulling the remote's newer commits after a rejected push.
    PullingForPush,
    /// Resolving a merge conflict met while pulling (`in_push`: during a push).
    Resolving { in_push: bool },
}

/// What the worker received while waiting.
#[derive(Clone, Copy, Debug, PartialEq, Eq, Structural)]
pub enum WorkerEvent {
    Request(SyncRequest),
    /// No request came within the polling interval.
    Timeout,
    /// The application is gone.
    Disconnected,
}

/// The worker's state. Times are milliseconds on a monotonic clock.
#[derive(Clone, Copy, Debug)]
pub struct SyncWorker {
    /// How long edits must settle before a scheduled push runs.
    pub debounce_ms: u64,
    /// When the pending push was last scheduled or last failed for want of
    /// network; `None` when nothing is pending.
    pub pending_since: Option<u64>,
    pub stage: Stage,
    /// The worker stops once the push in progress ends.
    pub stopping: bool,
}

/// What the host does after a transition: publish `statuses` in order, then
/// run `command` and report its outcome, or stop.
pub struct Step {
    pub statuses: Vec<SyncStatus>,
    pub command: Option<GitCommand>,
    pub stop: bool,
}

/// A step as plain values.
pub struct StepView {
    pub statuses: Seq<StatusView>,
    pub command: Option<GitCommand>,
    pub stop: bool,
}

impl View for Step {
    type V = StepView;

    open spec fn view(&self) -> StepView {
        StepView {
            statuses: self.statuses@.map_values(|s: SyncStatus| s@),
            command: self.command,
            stop: self.stop,
        }
    }
}

/// A step that publishes `statuses` and runs `command`.
pub open spec fn step(statuses: Seq<StatusView>, command: Option<GitCommand>, stop: bool) -> StepView {
    StepView { statuses, command, stop }
}

/// The time since `start`, or 0 for a time before it.
pub open spec fn elapsed(start: u64, now: u64) -> int {
    if now >= start {
        now - start
    } else {
        0
    }
}

/// A new worker and its first step: a pull when asked to pull at start-up,
/// else the idle report.
pub open spec fn start_spec(debounce_ms: u64, pull_on_startup: bool) -> (SyncWorker, StepView) {
    if pull_on_startup {
        (
            SyncWorker { debounce_ms, pending_since: None, stage: Stage::StartupPull, stopping: false },
            step(seq![StatusView::Syncing("Pulling..."@)], Some(GitCommand::PullRebase), false),
        )
    } else {
        (
            SyncWorker { debounce_ms, pending_since: None, stage: Stage::Waiting, stopping: false },
            step(seq![StatusView::Idle], None, false),
        )
    }
}

/// A push begins by committing.
pub open spec fn push_begun(w: SyncWorker) -> (SyncWorker, StepView) {
    (
        SyncWorker { stage: Stage::Committing, ..w },
        step(seq![StatusView::Syncing("Committing..."@)], Some(GitCommand::StageAndCommit), false),
    )
}

/// A push ends: back to waiting, with the push pending again (from `now`)
/// when it is to be retried; the worker stops if a shutdown was waiting.
pub open spec fn push_finished(w: SyncWorker, retry: bool, now: u64, statuses: Seq<StatusView>) -> (SyncWorker, StepView) {
    (
        SyncWorker {
            pending_since: if retry {
                Some(now)
            } else {
                None
            },
            stage: Stage::Waiting,
            ..w
        },
        step(statuses, None, w.stopping),
    )
}

/// The start-up pull ends.
pub open spec fn pull_finished(w: SyncWorker, statuses: Seq<StatusView>) -> (SyncWorker, StepView) {
    (SyncWorker { stage: Stage::Waiting, ..w }, step(statuses, None, false))
}

/// What a waiting worker does with an event at time `now`.
pub open spec fn event_step(w: SyncWorker, ev: WorkerEvent, now: u64) -> (SyncWorker, StepView) {
    match ev {
        WorkerEvent::Request(SyncRequest::SchedulePush) => (
            SyncWorker { pending_since: Some(now), ..w },
            step(seq![StatusView::Syncing("Pending sync..."@)], None, false),
        ),
        WorkerEvent::Request(SyncRequest::ForceSync) => push_begun(w),
        WorkerEvent::Request(SyncRequest::Shutdown) => if w.pending_since is Some {
            push_begun(SyncWorker { stopping: true, ..w })
        } else {
            (w, step(Seq::empty(), None, true))
        },
        WorkerEvent::Timeout => match w.pending_since {
            Some(s) => if elapsed(s, now) >= w.debounce_ms {
                push_begun(w)
            } else {
                (w, step(Seq::empty(), None, false))
            },
            None => (w, step(Seq::empty(), None, false)),
        },
        WorkerEvent::Disconnected => (w, step(Seq::empty(), None, true)),
    }
}

/// The error report for a failure.
pub open spec fn error_report(e: GitErrorView) -> Seq<StatusView> {
    seq![StatusView::Error(error_text(e))]
}

/// What the worker does when the pull, commit or push it asked for ended
/// with `r` (`None` for success) at time `now`.
pub open spec fn git_step(w: SyncWorker, r: Option<GitErrorView>, now: u64) -> (SyncWorker, StepView) {
    match w.stage {
        Stage::StartupPull => match r {
            None => pull_finished(w, seq![StatusView::UpdatedRemoteData]),
            Some(GitErrorView::Offline) => pull_finished(w, seq![StatusView::Offline]),
            Some(GitErrorView::Conflict) => (
                SyncWorker { stage: Stage::Resolving { in_push: false }, ..w },
                step(Seq::empty(), Some(GitCommand::ResolveConflict), false),
            ),
            Some(e) => pull_finished(w, error_report(e)),
        },
        Stage::Committing => match r {
            None => (
                SyncWorker { stage: Stage::Pushing { retried: false }, ..w },
                step(seq![StatusView::Syncing("Pushing..."@)], Some(GitCommand::Push), false),
            ),
            Some(e) => push_finished(w, false, now, error_report(e)),
        },
        Stage::Pushing { retried } => match r {
            None => push_finished(w, false, now, seq![StatusView::Synced]),
            Some(GitErrorView::Offline) => push_finished(w, true, now, seq![StatusView::Offline]),
            Some(GitErrorView::RejectedNonFastForward) => if retried {
                push_finished(w, false, now, error_report(GitErrorView::RejectedNonFastForward))
            } else {
                (
                    SyncWorker { stage: Stage::PullingForPush, ..w },
                    step(seq![StatusView::Syncing("Pulling..."@)], Some(GitCommand::PullRebase), false),
                )
            },
            Some(e) => push_finished(w, false, now, error_report(e)),
        },
        Stage::PullingForPush => match r {
            None => (
                SyncWorker { stage: Stage::Pushing { retried: true }, ..w },
                step(Seq::empty(), Some(GitCommand::Push), false),
            ),
            Some(GitErrorView::Conflict) => (
                SyncWorker { stage: Stage::Resolving { in_push: true }, ..w },
                step(Seq::empty(), Some(GitCommand::ResolveConflict), false),
            ),
            Some(GitErrorView::Offline) => push_finished(w, true, now, seq![StatusView::Offline]),
            Some(e) => push_finished(w, false, now, error_report(e)),
        },
        _ => (w, step(Seq::empty(), None, false)),
    }
}

/// What the worker does when the conflict resolution ended: it reports the
/// backup's path, or the failure; a push it interrupted is not retried.
pub open spec fn resolved_step(w: SyncWorker, backup: Option<Seq<char>>, e: Option<GitErrorView>, now: u64) -> (SyncWorker, StepView) {
    let statuses = match backup {
        Some(p) => seq![StatusView::Conflict(p)],
        None => error_report(e->0),
    };
    match w.stage {
        Stage::Resolving { in_push } => if in_push {
            push_finished(w, false, now, statuses)
        } else {
            pull_finished(w, statuses)
        },
        _ => (w, step(Seq::empty(), None, false)),
    }
}

/// How many more git commands a sync can take from this stage.
pub open spec fn steps_left(s: Stage) -> nat {
    match s {
        Stage::Waiting => 0,
        Stage::StartupPull => 2,
        Stage::Committing => 4,
        Stage::Pushing { retried } => if retried {
            1
        } else {
            3
        },
        Stage::PullingForPush => 2,
        Stage::Resolving { .. } => 1,
    }
}

/// A single status report.
fn report(s: SyncStatus) -> (r: Vec<SyncStatus>)
    ensures
        r@.map_values(|x: SyncStatus| x@) == seq![s@],
{
    let mut v: Vec<SyncStatus> = Vec::new();
    v.push(s);
    assert(v@.map_values(|x: SyncStatus| x@) =~= seq![s@]);
    v
}

/// No status report.
fn no_report() -> (r: Vec<SyncStatus>)
    ensures
        r@.map_values(|x: SyncStatus| x@) == Seq::<StatusView>::empty(),
{
    let v: Vec<SyncStatus> = Vec::new();
    assert(v@.map_values(|x: SyncStatus| x@) =~= Seq::<StatusView>::empty());
    v
}

impl SyncWorker {
    /// A new worker and its first step.
    pub fn start(debounce_ms: u64, pull_on_startup: bool) -> (r: (SyncWorker, Step))
        ensures
            (r.0, r.1@) == start_spec(debounce_ms, pull_on_startup),
    {
        if pull_on_startup {
            (
                SyncWorker { debounce_ms, pending_since: None, stage: Stage::StartupPull, stopping: false },
                Step {
                    statuses: report(SyncStatus::Syncing(owned("Pulling..."))),
                    command: Some(GitCommand::PullRebase),
                    stop: false,
                },
            )
        } else {
            (
                SyncWorker { debounce_ms, pending_since: None, stage: Stage::Waiting, stopping: false },
                Step { statuses: report(SyncStatus::Idle), command: None, stop: false },
            )
        }
    }

    /// Begins a push.
    fn begin_push(&mut self) -> (r: Step)
        ensures
            (*final(self), r@) == push_begun(*old(self)),
    {
        self.stage = Stage::Committing;
        Step {
            statuses: report(SyncStatus::Syncing(owned("Committing..."))),
            command: Some(GitCommand::StageAndCommit),
            stop: false,
        }
    }

    /// Ends a push.
    fn finish_push(&mut self, retry: bool, now_ms: u64, statuses: Vec<SyncStatus>) -> (r: Step)
        ensures
            (*final(self), r@) == push_finished(
                *old(self),
                retry,
                now_ms,
                statuses@.map_values(|x: SyncStatus| x@),
            ),
    {
        self.pending_since = if retry {
            Some(now_ms)
        } else {
            None
        };
        self.stage = Stage::Waiting;
        Step { statuses, command: None, stop: self.stopping }
    }

    /// Ends the start-up pull.
    fn finish_pull(&mut self, statuses: Vec<SyncStatus>) -> (r: Step)
        ensures
            (*final(self), r@) == pull_finished(*old(self), statuses@.map_values(|x: SyncStatus| x@)),
    {
        self.stage = Stage::Waiting;
        Step { statuses, command: None, stop: false }
    }

    /// Handles an event while waiting (see `event_step`).
    pub fn on_event(&mut self, ev: WorkerEvent, now_ms: u64) -> (r: Step)
        requires
            old(self).stage == Stage::Waiting,
        ensures
            (*final(self), r@) == event_step(*old(self), ev, now_ms),
    {
        match ev {
            WorkerEvent::Request(SyncRequest::SchedulePush) => {
                self.pending_since = Some(now_ms);
                Step { statuses: report(SyncStatus::Syncing(owned("Pending sync..."))), command: None, stop: false }
            },
            WorkerEvent::Request(SyncRequest::ForceSync) => self.begin_push(),
            WorkerEvent::Request(SyncRequest::Shutdown) => {
                if self.pending_since.is_some() {
                    self.stopping = true;
                    self.begin_push()
                } else {
                    Step { statuses: no_report(), command: None, stop: true }
                }
            },
            WorkerEvent::Timeout => {
                match self.pending_since {
                    Some(started) => {
                        let waited = if now_ms >= started {
                            now_ms - started
                        } else {
                            0
                        };
                        if waited >= self.debounce_ms {
                            self.begin_push()
                        } else {
                            Step { statuses: no_report(), command: None, stop: false }
                        }
                    },
                    None => Step { statuses: no_report(), command: None, stop: false },
                }
            },
            WorkerEvent::Disconnected => Step { statuses: no_report(), command: None, stop: true },
        }
    }

    /// Handles the outcome of the pull, commit or push it asked for (see
    /// `git_step`).
    pub fn on_git_result(&mut self, result: Result<(), GitError>, now_ms: u64) -> (r: Step)
        requires
            old(self).stage != Stage::Waiting,
            !(old(self).stage is Resolving),
        ensures
            (*final(self), r@) == git_step(*old(self), outcome_view(result), now_ms),
    {
        match self.stage {
            Stage::StartupPull => match result {
                Ok(()) => self.finish_pull(report(SyncStatus::UpdatedRemoteData)),
                Err(GitError::Offline) => self.finish_pull(report(SyncStatus::Offline)),
                Err(GitError::Conflict) => {
                    self.stage = Stage::Resolving { in_push: false };
                    Step { statuses: no_report(), command: Some(GitCommand::ResolveConflict), stop: false }
                },
                Err(e) => self.finish_pull(report(SyncStatus::Error(e.message()))),
            },
            Stage::Committing => match result {
                Ok(()) => {
                    self.stage = Stage::Pushing { retried: false };
                    Step {
                        statuses: report(SyncStatus::Syncing(owned("Pushing..."))),
                        command: Some(GitCommand::Push),
                        stop: false,
                    }
                },
                Err(e) => self.finish_push(false, now_ms, report(SyncStatus::Error(e.message()))),
            },
            Stage::Pushing { retried } => match result {
                Ok(()) => self.finish_push(false, now_ms, report(SyncStatus::Synced)),
                Err(GitError::Offline) => self.finish_push(true, now_ms, report(SyncStatus::Offline)),
                Err(GitError::RejectedNonFastForward) => {
                    if retried {
                        let e = GitError::RejectedNonFastForward;
                        self.finish_push(false, now_ms, report(SyncStatus::Error(e.message())))
                    } else {
                        self.stage = Stage::PullingForPush;
                        Step {
                            statuses: report(SyncStatus::Syncing(owned("Pulling..."))),
                            command: Some(GitCommand::PullRebase),
                            stop: false,
                        }
                    }
                },
                Err(e) => self.finish_push(false, now_ms, report(SyncStatus::Error(e.message()))),
            },
            Stage::PullingForPush => match result {
                Ok(()) => {
                    self.stage = Stage::Pushing { retried: true };
                    Step { statuses: no_report(), command: Some(GitCommand::Push), stop: false }
                },
                Err(GitError::Conflict) => {
                    self.stage = Stage::Resolving { in_push: true };
                    Step { statuses: no_report(), command: Some(GitCommand::ResolveConflict), stop: false }
                },
                Err(GitError::Offline) => self.finish_push(true, now_ms, report(SyncStatus::Offline)),
                Err(e) => self.finish_push(false, now_ms, report(SyncStatus::Error(e.message()))),
            },
            _ => Step { statuses: no_report(), command: None, stop: false },
        }
    }

    /// Handles the outcome of a conflict resolution: the backup's path, or
    /// the failure (see `resolved_step`).
    pub fn on_resolved(&mut self, result: Result<String, GitError>, now_ms: u64) -> (r: Step)
        requires
            old(self).stage is Resolving,
        ensures
            (*final(self), r@) == resolved_step(
                *old(self),
                match result {
                    Ok(p) => Some(p@),
                    Err(_) => None,
                },
                outcome_view(result),
                now_ms,
            ),
    {
        let statuses = match result {
            Ok(p) => report(SyncStatus::Conflict(p)),
            Err(e) => report(SyncStatus::Error(e.message())),
        };
        match self.stage {
            Stage::Resolving { in_push } => if in_push {
                self.finish_push(false, now_ms, statuses)
            } else {
                self.finish_pull(statuses)
            },
            _ => Step { statuses: no_report(), command: None, stop: false },
        }
    }
}

/// Every sync ends: each git outcome moves the worker strictly closer to
/// waiting, and it asks for another command exactly when it is not back to
/// waiting. So a sync runs at most four git commands.
pub proof fn law_sync_always_ends(w: SyncWorker, r: Option<GitErrorView>, backup: Option<Seq<char>>, now: u64)
    requires
        w.stage != Stage::Waiting,
    ensures
        !(w.stage is Resolving) ==> steps_left(git_step(w, r, now).0.stage) < steps_left(w.stage),
        !(w.stage is Resolving) ==> (git_step(w, r, now).1.command is Some <==> git_step(w, r, now).0.stage
            != Stage::Waiting),
        w.stage is Resolving ==> resolved_step(w, backup, r, now).0.stage == Stage::Waiting
            && resolved_step(w, backup, r, now).1.command is None,
        steps_left(w.stage) <= 4,
{
}

/// Scheduling a push never runs git: it only restarts the debounce clock.
/// A waiting worker runs a scheduled push only once the debounce time has
/// passed since the last request, so a burst of edits yields one commit.
pub proof fn law_schedule_debounces(w: SyncWorker, now: u64, later: u64)
    requires
        w.stage == Stage::Waiting,
    ensures
        event_step(w, WorkerEvent::Request(SyncRequest::SchedulePush), now).1.command is None,
        event_step(w, WorkerEvent::Request(SyncRequest::SchedulePush), now).0.pending_since == Some(now),
        ({
            let w2 = event_step(w, WorkerEvent::Request(SyncRequest::SchedulePush), now).0;
            event_step(w2, WorkerEvent::Timeout, later).1.command is Some <==> elapsed(now, later) >= w.debounce_ms
        }),
{
}

} // verus!
