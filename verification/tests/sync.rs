use hopes::sync::git::{is_offline_stderr, pull_rebase, push, stage_and_commit, CommandOutput, GitError};
use hopes::sync::{GitCommand, Stage, SyncRequest, SyncStatus, SyncWorker, WorkerEvent};

fn out(success: bool, stdout: &str, stderr: &str) -> CommandOutput {
    CommandOutput { success, stdout: stdout.to_string(), stderr: stderr.to_string() }
}

#[test]
fn offline_messages_are_recognised_in_any_case() {
    assert!(is_offline_stderr("fatal: Could not resolve host: github.com"));
    assert!(is_offline_stderr("ssh: connect to host x port 22: No route to host"));
    assert!(!is_offline_stderr("error: failed to push some refs"));
}

#[test]
fn pull_outcomes() {
    assert!(pull_rebase(&out(true, "", "anything")).is_ok());
    assert!(matches!(pull_rebase(&out(false, "", "fatal: unable to access 'x'")), Err(GitError::Offline)));
    assert!(matches!(pull_rebase(&out(false, "", "CONFLICT (content): items.json")), Err(GitError::Conflict)));
    assert!(matches!(pull_rebase(&out(false, "", "error: could not apply 1234")), Err(GitError::Conflict)));
    match pull_rebase(&out(false, "", "  fatal: bad revision \n")) {
        Err(GitError::Failed(m)) => assert_eq!(m, "fatal: bad revision"),
        _ => panic!("expected a failure"),
    }
}

#[test]
fn commit_outcomes() {
    assert!(stage_and_commit(&out(true, "", "")).is_ok());
    assert!(stage_and_commit(&out(false, "nothing to commit, working tree clean", "")).is_ok());
    assert!(stage_and_commit(&out(false, "", "nothing to commit")).is_ok());
    match stage_and_commit(&out(false, "", "fatal: not a git repository\n")) {
        Err(GitError::Failed(m)) => assert_eq!(m, "fatal: not a git repository"),
        _ => panic!("expected a failure"),
    }
}

#[test]
fn push_outcomes() {
    assert!(push(&out(true, "", "")).is_ok());
    assert!(matches!(push(&out(false, "", "Network is unreachable")), Err(GitError::Offline)));
    assert!(matches!(
        push(&out(false, "", " ! [rejected]        main -> main (fetch first)")),
        Err(GitError::RejectedNonFastForward)
    ));
    assert!(matches!(push(&out(false, "", "hint: non-fast-forward")), Err(GitError::RejectedNonFastForward)));
    assert!(matches!(push(&out(false, "", "denied")), Err(GitError::Failed(_))));
}

#[test]
fn error_messages() {
    assert_eq!(GitError::Offline.message(), "network unreachable");
    assert_eq!(GitError::Conflict.message(), "merge conflict");
    assert_eq!(GitError::RejectedNonFastForward.message(), "remote has newer commits");
    assert_eq!(GitError::Failed("boom".to_string()).message(), "boom");
}

#[test]
fn startup_pull_or_idle() {
    let (w, step) = SyncWorker::start(300, true);
    assert_eq!(w.stage, Stage::StartupPull);
    assert_eq!(step.statuses, vec![SyncStatus::Syncing("Pulling...".to_string())]);
    assert_eq!(step.command, Some(GitCommand::PullRebase));
    let (w, step) = SyncWorker::start(300, false);
    assert_eq!(w.stage, Stage::Waiting);
    assert_eq!(step.statuses, vec![SyncStatus::Idle]);
    assert_eq!(step.command, None);
}

#[test]
fn scheduled_pushes_are_debounced_into_one() {
    let (mut w, _) = SyncWorker::start(300, false);
    for t in [0u64, 50, 100, 150, 200] {
        let step = w.on_event(WorkerEvent::Request(SyncRequest::SchedulePush), t);
        assert_eq!(step.command, None);
        assert_eq!(step.statuses, vec![SyncStatus::Syncing("Pending sync...".to_string())]);
    }
    assert_eq!(w.on_event(WorkerEvent::Timeout, 450).command, None);
    let step = w.on_event(WorkerEvent::Timeout, 500);
    assert_eq!(step.command, Some(GitCommand::StageAndCommit));
    let step = w.on_git_result(Ok(()), 510);
    assert_eq!(step.command, Some(GitCommand::Push));
    let step = w.on_git_result(Ok(()), 520);
    assert_eq!(step.statuses, vec![SyncStatus::Synced]);
    assert_eq!(step.command, None);
    assert_eq!(w.stage, Stage::Waiting);
    assert_eq!(w.pending_since, None);
    assert_eq!(w.on_event(WorkerEvent::Timeout, 10_000).command, None);
}

#[test]
fn offline_push_is_retried_later() {
    let (mut w, _) = SyncWorker::start(100, false);
    w.on_event(WorkerEvent::Request(SyncRequest::ForceSync), 0);
    w.on_git_result(Ok(()), 1);
    let step = w.on_git_result(Err(GitError::Offline), 7);
    assert_eq!(step.statuses, vec![SyncStatus::Offline]);
    assert_eq!(w.pending_since, Some(7));
    assert_eq!(w.on_event(WorkerEvent::Timeout, 107).command, Some(GitCommand::StageAndCommit));
}

#[test]
fn rejected_push_pulls_then_pushes_again() {
    let (mut w, _) = SyncWorker::start(100, false);
    w.on_event(WorkerEvent::Request(SyncRequest::ForceSync), 0);
    w.on_git_result(Ok(()), 1);
    let step = w.on_git_result(Err(GitError::RejectedNonFastForward), 2);
    assert_eq!(step.command, Some(GitCommand::PullRebase));
    assert_eq!(step.statuses, vec![SyncStatus::Syncing("Pulling...".to_string())]);
    let step = w.on_git_result(Ok(()), 3);
    assert_eq!(step.command, Some(GitCommand::Push));
    assert!(step.statuses.is_empty());
    let step = w.on_git_result(Err(GitError::RejectedNonFastForward), 4);
    assert_eq!(step.statuses, vec![SyncStatus::Error("remote has newer commits".to_string())]);
    assert_eq!(w.stage, Stage::Waiting);
}

#[test]
fn conflicts_are_resolved_and_reported() {
    let (mut w, _) = SyncWorker::start(100, true);
    let step = w.on_git_result(Err(GitError::Conflict), 1);
    assert_eq!(step.command, Some(GitCommand::ResolveConflict));
    let step = w.on_resolved(Ok("/tmp/items.json.local-backup-1".to_string()), 2);
    assert_eq!(step.statuses, vec![SyncStatus::Conflict("/tmp/items.json.local-backup-1".to_string())]);
    assert_eq!(w.stage, Stage::Waiting);

    w.on_event(WorkerEvent::Request(SyncRequest::ForceSync), 3);
    w.on_git_result(Ok(()), 4);
    w.on_git_result(Err(GitError::RejectedNonFastForward), 5);
    let step = w.on_git_result(Err(GitError::Conflict), 6);
    assert_eq!(step.command, Some(GitCommand::ResolveConflict));
    let step = w.on_resolved(Err(GitError::Failed("reset failed".to_string())), 7);
    assert_eq!(step.statuses, vec![SyncStatus::Error("reset failed".to_string())]);
    assert_eq!(w.pending_since, None);
}

#[test]
fn startup_pull_reports_outcome() {
    let (mut w, _) = SyncWorker::start(100, true);
    let step = w.on_git_result(Ok(()), 1);
    assert_eq!(step.statuses, vec![SyncStatus::UpdatedRemoteData]);
    let (mut w, _) = SyncWorker::start(100, true);
    let step = w.on_git_result(Err(GitError::Offline), 1);
    assert_eq!(step.statuses, vec![SyncStatus::Offline]);
    let (mut w, _) = SyncWorker::start(100, true);
    let step = w.on_git_result(Err(GitError::Failed("x".to_string())), 1);
    assert_eq!(step.statuses, vec![SyncStatus::Error("x".to_string())]);
}

#[test]
fn commit_failure_ends_the_push() {
    let (mut w, _) = SyncWorker::start(100, false);
    w.on_event(WorkerEvent::Request(SyncRequest::ForceSync), 0);
    let step = w.on_git_result(Err(GitError::Failed("no".to_string())), 1);
    assert_eq!(step.statuses, vec![SyncStatus::Error("no".to_string())]);
    assert_eq!(step.command, None);
}

#[test]
fn shutdown_flushes_pending_push_then_stops() {
    let (mut w, _) = SyncWorker::start(1000, false);
    assert!(w.on_event(WorkerEvent::Request(SyncRequest::Shutdown), 0).stop);
    let (mut w, _) = SyncWorker::start(1000, false);
    w.on_event(WorkerEvent::Request(SyncRequest::SchedulePush), 0);
    let step = w.on_event(WorkerEvent::Request(SyncRequest::Shutdown), 1);
    assert!(!step.stop);
    assert_eq!(step.command, Some(GitCommand::StageAndCommit));
    w.on_git_result(Ok(()), 2);
    let step = w.on_git_result(Ok(()), 3);
    assert!(step.stop);
    assert!(w.on_event(WorkerEvent::Disconnected, 4).stop);
}
