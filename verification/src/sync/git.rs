//! Reading what git reported: whether a pull, commit or push succeeded and,
//! when it did not, why (no network, a merge conflict, a rejected push, or
//! another failure with git's own message).
use vstd::prelude::*;
use crate::app::owned;
use crate::chars::{contains_chars, contains_seq, from_chars, lower_text, to_chars, to_lowercase, trim,
    trim_chars};

verus! {

/// Why a git operation failed.
#[derive(Debug)]
pub enum GitError {
    Offline,
    Conflict,
    RejectedNonFastForward,
    Failed(String),
}

/// A git failure as plain values.
pub enum GitErrorView {
    Offline,
    Conflict,
    RejectedNonFastForward,
    Failed(Seq<char>),
}

impl View for GitError {
    type V = GitErrorView;

    open spec fn view(&self) -> GitErrorView {
        match self {
            GitError::Offline => GitErrorView::Offline,
            GitError::Conflict => GitErrorView::Conflict,
            GitError::RejectedNonFastForward => GitErrorView::RejectedNonFastForward,
            GitError::Failed(m) => GitErrorView::Failed(m@),
        }
    }
}

/// The text shown for a failure.
pub open spec fn error_text(e: GitErrorView) -> Seq<char> {
    match e {
        GitErrorView::Offline => "network unreachable"@,
        GitErrorView::Conflict => "merge conflict"@,
        GitErrorView::RejectedNonFastForward => "remote has newer commits"@,
        GitErrorView::Failed(m) => m,
    }
}

impl GitError {
    /// The text shown for the failure.
    pub fn message(&self) -> (r: String)
        ensures
            r@ == error_text(self@),
    {
        match self {
            GitError::Offline => owned("network unreachable"),
            GitError::Conflict => owned("merge conflict"),
            GitError::RejectedNonFastForward => owned("remote has newer commits"),
            GitError::Failed(m) => m.clone(),
        }
    }
}

/// What a finished git command reported.
pub struct CommandOutput {
    /// The command exited with success.
    pub success: bool,
    /// Its standard output, as text.
    pub stdout: String,
    /// Its standard error, as text.
    pub stderr: String,
}

/// The outcome of an operation as plain values: `None` for success.
pub open spec fn outcome_view<T>(r: Result<T, GitError>) -> Option<GitErrorView> {
    match r {
        Ok(_) => None,
        Err(e) => Some(e@),
    }
}

/// Lowercased error text that shows the network or the remote could not be
/// reached.
pub open spec fn offline_text(s: Seq<char>) -> bool {
    ||| contains_seq(s, "could not resolve host"@)
    ||| contains_seq(s, "unable to access"@)
    ||| contains_seq(s, "connection timed out"@)
    ||| contains_seq(s, "network is unreachable"@)
    ||| contains_seq(s, "could not read from remote repository"@)
    ||| contains_seq(s, "no route to host"@)
}

/// Does `hay` contain `needle`?
fn has(hay: &Vec<char>, needle: &str) -> (b: bool)
    ensures
        b == contains_seq(hay@, needle@),
{
    let n = to_chars(needle);
    contains_chars(hay, &n)
}

/// Whether git's error output says the remote could not be reached
/// (compared in lowercase).
pub fn is_offline_stderr(stderr: &str) -> (b: bool)
    ensures
        b == offline_text(lower_text(stderr@)),
{
    let low = to_lowercase(stderr);
    let s = to_chars(low.as_str());
    has(&s, "could not resolve host") || has(&s, "unable to access") || has(&s, "connection timed out")
        || has(&s, "network is unreachable") || has(&s, "could not read from remote repository")
        || has(&s, "no route to host")
}

/// The failure carrying git's trimmed error output.
fn failed(stderr: &str) -> (e: GitError)
    ensures
        e@ == GitErrorView::Failed(trim(stderr@)),
{
    let c = to_chars(stderr);
    let t = trim_chars(&c);
    GitError::Failed(from_chars(t.as_slice()))
}

/// How `git pull --rebase` ended: success; no network; a conflict (git
/// printed "CONFLICT" or "could not apply"); or another failure.
pub open spec fn pull_outcome(success: bool, stderr: Seq<char>) -> Option<GitErrorView> {
    if success {
        None
    } else if offline_text(lower_text(stderr)) {
        Some(GitErrorView::Offline)
    } else if contains_seq(stderr, "CONFLICT"@) || contains_seq(stderr, "could not apply"@) {
        Some(GitErrorView::Conflict)
    } else {
        Some(GitErrorView::Failed(trim(stderr)))
    }
}

/// How `git commit` ended: success, also when there was nothing to commit;
/// otherwise a failure.
pub open spec fn commit_outcome(success: bool, stdout: Seq<char>, stderr: Seq<char>) -> Option<GitErrorView> {
    if success || contains_seq(stdout, "nothing to commit"@) || contains_seq(stderr, "nothing to commit"@) {
        None
    } else {
        Some(GitErrorView::Failed(trim(stderr)))
    }
}

/// How `git push` ended: success; no network; rejected because the remote
/// has newer commits; or another failure.
pub open spec fn push_outcome(success: bool, stderr: Seq<char>) -> Option<GitErrorView> {
    if success {
        None
    } else if offline_text(lower_text(stderr)) {
        Some(GitErrorView::Offline)
    } else if contains_seq(stderr, "[rejected]"@) || contains_seq(stderr, "non-fast-forward"@) || contains_seq(
        stderr,
        "fetch first"@,
    ) {
        Some(GitErrorView::RejectedNonFastForward)
    } else {
        Some(GitErrorView::Failed(trim(stderr)))
    }
}

/// Reads the output of `git pull --rebase --autostash <remote> <branch>`.
pub fn pull_rebase(out: &CommandOutput) -> (r: Result<(), GitError>)
    ensures
        outcome_view(r) == pull_outcome(out.success, out.stderr@),
{
    if out.success {
        return Ok(());
    }
    let stderr = out.stderr.as_str();
    if is_offline_stderr(stderr) {
        return Err(GitError::Offline);
    }
    let s = to_chars(stderr);
    if has(&s, "CONFLICT") || has(&s, "could not apply") {
        return Err(GitError::Conflict);
    }
    Err(failed(stderr))
}

/// Reads the output of `git commit` (after `git add` of the task file).
pub fn stage_and_commit(out: &CommandOutput) -> (r: Result<(), GitError>)
    ensures
        outcome_view(r) == commit_outcome(out.success, out.stdout@, out.stderr@),
{
    if out.success {
        return Ok(());
    }
    let so = to_chars(out.stdout.as_str());
    let se = to_chars(out.stderr.as_str());
    if has(&so, "nothing to commit") || has(&se, "nothing to commit") {
        return Ok(());
    }
    Err(failed(out.stderr.as_str()))
}

/// Reads the output of `git push <remote> <branch>`.
pub fn push(out: &CommandOutput) -> (r: Result<(), GitError>)
    ensures
        outcome_view(r) == push_outcome(out.success, out.stderr@),
{
    if out.success {
        return Ok(());
    }
    let stderr = out.stderr.as_str();
    if is_offline_stderr(stderr) {
        return Err(GitError::Offline);
    }
    let s = to_chars(stderr);
    if has(&s, "[rejected]") || has(&s, "non-fast-forward") || has(&s, "fetch first") {
        return Err(GitError::RejectedNonFastForward);
    }
    Err(failed(stderr))
}

/// git's "cannot reach the remote" messages, looked for in the lowercased
/// error text.
pub open spec fn names_unreachable_remote(low: Seq<char>) -> bool {
    ||| contains_seq(low, "could not resolve host"@)
    ||| contains_seq(low, "unable to access"@)
    ||| contains_seq(low, "connection timed out"@)
    ||| contains_seq(low, "network is unreachable"@)
    ||| contains_seq(low, "could not read from remote repository"@)
    ||| contains_seq(low, "no route to host"@)
}

/// A failed pull or push is reported as offline (and so retried later)
/// exactly when its error text, in any letter case, carries one of git's
/// messages for an unreachable network or remote: a host that cannot be
/// resolved, a remote that cannot be accessed or read from, a timed out
/// connection, an unreachable network, no route to the host. Such a message
/// wins over a conflict or a rejection in the same text.
pub proof fn law_unreachable_remote_is_offline(stderr: Seq<char>)
    ensures
        names_unreachable_remote(lower_text(stderr)) ==> pull_outcome(false, stderr) == Some(GitErrorView::Offline),
        names_unreachable_remote(lower_text(stderr)) ==> push_outcome(false, stderr) == Some(GitErrorView::Offline),
        pull_outcome(false, stderr) == Some(GitErrorView::Offline) ==> names_unreachable_remote(lower_text(stderr)),
        push_outcome(false, stderr) == Some(GitErrorView::Offline) ==> names_unreachable_remote(lower_text(stderr)),
{
}

/// What the readers make of git's output besides the offline case: a
/// success is no error; a failed pull that is not offline and shows
/// "CONFLICT" or "could not apply" is a conflict; a failed push that is not
/// offline and shows "[rejected]", "non-fast-forward" or "fetch first" is a
/// rejection; a commit with "nothing to commit" is no error; any other
/// failure carries git's error text, trimmed.
pub proof fn law_git_outcomes(stdout: Seq<char>, stderr: Seq<char>)
    ensures
        pull_outcome(true, stderr) is None,
        push_outcome(true, stderr) is None,
        commit_outcome(true, stdout, stderr) is None,
        !names_unreachable_remote(lower_text(stderr)) ==> pull_outcome(false, stderr) == (if contains_seq(
            stderr,
            "CONFLICT"@,
        ) || contains_seq(stderr, "could not apply"@) {
            Some(GitErrorView::Conflict)
        } else {
            Some(GitErrorView::Failed(trim(stderr)))
        }),
        !names_unreachable_remote(lower_text(stderr)) ==> push_outcome(false, stderr) == (if contains_seq(
            stderr,
            "[rejected]"@,
        ) || contains_seq(stderr, "non-fast-forward"@) || contains_seq(stderr, "fetch first"@) {
            Some(GitErrorView::RejectedNonFastForward)
        } else {
            Some(GitErrorView::Failed(trim(stderr)))
        }),
        commit_outcome(false, stdout, stderr) == (if contains_seq(stdout, "nothing to commit"@) || contains_seq(
            stderr,
            "nothing to commit"@,
        ) {
            None
        } else {
            Some(GitErrorView::Failed(trim(stderr)))
        }),
{
}

} // verus!
