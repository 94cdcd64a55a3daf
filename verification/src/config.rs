//! Settings read at start-up: how the task file is synchronised through git.
use vstd::prelude::*;
use crate::app::owned;

verus! {

/// How the task file is kept in sync with a git remote.
#[derive(Clone, Debug)]
pub struct SyncConfig {
    /// Whether syncing runs at all.
    pub enabled: bool,
    /// How long to wait after the last change before committing and pushing.
    pub debounce_seconds: u64,
    /// The directory of the task file, when it is not the default one.
    pub data_dir: Option<String>,
    /// The remote to pull from and push to.
    pub remote: String,
    /// The branch to pull and push.
    pub branch: String,
    /// Whether to pull once when the application starts.
    pub pull_on_startup: bool,
}

impl Default for SyncConfig {
    /// Syncing on, a five second debounce, the default directory, `origin`
    /// and `main`, pulling at start-up.
    fn default() -> (r: Self)
        ensures
            r.enabled,
            r.debounce_seconds == 5,
            r.data_dir is None,
            r.remote@ == "origin"@,
            r.branch@ == "main"@,
            r.pull_on_startup,
    {
        SyncConfig {
            enabled: true,
            debounce_seconds: 5,
            data_dir: None,
            remote: owned("origin"),
            branch: owned("main"),
            pull_on_startup: true,
        }
    }
}

/// All settings.
#[derive(Clone, Debug)]
pub struct Config {
    pub sync: SyncConfig,
}

impl Default for Config {
    /// The default sync settings.
    fn default() -> (r: Self)
        ensures
            r.sync.enabled,
            r.sync.debounce_seconds == 5,
            r.sync.data_dir is None,
            r.sync.remote@ == "origin"@,
            r.sync.branch@ == "main"@,
            r.sync.pull_on_startup,
    {
        Config { sync: SyncConfig::default() }
    }
}

} // verus!
