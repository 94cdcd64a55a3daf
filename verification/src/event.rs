//! How often the terminal loop wakes up when no key is pressed.
use vstd::prelude::*;

verus! {

/// Waits for terminal input for at most one tick.
pub struct EventHandler {
    tick_rate_ms: u64,
}

impl EventHandler {
    /// A handler whose tick lasts `tick_rate_ms` milliseconds.
    pub fn new(tick_rate_ms: u64) -> (r: Self)
        ensures
            r.tick_rate() == tick_rate_ms,
    {
        EventHandler { tick_rate_ms }
    }

    /// The length of a tick, in milliseconds.
    pub closed spec fn tick_rate(&self) -> u64 {
        self.tick_rate_ms
    }

    /// The length of a tick, in milliseconds.
    pub fn tick_rate_ms(&self) -> (r: u64)
        ensures
            r == self.tick_rate(),
    {
        self.tick_rate_ms
    }
}

} // verus!
