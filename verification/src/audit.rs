//! The session's audit trail: the most recent actions, newest first, with
//! the time each was taken. At most `MAX_ENTRIES` are kept; it is held in
//! memory only.
use vstd::prelude::*;
use std::collections::VecDeque;
use chrono::Local;

verus! {

/// An instant, as seconds and nanoseconds since the Unix epoch; shown in
/// the local time zone.
#[derive(Clone, Copy, Debug, PartialEq, Eq, Structural)]
pub struct LocalTime {
    pub secs: i64,
    pub nanos: u32,
}

/// `chrono::Local::now`: the current time, taken apart into seconds and
/// nanoseconds since the epoch. Nothing is claimed about the value.
#[verifier::external_body]
fn local_now() -> LocalTime {
    let now = Local::now();
    LocalTime { secs: now.timestamp(), nanos: now.timestamp_subsec_nanos() }
}

/// How many entries the trail keeps.
pub const MAX_ENTRIES: usize = 50;

/// One action of the trail.
#[derive(Clone, Debug)]
pub struct AuditEvent {
    pub timestamp: LocalTime,
    pub message: String,
}

/// The trail, newest first.
pub struct AuditLog {
    entries: VecDeque<AuditEvent>,
}

/// The messages of a list of events, in order.
pub open spec fn messages(v: Seq<AuditEvent>) -> Seq<Seq<char>> {
    v.map_values(|e: AuditEvent| e.message@)
}

/// The messages of the newest `n` entries after logging `m`: `m` first,
/// then the entries before it, cut to `MAX_ENTRIES` in all.
pub open spec fn logged(before: Seq<Seq<char>>, m: Seq<char>) -> Seq<Seq<char>> {
    let kept = if before.len() >= MAX_ENTRIES {
        before.take(MAX_ENTRIES - 1)
    } else {
        before
    };
    seq![m] + kept
}

impl View for AuditLog {
    type V = Seq<Seq<char>>;

    /// The messages of the trail, newest first.
    closed spec fn view(&self) -> Seq<Seq<char>> {
        messages(self.entries@)
    }
}

impl AuditLog {
    /// The trail never holds more than `MAX_ENTRIES` entries.
    #[verifier::type_invariant]
    closed spec fn bounded(self) -> bool {
        self.entries@.len() <= MAX_ENTRIES
    }

    /// An empty trail.
    pub fn new() -> (r: Self)
        ensures
            r@ == Seq::<Seq<char>>::empty(),
    {
        let r = AuditLog { entries: VecDeque::new() };
        assert(messages(r.entries@) =~= Seq::<Seq<char>>::empty());
        r
    }

    /// The number of entries kept.
    pub fn len(&self) -> (r: usize)
        ensures
            r == self@.len(),
            r <= MAX_ENTRIES,
    {
        proof {
            use_type_invariant(self);
        }
        self.entries.len()
    }

    /// Logs `message` with the current time, dropping the oldest entry when
    /// the trail is full.
    pub fn push(&mut self, message: String)
        ensures
            final(self)@ == logged(old(self)@, message@),
            final(self)@.len() <= MAX_ENTRIES,
    {
        proof {
            use_type_invariant(&*self);
        }
        let ghost before = self.entries@;
        let mut entries = VecDeque::new();
        std::mem::swap(&mut entries, &mut self.entries);
        if entries.len() >= MAX_ENTRIES {
            entries.pop_back();
        }
        let ghost kept = entries@;
        entries.push_front(AuditEvent { timestamp: local_now(), message });
        proof {
            if before.len() >= MAX_ENTRIES {
                assert(kept == before.drop_last());
                assert(messages(kept) =~= messages(before).take(MAX_ENTRIES - 1));
            }
            assert(messages(entries@) =~= logged(messages(before), message@));
        }
        self.entries = entries;
    }

    /// The newest `n` entries (all of them when there are fewer), newest
    /// first.
    pub fn recent(&self, n: usize) -> (r: Vec<&AuditEvent>)
        ensures
            r@.len() == if n < self@.len() {
                n as int
            } else {
                self@.len() as int
            },
            forall|i: int| 0 <= i < r@.len() ==> (#[trigger] r@[i]).message@ == self@[i],
    {
        let mut r: Vec<&AuditEvent> = Vec::new();
        let mut i: usize = 0;
        while i < n && i < self.entries.len()
            invariant
                i <= n,
                i <= self.entries@.len(),
                r@.len() == i,
                forall|k: int| 0 <= k < i ==> (#[trigger] r@[k]).message@ == messages(self.entries@)[k],
            decreases self.entries@.len() - i,
        {
            r.push(&self.entries[i]);
            i = i + 1;
        }
        r
    }
}

impl Default for AuditLog {
    /// An empty trail.
    fn default() -> (r: Self)
        ensures
            r@ == Seq::<Seq<char>>::empty(),
    {
        AuditLog::new()
    }
}

} // verus!
