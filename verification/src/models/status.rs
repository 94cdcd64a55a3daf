use vstd::prelude::*;
use super::color::Color;

verus! {

/// Where a task stands.
#[derive(Clone, Copy, Debug, PartialEq, Eq, Structural)]
pub enum Status {
    Todo,
    InProgress,
    Complete,
}

/// The position of a status on the board: 0 `Todo`, 1 `InProgress`, 2 `Complete`.
pub open spec fn status_rank(s: Status) -> int {
    match s {
        Status::Todo => 0,
        Status::InProgress => 1,
        Status::Complete => 2,
    }
}

/// The status of a board position (taken modulo 3).
pub open spec fn status_of_rank(r: int) -> Status {
    let k = r % 3;
    if k == 0 {
        Status::Todo
    } else if k == 1 {
        Status::InProgress
    } else {
        Status::Complete
    }
}

/// The text shown for a status.
pub open spec fn status_label(s: Status) -> Seq<char> {
    match s {
        Status::Todo => "TODO"@,
        Status::InProgress => "IN PROGRESS"@,
        Status::Complete => "DONE"@,
    }
}

impl Status {
    /// All statuses in board order.
    pub fn all() -> (r: [Status; 3])
        ensures
            r@ == seq![Status::Todo, Status::InProgress, Status::Complete],
    {
        [Status::Todo, Status::InProgress, Status::Complete]
    }

    /// The next status, wrapping from `Complete` to `Todo`.
    pub fn next(&self) -> (r: Self)
        ensures
            r == status_of_rank(status_rank(*self) + 1),
    {
        match self {
            Self::Todo => Self::InProgress,
            Self::InProgress => Self::Complete,
            Self::Complete => Self::Todo,
        }
    }

    /// The previous status, wrapping from `Todo` to `Complete`.
    pub fn prev(&self) -> (r: Self)
        ensures
            r == status_of_rank(status_rank(*self) + 2),
    {
        match self {
            Self::Todo => Self::Complete,
            Self::InProgress => Self::Todo,
            Self::Complete => Self::InProgress,
        }
    }

    /// The checkbox badge of a status and its color.
    pub fn badge(&self) -> (r: (&'static str, Color))
        ensures
            r.0@ == (match *self {
                Status::Todo => "[ ]"@,
                Status::InProgress => "[-]"@,
                Status::Complete => "[x]"@,
            }),
            r.1 == (match *self {
                Status::Todo => Color::DarkGray,
                Status::InProgress => Color::Cyan,
                Status::Complete => Color::Green,
            }),
    {
        match self {
            Self::Todo => ("[ ]", Color::DarkGray),
            Self::InProgress => ("[-]", Color::Cyan),
            Self::Complete => ("[x]", Color::Green),
        }
    }

    /// The full label.
    pub fn label(&self) -> (r: &'static str)
        ensures
            r@ == status_label(*self),
    {
        match self {
            Self::Todo => "TODO",
            Self::InProgress => "IN PROGRESS",
            Self::Complete => "DONE",
        }
    }

    /// The abbreviated label.
    pub fn short_label(&self) -> (r: &'static str)
        ensures
            r@ == (match *self {
                Status::Todo => "TODO"@,
                Status::InProgress => "WIP"@,
                Status::Complete => "DONE"@,
            }),
    {
        match self {
            Self::Todo => "TODO",
            Self::InProgress => "WIP",
            Self::Complete => "DONE",
        }
    }
}

/// Stepping back undoes stepping forward, and the other way round.
pub proof fn law_status_prev_undoes_next(s: Status)
    ensures
        status_of_rank(status_rank(status_of_rank(status_rank(s) + 1)) + 2) == s,
        status_of_rank(status_rank(status_of_rank(status_rank(s) + 2)) + 1) == s,
{
}

/// Three steps forward come back to the start: toggling a task three times
/// leaves its status as it was.
pub proof fn law_status_next_cycles(s: Status)
    ensures
        status_of_rank(status_rank(status_of_rank(status_rank(status_of_rank(status_rank(s) + 1))
            + 1)) + 1) == s,
{
}

} // verus!
