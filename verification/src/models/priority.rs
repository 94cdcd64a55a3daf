use vstd::prelude::*;
use super::color::Color;

verus! {

/// How pressing a task is, from most to least.
#[derive(Clone, Copy, Debug, PartialEq, Eq, Structural)]
pub enum Priority {
    Urgent,
    High,
    Medium,
    Low,
}

/// The rank of a priority: 0 for `Urgent` up to 3 for `Low`.
pub open spec fn priority_rank(p: Priority) -> int {
    match p {
        Priority::Urgent => 0,
        Priority::High => 1,
        Priority::Medium => 2,
        Priority::Low => 3,
    }
}

/// The priority of a given rank (taken modulo 4).
pub open spec fn priority_of_rank(r: int) -> Priority {
    let k = r % 4;
    if k == 0 {
        Priority::Urgent
    } else if k == 1 {
        Priority::High
    } else if k == 2 {
        Priority::Medium
    } else {
        Priority::Low
    }
}

/// The text shown for a priority.
pub open spec fn priority_label(p: Priority) -> Seq<char> {
    match p {
        Priority::Urgent => "URGENT"@,
        Priority::High => "HIGH"@,
        Priority::Medium => "MEDIUM"@,
        Priority::Low => "LOW"@,
    }
}

impl Priority {
    /// All priorities, most pressing first.
    pub fn all() -> (r: [Priority; 4])
        ensures
            r@ == seq![Priority::Urgent, Priority::High, Priority::Medium, Priority::Low],
    {
        [Priority::Urgent, Priority::High, Priority::Medium, Priority::Low]
    }

    /// The next less pressing priority, wrapping from `Low` to `Urgent`.
    pub fn next(&self) -> (r: Self)
        ensures
            r == priority_of_rank(priority_rank(*self) + 1),
    {
        match self {
            Self::Urgent => Self::High,
            Self::High => Self::Medium,
            Self::Medium => Self::Low,
            Self::Low => Self::Urgent,
        }
    }

    /// The next more pressing priority, wrapping from `Urgent` to `Low`.
    pub fn prev(&self) -> (r: Self)
        ensures
            r == priority_of_rank(priority_rank(*self) + 3),
    {
        match self {
            Self::Urgent => Self::Low,
            Self::High => Self::Urgent,
            Self::Medium => Self::High,
            Self::Low => Self::Medium,
        }
    }

    /// The color a priority is drawn in.
    pub fn color(&self) -> (r: Color)
        ensures
            r == (match *self {
                Priority::Urgent => Color::LightRed,
                Priority::High => Color::Red,
                Priority::Medium => Color::Yellow,
                Priority::Low => Color::DarkGray,
            }),
    {
        match self {
            Self::Urgent => Color::LightRed,
            Self::High => Color::Red,
            Self::Medium => Color::Yellow,
            Self::Low => Color::DarkGray,
        }
    }

    /// The full label.
    pub fn label(&self) -> (r: &'static str)
        ensures
            r@ == priority_label(*self),
    {
        match self {
            Self::Urgent => "URGENT",
            Self::High => "HIGH",
            Self::Medium => "MEDIUM",
            Self::Low => "LOW",
        }
    }

    /// The abbreviated label.
    pub fn short_label(&self) -> (r: &'static str)
        ensures
            r@ == (match *self {
                Priority::Urgent => "URG"@,
                Priority::High => "HIGH"@,
                Priority::Medium => "MED"@,
                Priority::Low => "LOW"@,
            }),
    {
        match self {
            Self::Urgent => "URG",
            Self::High => "HIGH",
            Self::Medium => "MED",
            Self::Low => "LOW",
        }
    }

    /// The priority a digit key selects: `1` is `Urgent` through `4` is `Low`.
    pub fn from_digit(d: char) -> (r: Option<Self>)
        ensures
            r == (if d == '1' {
                Some(Priority::Urgent)
            } else if d == '2' {
                Some(Priority::High)
            } else if d == '3' {
                Some(Priority::Medium)
            } else if d == '4' {
                Some(Priority::Low)
            } else {
                None
            }),
    {
        match d {
            '1' => Some(Self::Urgent),
            '2' => Some(Self::High),
            '3' => Some(Self::Medium),
            '4' => Some(Self::Low),
            _ => None,
        }
    }
}

/// Stepping back undoes stepping forward, and the other way round.
pub proof fn law_priority_prev_undoes_next(p: Priority)
    ensures
        priority_of_rank(priority_rank(priority_of_rank(priority_rank(p) + 1)) + 3) == p,
        priority_of_rank(priority_rank(priority_of_rank(priority_rank(p) + 3)) + 1) == p,
{
}

/// Four steps forward come back to the start.
pub proof fn law_priority_next_cycles(p: Priority)
    ensures
        priority_of_rank(priority_rank(p) + 4) == p,
{
}

} // verus!
