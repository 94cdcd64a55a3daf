use vstd::prelude::*;

verus! {

/// The terminal colors the models ask for; the front end maps each to its
/// terminal palette entry of the same name.
#[derive(Clone, Copy, Debug, PartialEq, Eq, Structural)]
pub enum Color {
    LightRed,
    Red,
    Yellow,
    DarkGray,
    Cyan,
    Green,
}

} // verus!
