//! Colour names for entities and log lines.

use vstd::prelude::*;

verus! {

/// The named colours that entities and messages are shown in.
#[derive(Clone, Copy, Debug, PartialEq, Eq, Structural)]
pub enum Color {
    White,
    Red,
    DarkRed,
    Orange,
    Yellow,
    Green,
    Violet,
    LightYellow,
    LightBlue,
    LightCyan,
    LightGreen,
    LightViolet,
    DesaturatedGreen,
    DarkerGreen,
}

} // verus!
