//! What the library is told of the player's input.

use vstd::prelude::*;
use crate::geometry::Vec2;

verus! {

/// What the player did in one frame.
#[derive(Clone, Copy, Debug, PartialEq, Eq, Structural)]
pub struct InputSnapshot {
    /// Whether the reverse key went down in this frame.
    pub reverse_pressed: bool,
    /// Whether the pointer's main button went down in this frame.
    pub pointer_pressed: bool,
    /// Where the pointer is.
    pub pointer: Vec2,
}

} // verus!
