//! Small shared types.

use vstd::prelude::*;

pub mod error;

verus! {

/// Vertical anchoring of an element inside its container.
#[derive(Debug, Clone, Copy, PartialEq, Eq, Structural)]
pub enum PositionVertical {
    Top,
    Center,
    Bottom,
}

/// Horizontal anchoring of an element inside its container.
#[derive(Debug, Clone, Copy, PartialEq, Eq, Structural)]
pub enum PositionHorizontal {
    Left,
    Center,
    Right,
}

} // verus!
