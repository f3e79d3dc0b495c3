//! Positions on the timeline.

use vstd::prelude::*;

pub mod elements;

verus! {

/// A stretch of the timeline, in ticks.
#[derive(Debug, Clone, Copy, PartialEq, Eq, Structural)]
pub struct TimelineSpan {
    pub start: u64,
    pub end: u64,
}

/// Where playback stands, in ticks.
#[derive(Debug, Clone, Copy, PartialEq, Eq, Structural)]
pub struct Playhead {
    pub current: u64,
}

} // verus!
