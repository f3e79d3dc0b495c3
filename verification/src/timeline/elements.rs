//! What is placed on the timeline.

use vstd::prelude::*;
use crate::render::image::RawImage;
use crate::timeline::TimelineSpan;
use crate::util::error::LunarisError;

verus! {

/// An element placed on the timeline.
#[derive(Debug, Clone, Copy, PartialEq, Eq, Structural)]
pub struct TimelineElement {
    /// Track number of the element, or in other words, the Z-index.
    pub track_num: u64,
    pub position: TimelineSpan,
}

/// The outcome of rendering an element.
#[derive(Debug)]
pub struct Renderable {
    pub render_result: Result<RawImage, LunarisError>,
}

} // verus!
