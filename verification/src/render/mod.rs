//! Frames: their pixel buffers, codecs, device layout and the tiered cache.

pub mod cache;
pub mod codec;
pub mod gpu;
pub mod image;
pub mod resample;
pub mod token;
