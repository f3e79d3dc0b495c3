//! Rendered-frame cache of a compositing engine: pixel buffers, their codecs,
//! the layout of device readbacks and the three-tier cache that moves frames
//! between compressed memory, raw memory and device textures.

pub mod plugin;
pub mod render;
pub mod request;
pub mod timeline;
pub mod util;
