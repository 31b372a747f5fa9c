//! Frame composition for video rendering: layers of solid colour or raw
//! RGBA pixels, placed by a transform and combined by a blend mode into one
//! output frame.

pub mod blend;
pub mod compositor;
pub mod descriptor;
pub mod effects;
pub mod frame;
pub mod layer;
pub mod raster;
pub mod transform;
pub mod types;

pub use blend::BlendMode;
pub use compositor::Compositor;
pub use descriptor::LayerDescriptor;
pub use effects::ColorAdjustment;
pub use frame::Frame;
pub use layer::{Layer, LayerContent};
pub use raster::Raster;
pub use transform::Transform;
pub use types::{Color, Point, Rect, Size};

use vstd::prelude::*;

verus! {

/// Why an operation of the library failed.
#[derive(Debug, Clone)]
pub enum Error {
    /// An image could not be decoded or encoded; the codec's message.
    Image(String),
    /// A file could not be read or written; names the file or gives the reason.
    Io(String),
    /// A compositor was asked for a zero width or height.
    InvalidDimensions(u32, u32),
    /// A layer's content is malformed.
    InvalidLayer(String),
    /// An effect could not be applied.
    Effect(String),
    /// A layer could not be rendered.
    Render(String),
}

} // verus!
