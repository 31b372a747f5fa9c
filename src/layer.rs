//! Layers: identified, positioned, blend-configured pieces of content.
use vstd::prelude::*;

use crate::blend::BlendMode;
use crate::raster::Raster;
use crate::transform::Transform;
use crate::types::Color;
use crate::Error;

verus! {

/// What a layer shows.
#[derive(Debug, Clone)]
pub enum LayerContent {
    /// An image file; its pixels must be loaded before composition, since the
    /// library itself reads no files.
    Image { path: String },
    /// A rectangle of one colour, as large as the output frame before scaling.
    SolidColor { color: Color },
    /// Text; carried but not rendered (it produces no pixels).
    Text {
        text: String,
        /// Font size in thousandths of a point.
        font_size: u32,
        color: Color,
        font_family: String,
    },
    /// Raw RGBA8 pixels, row-major; valid when `data` holds exactly
    /// `width · height · 4` bytes.
    ImageData { data: Vec<u8>, width: u32, height: u32 },
}

/// One compositable layer. A higher `z_index` paints later (on top).
#[derive(Debug, Clone)]
pub struct Layer {
    pub id: String,
    pub content: LayerContent,
    pub transform: Transform,
    pub blend_mode: BlendMode,
    pub visible: bool,
    pub z_index: i32,
}

/// Relies on `uuid::Uuid::new_v4` for a fresh random identifier, written by
/// its `Display` impl in the hyphenated form of 36 characters. It panics only
/// if the system's random source fails.
#[verifier::external_body]
fn new_layer_id() -> (id: String)
    ensures
        id@.len() == 36,
{
    uuid::Uuid::new_v4().to_string()
}

/// Whether `data` holds exactly the `width · height` RGBA8 pixels it claims.
pub open spec fn pixel_data_fits(data: Seq<u8>, width: u32, height: u32) -> bool {
    data.len() == width * height * 4
}

/// A fresh layer as the constructors make it: visible, Normal blending, z-index 0.
pub open spec fn is_fresh(l: Layer, content: LayerContent, transform: Transform) -> bool {
    &&& l.id@.len() == 36
    &&& l.content == content
    &&& l.transform == transform
    &&& l.blend_mode == BlendMode::Normal
    &&& l.visible
    &&& l.z_index == 0
}

impl Layer {
    fn fresh(content: LayerContent, transform: Transform) -> (l: Layer)
        ensures
            is_fresh(l, content, transform),
    {
        Layer {
            id: new_layer_id(),
            content,
            transform,
            blend_mode: BlendMode::Normal,
            visible: true,
            z_index: 0,
        }
    }

    /// A layer showing the image file at `path`.
    pub fn image(path: &str, transform: Transform) -> (l: Layer)
        ensures
            l.content matches LayerContent::Image { path: p } && p@ == path@,
            is_fresh(l, l.content, transform),
    {
        Layer::fresh(LayerContent::Image { path: String::from_str(path) }, transform)
    }

    /// A layer of one colour.
    pub fn solid_color(color: Color, transform: Transform) -> (l: Layer)
        ensures
            is_fresh(l, LayerContent::SolidColor { color }, transform),
    {
        Layer::fresh(LayerContent::SolidColor { color }, transform)
    }

    /// A layer of raw RGBA8 pixels.
    pub fn image_data(data: Vec<u8>, width: u32, height: u32, transform: Transform) -> (l: Layer)
        ensures
            is_fresh(l, LayerContent::ImageData { data, width, height }, transform),
    {
        Layer::fresh(LayerContent::ImageData { data, width, height }, transform)
    }

    /// A text layer in the default font family, "Arial".
    pub fn text(text: String, font_size: u32, color: Color, transform: Transform) -> (l: Layer)
        ensures
            l.content matches LayerContent::Text { text: t, font_size: f, color: c, font_family }
                && t == text && f == font_size && c == color && font_family@ == "Arial"@,
            is_fresh(l, l.content, transform),
    {
        let font_family = String::from_str("Arial");
        Layer::fresh(LayerContent::Text { text, font_size, color, font_family }, transform)
    }

    pub fn with_blend_mode(self, blend_mode: BlendMode) -> (l: Layer)
        ensures
            l == (Layer { blend_mode, ..self }),
    {
        Layer { blend_mode, ..self }
    }

    pub fn with_z_index(self, z_index: i32) -> (l: Layer)
        ensures
            l == (Layer { z_index, ..self }),
    {
        Layer { z_index, ..self }
    }

    pub fn with_visible(self, visible: bool) -> (l: Layer)
        ensures
            l == (Layer { visible, ..self }),
    {
        Layer { visible, ..self }
    }

    /// The layer's pixels, for the kinds of content that have pixels of their
    /// own: `None` for a hidden layer, a solid colour or text; the checked
    /// buffer of raw pixel data; an error for malformed pixel data and for an
    /// image file, which must be loaded first.
    pub fn load_image(&self) -> (r: Result<Option<Raster>, Error>)
        ensures
            !self.visible ==> r matches Ok(None),
            self.visible ==> match self.content {
                LayerContent::ImageData { data, width, height } => if pixel_data_fits(
                    data@,
                    width,
                    height,
                ) {
                    r matches Ok(Some(img)) && img.width == width && img.height == height
                        && img.data@ == data@ && img.wf()
                } else {
                    r matches Err(Error::InvalidLayer(_))
                },
                LayerContent::Image { path } => r matches Err(Error::Io(p)) && p@ == path@,
                _ => r matches Ok(None),
            },
    {
        if !self.visible {
            return Ok(None);
        }
        match &self.content {
            LayerContent::ImageData { data, width, height } => {
                assert(*width as u128 * *height as u128 <= 0xffff_ffffu128 * 0xffff_ffffu128)
                    by (nonlinear_arith)
                    requires
                        *width <= 0xffff_ffffu32,
                        *height <= 0xffff_ffffu32,
                ;
                if data.len() as u128 != *width as u128 * *height as u128 * 4 {
                    return Err(Error::InvalidLayer(String::from_str("Invalid image data")));
                }
                let pixels = data.clone();
                assert(pixels@ =~= data@);
                Ok(Some(Raster { width: *width, height: *height, data: pixels }))
            },
            LayerContent::Image { path } => Err(Error::Io(path.clone())),
            _ => Ok(None),
        }
    }
}

} // verus!
