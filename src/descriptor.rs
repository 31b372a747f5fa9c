//! Layer descriptions as a host hands them over (for instance parsed from
//! JSON in a browser preview), and their conversion into layers.
use vstd::prelude::*;

use crate::blend::BlendMode;
use crate::layer::{Layer, LayerContent};
use crate::transform::Transform;
use crate::types::Color;

verus! {

/// The blend mode a host names: `multiply`, `screen`, `overlay`, `add`,
/// `lighten` or `darken`; any other name means Normal.
pub open spec fn mode_named(name: Seq<char>) -> BlendMode {
    if name == "multiply"@ {
        BlendMode::Multiply
    } else if name == "screen"@ {
        BlendMode::Screen
    } else if name == "overlay"@ {
        BlendMode::Overlay
    } else if name == "add"@ {
        BlendMode::Add
    } else if name == "lighten"@ {
        BlendMode::Lighten
    } else if name == "darken"@ {
        BlendMode::Darken
    } else {
        BlendMode::Normal
    }
}

fn is_named(name: &String, literal: &str) -> (r: bool)
    ensures
        r == (name@ == literal@),
{
    *name == String::from_str(literal)
}

impl BlendMode {
    /// The mode a host names; unrecognised names give Normal.
    pub fn from_name(name: &String) -> (m: BlendMode)
        ensures
            m == mode_named(name@),
    {
        if is_named(name, "multiply") {
            BlendMode::Multiply
        } else if is_named(name, "screen") {
            BlendMode::Screen
        } else if is_named(name, "overlay") {
            BlendMode::Overlay
        } else if is_named(name, "add") {
            BlendMode::Add
        } else if is_named(name, "lighten") {
            BlendMode::Lighten
        } else if is_named(name, "darken") {
            BlendMode::Darken
        } else {
            BlendMode::Normal
        }
    }
}

/// A layer as a host describes it: a type tag, an optional colour, a
/// transform, an optional blend-mode name, visibility and z-index.
#[derive(Debug, Clone)]
pub struct LayerDescriptor {
    /// `"solidColor"` is the one type that becomes a layer.
    pub layer_type: String,
    pub color: Option<[u8; 4]>,
    pub transform: Transform,
    pub blend_mode: Option<String>,
    pub visible: bool,
    pub z_index: i32,
}

impl LayerDescriptor {
    /// The layer described, if any: a visible `"solidColor"` description with
    /// a colour becomes a solid layer with the named blend mode (Normal when
    /// none is named) and the given transform and z-index; anything else
    /// gives no layer.
    pub fn to_layer(&self) -> (r: Option<Layer>)
        ensures
            (r is Some) == (self.visible && self.layer_type@ == "solidColor"@ && self.color is Some),
            r matches Some(l) ==> ({
                let c = self.color->Some_0;
                &&& l.content == (LayerContent::SolidColor {
                    color: Color { r: c[0], g: c[1], b: c[2], a: c[3] },
                })
                &&& l.transform == self.transform
                &&& l.blend_mode == match self.blend_mode {
                    Some(name) => mode_named(name@),
                    None => BlendMode::Normal,
                }
                &&& l.visible
                &&& l.z_index == self.z_index
                &&& l.id@.len() == 36
            }),
    {
        if !self.visible || !is_named(&self.layer_type, "solidColor") {
            return None;
        }
        match self.color {
            Some(c) => {
                let mode = match &self.blend_mode {
                    Some(name) => BlendMode::from_name(name),
                    None => BlendMode::Normal,
                };
                let layer = Layer::solid_color(Color::new(c[0], c[1], c[2], c[3]), self.transform)
                    .with_blend_mode(mode)
                    .with_z_index(self.z_index);
                Some(layer)
            },
            None => None,
        }
    }
}

} // verus!
