//! Per-layer placement and appearance: position, scale, rotation, opacity
//! and anchor, all in thousandths (`1000` is one pixel, a factor of one,
//! one degree, or full opacity).
use vstd::prelude::*;

use crate::types::{Point, UNIT};

verus! {

/// Placement and appearance of a layer.
///
/// `rotation` and `anchor` are carried but not applied when rendering.
#[derive(Debug, Clone, Copy, PartialEq, Eq, Structural)]
pub struct Transform {
    /// Offset of the layer's top-left corner, in thousandths of a pixel.
    pub position: Point,
    /// Horizontal and vertical scale factors, in thousandths.
    pub scale: Point,
    /// Clockwise rotation, in thousandths of a degree.
    pub rotation: i32,
    /// Opacity, in thousandths: `0` transparent, `1000` opaque.
    pub opacity: i32,
    /// Anchor relative to the layer's size, each axis in thousandths.
    pub anchor: Point,
}

/// `v` forced into `0..=1000`.
pub open spec fn clamp_unit(v: int) -> int {
    if v < 0 {
        0
    } else if v > 1000 {
        1000
    } else {
        v
    }
}

fn clamp_to_unit(v: i32) -> (r: i32)
    ensures
        r == clamp_unit(v as int),
{
    if v < 0 {
        0
    } else if v > UNIT {
        UNIT
    } else {
        v
    }
}

/// The transform that changes nothing.
pub open spec fn identity() -> Transform {
    Transform {
        position: Point { x: 0, y: 0 },
        scale: Point { x: 1000, y: 1000 },
        rotation: 0,
        opacity: 1000,
        anchor: Point { x: 500, y: 500 },
    }
}

impl Transform {
    /// Opacity and anchor lie in their unit ranges.
    pub open spec fn wf(&self) -> bool {
        &&& 0 <= self.opacity <= 1000
        &&& 0 <= self.anchor.x <= 1000
        &&& 0 <= self.anchor.y <= 1000
    }

    /// No offset, unit scale, no rotation, full opacity.
    pub open spec fn spec_is_identity(&self) -> bool {
        &&& self.position == Point { x: 0, y: 0 }
        &&& self.scale == Point { x: 1000, y: 1000 }
        &&& self.rotation == 0
        &&& self.opacity == 1000
    }

    /// The identity transform with the anchor at the centre.
    pub fn new() -> (t: Transform)
        ensures
            t == identity(),
    {
        Transform {
            position: Point::zero(),
            scale: Point::new(UNIT, UNIT),
            rotation: 0,
            opacity: UNIT,
            anchor: Point::new(UNIT / 2, UNIT / 2),
        }
    }

    /// The identity transform moved to `(x, y)`.
    pub fn at(x: i32, y: i32) -> (t: Transform)
        ensures
            t == (Transform { position: Point { x, y }, ..identity() }),
    {
        Transform { position: Point::new(x, y), ..Transform::new() }
    }

    /// The identity transform moved to `(x, y)`, with opacity clamped into range.
    pub fn at_with_opacity(x: i32, y: i32, opacity: i32) -> (t: Transform)
        ensures
            t == (Transform {
                position: Point { x, y },
                opacity: clamp_unit(opacity as int) as i32,
                ..identity()
            }),
    {
        Transform {
            position: Point::new(x, y),
            opacity: clamp_to_unit(opacity),
            ..Transform::new()
        }
    }

    pub fn with_position(self, x: i32, y: i32) -> (t: Transform)
        ensures
            t == (Transform { position: Point { x, y }, ..self }),
    {
        Transform { position: Point::new(x, y), ..self }
    }

    /// The same factor on both axes.
    pub fn with_scale(self, scale: i32) -> (t: Transform)
        ensures
            t == (Transform { scale: Point { x: scale, y: scale }, ..self }),
    {
        Transform { scale: Point::new(scale, scale), ..self }
    }

    pub fn with_scale_xy(self, scale_x: i32, scale_y: i32) -> (t: Transform)
        ensures
            t == (Transform { scale: Point { x: scale_x, y: scale_y }, ..self }),
    {
        Transform { scale: Point::new(scale_x, scale_y), ..self }
    }

    pub fn with_rotation(self, degrees: i32) -> (t: Transform)
        ensures
            t == (Transform { rotation: degrees, ..self }),
    {
        Transform { rotation: degrees, ..self }
    }

    /// Opacity, clamped into `0..=1000`.
    pub fn with_opacity(self, opacity: i32) -> (t: Transform)
        ensures
            t == (Transform { opacity: clamp_unit(opacity as int) as i32, ..self }),
    {
        Transform { opacity: clamp_to_unit(opacity), ..self }
    }

    /// Anchor, each axis clamped into `0..=1000`.
    pub fn with_anchor(self, x: i32, y: i32) -> (t: Transform)
        ensures
            t == (Transform {
                anchor: Point { x: clamp_unit(x as int) as i32, y: clamp_unit(y as int) as i32 },
                ..self
            }),
    {
        Transform { anchor: Point::new(clamp_to_unit(x), clamp_to_unit(y)), ..self }
    }

    /// Whether the transform leaves a layer where and as it is (the anchor
    /// is not considered).
    pub fn is_identity(&self) -> (r: bool)
        ensures
            r == self.spec_is_identity(),
    {
        self.position.x == 0 && self.position.y == 0 && self.scale.x == UNIT && self.scale.y
            == UNIT && self.rotation == 0 && self.opacity == UNIT
    }
}

impl Default for Transform {
    fn default() -> (t: Transform)
        ensures
            t == identity(),
    {
        Transform::new()
    }
}

/// Every transform built from the identity by the setters keeps opacity and
/// anchor in their unit ranges.
pub proof fn setters_keep_ranges(t: Transform, o: i32, ax: i32, ay: i32)
    requires
        t.wf(),
    ensures
        identity().wf(),
        (Transform { opacity: clamp_unit(o as int) as i32, ..t }).wf(),
        (Transform {
            anchor: Point { x: clamp_unit(ax as int) as i32, y: clamp_unit(ay as int) as i32 },
            ..t
        }).wf(),
{
}

} // verus!
