//! The compositor: background, visibility, paint order, and the per-layer
//! rendering that accumulates layers into one frame.
use vstd::prelude::*;

use crate::blend::{normal_opaque_top_replaces, BlendMode};
use crate::frame::Frame;
use crate::layer::{pixel_data_fits, Layer, LayerContent};
use crate::raster::{
    faded, filled_bytes, image_patch, lemma_pixel_index, paint, painted, pixel_of, uniform_patch,
    Raster,
};
use crate::transform::Transform;
use crate::types::{Color, Point, UNIT};
use crate::Error;

verus! {

/// The frame size and background that every composition starts from.
pub struct Compositor {
    width: u32,
    height: u32,
    background: Color,
}

// ---------------------------------------------------------------------------
// Paint order

/// The visible layers among the first `n`, stably sorted by z-index: the
/// order in which they are painted, bottom first.
pub open spec fn paint_prefix(ls: Seq<Layer>, n: int) -> Seq<Layer>
    decreases n,
{
    if n <= 0 {
        seq![]
    } else {
        let s = paint_prefix(ls, n - 1);
        if ls[n - 1].visible {
            insert_by_z(s, ls[n - 1])
        } else {
            s
        }
    }
}

/// `l` placed into `s` after every layer whose z-index is at most its own,
/// scanning from the end: the insertion step of a stable sort.
pub open spec fn insert_by_z(s: Seq<Layer>, l: Layer) -> Seq<Layer>
    decreases s.len(),
{
    if s.len() == 0 || s.last().z_index <= l.z_index {
        s.push(l)
    } else {
        insert_by_z(s.drop_last(), l).push(s.last())
    }
}

/// The layers that a sequence of borrows points to.
pub open spec fn layers_of(s: Seq<&Layer>) -> Seq<Layer> {
    s.map_values(|l: &Layer| *l)
}

/// The visible layers of `ls` in paint order: ascending z-index, ties in
/// their list order.
pub open spec fn paint_order(ls: Seq<Layer>) -> Seq<Layer> {
    paint_prefix(ls, ls.len() as int)
}

proof fn lemma_insert_at(s: Seq<Layer>, l: Layer, j: int)
    requires
        0 <= j <= s.len(),
        j == 0 || s[j - 1].z_index <= l.z_index,
        forall|k: int| j <= k < s.len() ==> #[trigger] s[k].z_index > l.z_index,
    ensures
        insert_by_z(s, l) == s.insert(j, l),
    decreases s.len(),
{
    if j == s.len() {
        assert(s.push(l) =~= s.insert(j, l));
    } else {
        let t = s.drop_last();
        assert forall|k: int| j <= k < t.len() implies #[trigger] t[k].z_index > l.z_index by {
            assert(t[k] == s[k]);
        };
        lemma_insert_at(t, l, j);
        assert(t.insert(j, l).push(s.last()) =~= s.insert(j, l));
    }
}

// ---------------------------------------------------------------------------
// Geometry of a layer

/// `n · s / 1000` for a size `n` and a factor `s` in thousandths, truncated
/// and held to the range of `u32`.
pub open spec fn scaled_len(n: int, s: int) -> int {
    let v = n * s / 1000;
    if v < 0 {
        0
    } else if v > u32::MAX {
        u32::MAX as int
    } else {
        v
    }
}

/// A coordinate in thousandths as whole pixels, truncated toward zero.
pub open spec fn pixel_offset(p: int) -> int {
    if p >= 0 {
        p / 1000
    } else {
        -((-p) / 1000)
    }
}

/// The alpha multiplier `0..=255` that an opacity in thousandths stands for.
pub open spec fn opacity_level(opacity: int) -> int {
    if opacity <= 0 {
        0
    } else if opacity >= 1000 {
        255
    } else {
        opacity * 255 / 1000
    }
}

/// Opacity is applied only below full opacity.
pub open spec fn fades(t: Transform) -> bool {
    t.opacity < 1000
}

/// The pixel of a solid-colour layer: its colour with the opacity applied.
pub open spec fn solid_pixel(color: Color, t: Transform) -> Seq<u8> {
    if fades(t) {
        seq![color.r, color.g, color.b, (color.a * opacity_level(t.opacity as int) / 255) as u8]
    } else {
        color.pixel()
    }
}

/// What the resampling step may allocate without exceeding a vector's limit:
/// an intermediate of 16 bytes per pixel, `width` × `new_height`, and the
/// `new_width` × `new_height` result.
pub open spec fn resize_fits(width: int, new_width: int, new_height: int) -> bool {
    &&& width * new_height * 16 <= isize::MAX
    &&& new_width * new_height * 4 <= isize::MAX
}

#[verifier::external_body]
fn resize_lanczos3(src: &Raster, new_width: u32, new_height: u32) -> (r: Raster)
    requires
        src.wf(),
        resize_fits(src.width as int, new_width as int, new_height as int),
    ensures
        r.wf(),
        r.width == new_width,
        r.height == new_height,
{
    let img = image::RgbaImage::from_raw(src.width, src.height, src.data.clone()).unwrap();
    let out = image::imageops::resize(
        &img,
        new_width,
        new_height,
        image::imageops::FilterType::Lanczos3,
    );
    Raster { width: new_width, height: new_height, data: out.into_raw() }
}

/// The size an image of `width`×`height` is resampled to under `t`, when its
/// scale is not one and the resampling fits in memory.
pub open spec fn resampled_size(width: int, height: int, t: Transform) -> Option<(int, int)> {
    if t.scale.x == 1000 && t.scale.y == 1000 {
        None
    } else {
        let nw = scaled_len(width, t.scale.x as int);
        let nh = scaled_len(height, t.scale.y as int);
        if resize_fits(width, nw, nh) {
            Some((nw, nh))
        } else {
            None
        }
    }
}

/// The source pixels of an image layer after its opacity is applied.
pub open spec fn faded_source(data: Seq<u8>, t: Transform) -> Seq<u8> {
    if fades(t) {
        faded(data, opacity_level(t.opacity as int))
    } else {
        data
    }
}

/// The pixels of an image layer ready to paint, with their width and height:
/// opacity applied, or, when the scale is not one, `resampled`, the pixels
/// that the resampling filter gave. `None` when the resampled image would be
/// too large to allocate.
pub open spec fn prepared_pixels(
    data: Seq<u8>,
    width: int,
    height: int,
    t: Transform,
    resampled: Seq<u8>,
) -> Option<(Seq<u8>, int, int)> {
    if t.scale.x == 1000 && t.scale.y == 1000 {
        Some((faded_source(data, t), width, height))
    } else {
        match resampled_size(width, height, t) {
            Some((nw, nh)) => Some((resampled, nw, nh)),
            None => None,
        }
    }
}

/// The resampled size of a layer whose pixels are resampled when rendered.
pub open spec fn layer_resampled_size(l: Layer) -> Option<(int, int)> {
    match l.content {
        LayerContent::ImageData { data, width, height } => if pixel_data_fits(
            data@,
            width,
            height,
        ) {
            resampled_size(width as int, height as int, l.transform)
        } else {
            None
        },
        _ => None,
    }
}

/// `px` could be the resampled pixels of `l`: it has the resampled size, if
/// `l` is resampled at all.
pub open spec fn fits_resample(l: Layer, px: Seq<u8>) -> bool {
    match layer_resampled_size(l) {
        Some((nw, nh)) => px.len() == nw * nh * 4,
        None => true,
    }
}

/// One possible resampling result per layer of `ls`, each of the right size.
pub open spec fn resamplings_fit(ls: Seq<Layer>, rs: Seq<Seq<u8>>) -> bool {
    &&& rs.len() == ls.len()
    &&& forall|i: int| 0 <= i < ls.len() ==> #[trigger] fits_resample(ls[i], rs[i])
}

/// A transparent buffer of the resampled size of `l`.
pub open spec fn blank_resample(l: Layer) -> Seq<u8> {
    match layer_resampled_size(l) {
        Some((nw, nh)) => Seq::new((nw * nh * 4) as nat, |i: int| 0u8),
        None => seq![],
    }
}

/// No layer of `ls` is resampled.
pub open spec fn resample_free(ls: Seq<Layer>) -> bool {
    forall|i: int| 0 <= i < ls.len() ==> #[trigger] layer_resampled_size(ls[i]) is None
}

/// Whether `e` is the error that rendering `l` fails with.
pub open spec fn reports(e: Error, l: Layer) -> bool {
    match l.content {
        LayerContent::ImageData { data, width, height } => if pixel_data_fits(
            data@,
            width,
            height,
        ) {
            e is Render
        } else {
            e is InvalidLayer
        },
        LayerContent::Image { path } => e matches Error::Io(p) && p@ == path@,
        _ => false,
    }
}

impl Compositor {
    pub closed spec fn spec_width(&self) -> u32 {
        self.width
    }

    pub closed spec fn spec_height(&self) -> u32 {
        self.height
    }

    pub closed spec fn spec_background(&self) -> Color {
        self.background
    }

    /// The output buffer before any layer: every pixel the background colour
    /// if it has any alpha, transparent black otherwise.
    pub open spec fn background_bytes(&self) -> Seq<u8> {
        let bg = self.spec_background();
        filled_bytes(
            self.spec_width() * self.spec_height(),
            if bg.a > 0 {
                bg.pixel()
            } else {
                seq![0u8, 0u8, 0u8, 0u8]
            },
        )
    }

    /// `canvas` after `l` is rendered onto it, or `l` itself if it cannot be;
    /// `resampled` stands for the pixels the resampling filter gives when `l`
    /// is a scaled image.
    pub open spec fn render_spec(&self, canvas: Seq<u8>, l: Layer, resampled: Seq<u8>) -> Result<
        Seq<u8>,
        Layer,
    > {
        let t = l.transform;
        let x = pixel_offset(t.position.x as int);
        let y = pixel_offset(t.position.y as int);
        let dw = self.spec_width() as int;
        match l.content {
            LayerContent::SolidColor { color } => Ok(
                painted(
                    canvas,
                    dw,
                    uniform_patch(solid_pixel(color, t)),
                    scaled_len(dw, t.scale.x as int),
                    scaled_len(self.spec_height() as int, t.scale.y as int),
                    x,
                    y,
                    l.blend_mode,
                ),
            ),
            LayerContent::Text { .. } => Ok(canvas),
            LayerContent::ImageData { data, width, height } => if !pixel_data_fits(
                data@,
                width,
                height,
            ) {
                Err(l)
            } else {
                match prepared_pixels(data@, width as int, height as int, t, resampled) {
                    Some((px, w, h)) => Ok(
                        painted(canvas, dw, image_patch(px, w), w, h, x, y, l.blend_mode),
                    ),
                    None => Err(l),
                }
            },
            LayerContent::Image { .. } => Err(l),
        }
    }

    /// `canvas` after the layers `ls` are rendered onto it in sequence, layer
    /// `i` with resampling result `rs[i]`; the first layer that cannot be
    /// rendered, if any.
    pub open spec fn render_all(&self, canvas: Seq<u8>, ls: Seq<Layer>, rs: Seq<Seq<u8>>) -> Result<
        Seq<u8>,
        Layer,
    >
        decreases ls.len(),
    {
        if ls.len() == 0 {
            Ok(canvas)
        } else {
            match self.render_all(canvas, ls.drop_last(), rs.drop_last()) {
                Ok(c) => self.render_spec(c, ls.last(), rs.last()),
                Err(l) => Err(l),
            }
        }
    }

    /// The pixels of the frame composed from `ls`, with `rs` the resampling
    /// results of the layers in paint order; or the first layer in paint
    /// order that cannot be rendered.
    pub open spec fn composed(&self, ls: Seq<Layer>, rs: Seq<Seq<u8>>) -> Result<Seq<u8>, Layer> {
        self.render_all(self.background_bytes(), paint_order(ls), rs)
    }

    /// Whether `r` is the outcome of composing `ls` with resampling results `rs`.
    pub open spec fn is_composition_with(
        &self,
        ls: Seq<Layer>,
        rs: Seq<Seq<u8>>,
        r: Result<Frame, Error>,
    ) -> bool {
        match (r, self.composed(ls, rs)) {
            (Ok(f), Ok(px)) => f@.wf() && f@.width == self.spec_width() && f@.height
                == self.spec_height() && f@.data@ == px,
            (Err(e), Err(l)) => reports(e, l),
            _ => false,
        }
    }

    /// Whether `r` is the outcome of composing `ls` for some resampling result
    /// of the right size for each resampled layer.
    pub open spec fn is_composition(&self, ls: Seq<Layer>, r: Result<Frame, Error>) -> bool {
        exists|rs: Seq<Seq<u8>>|
            resamplings_fit(paint_order(ls), rs) && #[trigger] self.is_composition_with(ls, rs, r)
    }

    /// Whether composing `ls` succeeds (which does not depend on resampling).
    pub open spec fn succeeds(&self, ls: Seq<Layer>) -> bool {
        self.composed(ls, paint_order(ls).map_values(|l: Layer| blank_resample(l))) is Ok
    }

    /// The frame area fits in memory.
    pub open spec fn fits_memory(&self) -> bool {
        self.spec_width() * self.spec_height() * 4 <= usize::MAX
    }

    /// A compositor for `width`×`height` frames on a transparent background;
    /// fails when either size is zero.
    pub fn new(width: u32, height: u32) -> (r: Result<Compositor, Error>)
        ensures
            (width > 0 && height > 0) == (r is Ok),
            r matches Ok(c) ==> (c.spec_width() == width && c.spec_height() == height
                && c.spec_background() == (Color { r: 0, g: 0, b: 0, a: 0 })),
            r matches Err(e) ==> (e matches Error::InvalidDimensions(w, h) && w == width && h
                == height),
    {
        if width == 0 || height == 0 {
            return Err(Error::InvalidDimensions(width, height));
        }
        Ok(Compositor { width, height, background: Color::transparent() })
    }

    /// The same compositor with another background colour.
    pub fn with_background(self, background: Color) -> (c: Compositor)
        ensures
            c.spec_width() == self.spec_width(),
            c.spec_height() == self.spec_height(),
            c.spec_background() == background,
    {
        Compositor { background, ..self }
    }

    pub fn width(&self) -> (w: u32)
        ensures
            w == self.spec_width(),
    {
        self.width
    }

    pub fn height(&self) -> (h: u32)
        ensures
            h == self.spec_height(),
    {
        self.height
    }

    pub fn background(&self) -> (c: Color)
        ensures
            c == self.spec_background(),
    {
        self.background
    }

    /// The visible layers of `layers` in paint order.
    pub fn paint_order<'a>(&self, layers: &'a [Layer]) -> (order: Vec<&'a Layer>)
        ensures
            layers_of(order@) == paint_order(layers@),
    {
        let mut order: Vec<&Layer> = Vec::new();
        let mut i: usize = 0;
        while i < layers.len()
            invariant
                i <= layers@.len(),
                layers_of(order@) == paint_prefix(layers@, i as int),
            decreases layers@.len() - i,
        {
            let layer = &layers[i];
            if layer.visible {
                let mut j = order.len();
                while j > 0 && order[j - 1].z_index > layer.z_index
                    invariant
                        j <= order@.len(),
                        forall|k: int|
                            j <= k < order@.len() ==> #[trigger] order@[k].z_index
                                > layer.z_index,
                    decreases j,
                {
                    j -= 1;
                }
                let ghost before = order@;
                proof {
                    lemma_insert_at(layers_of(before), *layer, j as int);
                }
                order.insert(j, layer);
                assert(layers_of(order@) =~= layers_of(before).insert(j as int, *layer));
            }
            i += 1;
        }
        order
    }

    /// The output buffer before any layer is painted.
    fn create_background(&self) -> (r: Raster)
        requires
            self.fits_memory(),
        ensures
            r.wf(),
            r.width == self.width,
            r.height == self.height,
            r.data@ == self.background_bytes(),
    {
        let bg = self.background;
        let px = if bg.a > 0 {
            bg.to_pixel()
        } else {
            [0, 0, 0, 0]
        };
        let r = Raster::filled(self.width, self.height, px);
        proof {
            assert([0u8, 0u8, 0u8, 0u8]@ =~= seq![0u8, 0u8, 0u8, 0u8]);
        }
        r
    }

    /// Blend `source` onto `dest` by `mode`, its top-left corner at `(x, y)`.
    /// Source pixels that fall outside `dest` are dropped.
    pub fn blend_image_at(
        &self,
        dest: &mut Raster,
        source: &Raster,
        x: i64,
        y: i64,
        blend_mode: BlendMode,
    )
        requires
            old(dest).wf(),
            source.wf(),
        ensures
            final(dest).wf(),
            final(dest).width == old(dest).width,
            final(dest).height == old(dest).height,
            final(dest).data@ == painted(
                old(dest).data@,
                old(dest).width as int,
                image_patch(source.data@, source.width as int),
                source.width as int,
                source.height as int,
                x as int,
                y as int,
                blend_mode,
            ),
    {
        paint(dest, Some(source), [0, 0, 0, 0], source.width as u64, source.height as u64, x, y, blend_mode);
    }

    /// Scale the alpha of every pixel of `image` by `opacity`.
    fn apply_opacity(image: &mut Raster, opacity: i32)
        requires
            old(image).wf(),
        ensures
            final(image).wf(),
            final(image).width == old(image).width,
            final(image).height == old(image).height,
            final(image).data@ == faded(old(image).data@, opacity_level(opacity as int)),
    {
        let level = opacity_to_level(opacity);
        image.fade(level);
    }

    /// Paint a solid-colour layer: the output's size scaled by the transform,
    /// filled with the colour at the transform's opacity.
    fn render_solid_color(
        &self,
        output: &mut Raster,
        color: Color,
        transform: &Transform,
        blend_mode: BlendMode,
    )
        requires
            old(output).wf(),
            old(output).width == self.spec_width(),
        ensures
            final(output).wf(),
            final(output).width == old(output).width,
            final(output).height == old(output).height,
            final(output).data@ == painted(
                old(output).data@,
                self.spec_width() as int,
                uniform_patch(solid_pixel(color, *transform)),
                scaled_len(self.spec_width() as int, transform.scale.x as int),
                scaled_len(self.spec_height() as int, transform.scale.y as int),
                pixel_offset(transform.position.x as int),
                pixel_offset(transform.position.y as int),
                blend_mode,
            ),
    {
        let x = to_pixel_offset(transform.position.x);
        let y = to_pixel_offset(transform.position.y);
        let w = scale_len(self.width, transform.scale.x);
        let h = scale_len(self.height, transform.scale.y);
        let mut px = color.to_pixel();
        if transform.opacity < UNIT {
            let level = opacity_to_level(transform.opacity);
            assert(color.a * level / 255 <= 255) by (nonlinear_arith)
                requires
                    color.a <= 255,
                    level <= 255,
            ;
            px[3] = ((color.a as u32 * level as u32) / 255) as u8;
            assert(px@ =~= solid_pixel(color, *transform));
        }
        paint(output, None, px, w as u64, h as u64, x, y, blend_mode);
    }

    /// Paint the pixels of an image layer: opacity applied, resampled when
    /// scaled, placed at the transform's position. Rotation is not applied.
    /// Also gives back the resampled pixels, when there are any. On failure
    /// the output is left as it was.
    fn composite_image(
        &self,
        output: &mut Raster,
        source: &mut Raster,
        transform: &Transform,
        blend_mode: BlendMode,
    ) -> (res: (Result<(), Error>, Ghost<Seq<u8>>))
        requires
            old(output).wf(),
            old(output).width == self.spec_width(),
            old(source).wf(),
        ensures
            final(source).wf(),
            final(source).width == old(source).width,
            final(source).height == old(source).height,
            final(source).data@ == faded_source(old(source).data@, *transform),
            match resampled_size(old(source).width as int, old(source).height as int, *transform) {
                Some((nw, nh)) => res.1@.len() == nw * nh * 4,
                None => true,
            },
            match prepared_pixels(
                old(source).data@,
                old(source).width as int,
                old(source).height as int,
                *transform,
                res.1@,
            ) {
                Some((px, w, h)) => (res.0 is Ok) && final(output).wf() && final(output).width
                    == old(output).width && final(output).height == old(output).height
                    && final(output).data@ == painted(
                    old(output).data@,
                    self.spec_width() as int,
                    image_patch(px, w),
                    w,
                    h,
                    pixel_offset(transform.position.x as int),
                    pixel_offset(transform.position.y as int),
                    blend_mode,
                ),
                None => (res.0 matches Err(Error::Render(_))) && *final(output) == *old(output),
            },
    {
        if transform.opacity < UNIT {
            Compositor::apply_opacity(source, transform.opacity);
        }
        let x = to_pixel_offset(transform.position.x);
        let y = to_pixel_offset(transform.position.y);
        if transform.scale.x != UNIT || transform.scale.y != UNIT {
            let nw = scale_len(source.width, transform.scale.x);
            let nh = scale_len(source.height, transform.scale.y);
            if !fits_resize(source.width, nw, nh) {
                return (
                    Err(Error::Render(String::from_str("scaled image too large"))),
                    Ghost(Seq::empty()),
                );
            }
            let scaled = resize_lanczos3(source, nw, nh);
            self.blend_image_at(output, &scaled, x, y, blend_mode);
            (Ok(()), Ghost(scaled.data@))
        } else {
            self.blend_image_at(output, source, x, y, blend_mode);
            (Ok(()), Ghost(Seq::empty()))
        }
    }

    /// Render one layer onto `output`, giving back the resampled pixels of a
    /// scaled image. A hidden layer paints nothing unless it is a solid
    /// colour; a failing layer leaves the output as it was.
    fn render_layer(&self, output: &mut Raster, layer: &Layer) -> (res: (
        Result<(), Error>,
        Ghost<Seq<u8>>,
    ))
        requires
            old(output).wf(),
            old(output).width == self.spec_width(),
        ensures
            layer.visible ==> fits_resample(*layer, res.1@),
            !layer.visible && !(layer.content is SolidColor) ==> (res.0 is Ok) && *final(output)
                == *old(output),
            layer.visible || layer.content is SolidColor ==> match self.render_spec(
                old(output).data@,
                *layer,
                res.1@,
            ) {
                Ok(px) => (res.0 is Ok) && final(output).wf() && final(output).width
                    == old(output).width && final(output).height == old(output).height
                    && final(output).data@ == px,
                Err(l) => l == *layer && (res.0 matches Err(e) && reports(e, *layer))
                    && *final(output) == *old(output),
            },
    {
        match &layer.content {
            LayerContent::Image { .. } | LayerContent::ImageData { .. } => {
                match layer.load_image() {
                    Ok(Some(mut image)) => {
                        self.composite_image(output, &mut image, &layer.transform, layer.blend_mode)
                    },
                    Ok(None) => (Ok(()), Ghost(Seq::empty())),
                    Err(e) => (Err(e), Ghost(Seq::empty())),
                }
            },
            LayerContent::SolidColor { color } => {
                self.render_solid_color(output, *color, &layer.transform, layer.blend_mode);
                (Ok(()), Ghost(Seq::empty()))
            },
            LayerContent::Text { .. } => (Ok(()), Ghost(Seq::empty())),
        }
    }

    /// Compose one frame from `layers`: the background, then every visible
    /// layer in paint order (ascending z-index, ties in list order). The first
    /// layer that cannot be rendered fails the whole composition.
    pub fn compose(&self, layers: &[Layer]) -> (r: Result<Frame, Error>)
        requires
            self.fits_memory(),
        ensures
            self.is_composition(layers@, r),
    {
        let mut output = self.create_background();
        let order = self.paint_order(layers);
        let ghost ls = layers_of(order@);
        let ghost mut rs: Seq<Seq<u8>> = Seq::empty();
        let mut k: usize = 0;
        while k < order.len()
            invariant
                k <= order@.len(),
                ls == layers_of(order@),
                ls == paint_order(layers@),
                output.wf(),
                output.width == self.spec_width(),
                output.height == self.spec_height(),
                resamplings_fit(ls.take(k as int), rs),
                self.render_all(self.background_bytes(), ls.take(k as int), rs) == Ok::<
                    Seq<u8>,
                    Layer,
                >(output.data@),
            decreases order@.len() - k,
        {
            proof {
                lemma_prefix_visible(layers@, layers@.len() as int);
                assert(paint_order(layers@)[k as int].visible);
                assert(ls.take(k as int + 1).drop_last() =~= ls.take(k as int));
            }
            let layer: &Layer = order[k];
            let (res, Ghost(px)) = self.render_layer(&mut output, layer);
            let ghost next = rs.push(px);
            proof {
                assert(next.drop_last() =~= rs);
                assert forall|i: int| 0 <= i < k + 1 implies #[trigger] fits_resample(
                    ls.take(k as int + 1)[i],
                    next[i],
                ) by {
                    if i < k {
                        assert(ls.take(k as int + 1)[i] == ls.take(k as int)[i]);
                    }
                };
            }
            match res {
                Ok(()) => {},
                Err(e) => {
                    proof {
                        let full = self.pad_resamplings(ls, next);
                        assert(full.take(k as int + 1) =~= next);
                        self.lemma_failure_persists(self.background_bytes(), ls, full, k as int + 1);
                        assert(self.is_composition_with(layers@, full, Err::<Frame, Error>(e)));
                    }
                    return Err(e);
                },
            }
            proof {
                rs = next;
            }
            k += 1;
        }
        assert(ls.take(order@.len() as int) =~= ls);
        let f = Frame::from_image(output);
        assert(self.is_composition_with(layers@, rs, Ok::<Frame, Error>(f)));
        Ok(f)
    }

    /// `rs` (resampling results for the first layers of `ls`) extended with a
    /// blank result of the right size for each remaining layer.
    spec fn padded(ls: Seq<Layer>, rs: Seq<Seq<u8>>) -> Seq<Seq<u8>> {
        rs + ls.skip(rs.len() as int).map_values(|l: Layer| blank_resample(l))
    }

    proof fn pad_resamplings(&self, ls: Seq<Layer>, rs: Seq<Seq<u8>>) -> (full: Seq<Seq<u8>>)
        requires
            rs.len() <= ls.len(),
            resamplings_fit(ls.take(rs.len() as int), rs),
        ensures
            full == Self::padded(ls, rs),
            resamplings_fit(ls, full),
    {
        let full = Self::padded(ls, rs);
        assert forall|i: int| 0 <= i < ls.len() implies #[trigger] fits_resample(ls[i], full[i]) by {
            if i < rs.len() {
                assert(ls.take(rs.len() as int)[i] == ls[i]);
            } else {
                assert(full[i] == blank_resample(ls[i]));
            }
        };
        full
    }

    /// Compose each list of layers independently, in order; the first
    /// failure fails the whole batch.
    pub fn compose_batch(&self, frames: Vec<Vec<Layer>>) -> (r: Result<Vec<Frame>, Error>)
        requires
            self.fits_memory(),
        ensures
            self.is_batch(frames@.map_values(|ls: Vec<Layer>| ls@), r),
    {
        let ghost lists = frames@.map_values(|ls: Vec<Layer>| ls@);
        let mut out: Vec<Frame> = Vec::new();
        let mut i: usize = 0;
        while i < frames.len()
            invariant
                i <= frames@.len(),
                self.fits_memory(),
                lists == frames@.map_values(|ls: Vec<Layer>| ls@),
                out@.len() == i,
                forall|j: int|
                    0 <= j < i ==> self.is_composition(lists[j], Ok::<Frame, Error>(#[trigger] out@[j])),
            decreases frames@.len() - i,
        {
            match self.compose(frames[i].as_slice()) {
                Ok(f) => out.push(f),
                Err(e) => {
                    proof {
                        assert forall|j: int| 0 <= j < i implies #[trigger] self.succeeds(
                            lists[j],
                        ) by {
                            self.lemma_success_shown(lists[j], Ok::<Frame, Error>(out@[j]));
                        };
                        assert(lists[i as int] == frames@[i as int]@);
                    }
                    return Err(e);
                },
            }
            i += 1;
        }
        Ok(out)
    }

    /// Whether `r` is the outcome of composing each of `lists` in turn: a
    /// frame for each, in order, or the error of the first that fails.
    pub open spec fn is_batch(&self, lists: Seq<Seq<Layer>>, r: Result<Vec<Frame>, Error>) -> bool {
        match r {
            Ok(frames) => frames@.len() == lists.len() && forall|j: int|
                0 <= j < lists.len() ==> self.is_composition(
                    lists[j],
                    Ok::<Frame, Error>(#[trigger] frames@[j]),
                ),
            Err(e) => exists|j: int|
                0 <= j < lists.len() && (forall|i: int|
                    0 <= i < j ==> #[trigger] self.succeeds(lists[i]))
                    && #[trigger] self.is_composition(lists[j], Err::<Frame, Error>(e)),
        }
    }

    /// A successful composition shows that composing succeeds.
    proof fn lemma_success_shown(&self, ls: Seq<Layer>, r: Result<Frame, Error>)
        requires
            r is Ok,
            self.is_composition(ls, r),
        ensures
            self.succeeds(ls),
    {
        let rs = choose|rs: Seq<Seq<u8>>|
            resamplings_fit(paint_order(ls), rs) && #[trigger] self.is_composition_with(ls, rs, r);
        let blank = paint_order(ls).map_values(|l: Layer| blank_resample(l));
        self.lemma_outcome_independent(self.background_bytes(), paint_order(ls), rs, blank);
    }

    /// Whether rendering succeeds, and which layer fails, does not depend on
    /// the resampling results; without resampled layers the pixels do not
    /// either.
    pub proof fn lemma_outcome_independent(
        &self,
        canvas: Seq<u8>,
        ls: Seq<Layer>,
        rs1: Seq<Seq<u8>>,
        rs2: Seq<Seq<u8>>,
    )
        requires
            rs1.len() == ls.len(),
            rs2.len() == ls.len(),
        ensures
            (self.render_all(canvas, ls, rs1) is Ok) == (self.render_all(canvas, ls, rs2) is Ok),
            self.render_all(canvas, ls, rs1) is Err ==> self.render_all(canvas, ls, rs1)
                == self.render_all(canvas, ls, rs2),
            resample_free(ls) ==> self.render_all(canvas, ls, rs1) == self.render_all(
                canvas,
                ls,
                rs2,
            ),
        decreases ls.len(),
    {
        if ls.len() > 0 {
            let pre = ls.drop_last();
            self.lemma_outcome_independent(canvas, pre, rs1.drop_last(), rs2.drop_last());
            if resample_free(ls) {
                assert forall|i: int| 0 <= i < pre.len() implies #[trigger] layer_resampled_size(
                    pre[i],
                ) is None by {
                    assert(pre[i] == ls[i]);
                };
                assert(layer_resampled_size(ls[ls.len() - 1]) is None);
            }
        }
    }

    proof fn lemma_failure_persists(&self, canvas: Seq<u8>, ls: Seq<Layer>, rs: Seq<Seq<u8>>, n: int)
        requires
            0 <= n <= ls.len(),
            rs.len() == ls.len(),
            self.render_all(canvas, ls.take(n), rs.take(n)) is Err,
        ensures
            self.render_all(canvas, ls, rs) == self.render_all(canvas, ls.take(n), rs.take(n)),
        decreases ls.len() - n,
    {
        if n < ls.len() {
            assert(ls.take(n + 1).drop_last() =~= ls.take(n));
            assert(rs.take(n + 1).drop_last() =~= rs.take(n));
            self.lemma_failure_persists(canvas, ls, rs, n + 1);
        } else {
            assert(ls.take(n) =~= ls);
            assert(rs.take(n) =~= rs);
        }
    }
}

proof fn lemma_insert_members(s: Seq<Layer>, l: Layer)
    requires
        l.visible,
        forall|k: int| 0 <= k < s.len() ==> (#[trigger] s[k]).visible,
    ensures
        forall|k: int|
            0 <= k < insert_by_z(s, l).len() ==> (#[trigger] insert_by_z(s, l)[k]).visible,
        insert_by_z(s, l).len() == s.len() + 1,
    decreases s.len(),
{
    if !(s.len() == 0 || s.last().z_index <= l.z_index) {
        lemma_insert_members(s.drop_last(), l);
    }
}

/// Every layer in the paint order of the first `n` layers is visible.
proof fn lemma_prefix_visible(ls: Seq<Layer>, n: int)
    requires
        0 <= n <= ls.len(),
    ensures
        forall|k: int|
            0 <= k < paint_prefix(ls, n).len() ==> (#[trigger] paint_prefix(ls, n)[k]).visible,
    decreases n,
{
    if n > 0 {
        lemma_prefix_visible(ls, n - 1);
        if ls[n - 1].visible {
            lemma_insert_members(paint_prefix(ls, n - 1), ls[n - 1]);
        }
    }
}

// ---------------------------------------------------------------------------
// Properties of composition

proof fn lemma_scaled_covers(n: int, s: int)
    requires
        0 <= n <= u32::MAX,
        s >= 1000,
    ensures
        scaled_len(n, s) >= n,
{
    assert(n * s / 1000 >= n) by (nonlinear_arith)
        requires
            n >= 0,
            s >= 1000,
    ;
}

/// A solid layer that covers the whole frame: opaque colour, Normal blending,
/// at the origin, full opacity, scaled by at least one on both axes.
pub open spec fn is_opaque_cover(l: Layer) -> bool {
    &&& l.content matches LayerContent::SolidColor { color } && color.a == 255
    &&& l.blend_mode == BlendMode::Normal
    &&& l.transform.position == Point { x: 0, y: 0 }
    &&& l.transform.opacity == 1000
    &&& l.transform.scale.x >= 1000
    &&& l.transform.scale.y >= 1000
}

/// The colour of a solid layer.
pub open spec fn solid_color_of(l: Layer) -> Color {
    match l.content {
        LayerContent::SolidColor { color } => color,
        _ => Color { r: 0, g: 0, b: 0, a: 0 },
    }
}

impl Compositor {
    /// Rendering a layer that covers the whole frame opaquely leaves the
    /// frame filled with its colour, whatever was beneath.
    pub proof fn opaque_cover_fills(&self, canvas: Seq<u8>, l: Layer, resampled: Seq<u8>)
        requires
            canvas.len() == self.spec_width() * self.spec_height() * 4,
            is_opaque_cover(l),
        ensures
            self.render_spec(canvas, l, resampled) == Ok::<Seq<u8>, Layer>(
                filled_bytes(self.spec_width() * self.spec_height(), solid_color_of(l).pixel()),
            ),
    {
        let w = self.spec_width() as int;
        let h = self.spec_height() as int;
        let color = solid_color_of(l);
        let t = l.transform;
        lemma_scaled_covers(w, t.scale.x as int);
        lemma_scaled_covers(h, t.scale.y as int);
        assert(solid_pixel(color, t) == color.pixel());
        let pw = scaled_len(w, t.scale.x as int);
        let ph = scaled_len(h, t.scale.y as int);
        let out = painted(canvas, w, uniform_patch(color.pixel()), pw, ph, 0, 0, BlendMode::Normal);
        let target = filled_bytes(w * h, color.pixel());
        if w == 0 {
            assert(w * h == 0);
        }
        assert forall|k: int| 0 <= k < out.len() implies #[trigger] out[k] == target[k] by {
            let i = k / 4;
            assert(0 <= i < w * h);
            if w == 0 {
                assert(w * h == 0);
            }
            lemma_pixel_index(i, w, h);
            normal_opaque_top_replaces(pixel_of(canvas, i), color.pixel());
        };
        assert(out =~= target);
    }

    proof fn lemma_render_keeps_len(&self, canvas: Seq<u8>, l: Layer, resampled: Seq<u8>)
        requires
            self.render_spec(canvas, l, resampled) is Ok,
        ensures
            self.render_spec(canvas, l, resampled)->Ok_0.len() == canvas.len(),
    {
    }

    /// Composing no layers gives the background.
    pub proof fn empty_composition_is_background(&self)
        ensures
            self.composed(Seq::<Layer>::empty(), Seq::<Seq<u8>>::empty()) == Ok::<Seq<u8>, Layer>(
                self.background_bytes(),
            ),
    {
        assert(paint_order(Seq::<Layer>::empty()) =~= Seq::<Layer>::empty());
    }

    /// One visible layer that covers the frame opaquely composes to a frame
    /// filled with its colour.
    pub proof fn single_cover_fills(&self, l: Layer, rs: Seq<Seq<u8>>)
        requires
            l.visible,
            is_opaque_cover(l),
            rs.len() == 1,
        ensures
            self.composed(seq![l], rs) == Ok::<Seq<u8>, Layer>(
                filled_bytes(self.spec_width() * self.spec_height(), solid_color_of(l).pixel()),
            ),
    {
        let ls = seq![l];
        assert(paint_prefix(ls, 0) =~= Seq::<Layer>::empty());
        assert(paint_order(ls) =~= ls);
        assert(paint_order(ls).drop_last() =~= Seq::<Layer>::empty());
        let bg = self.background_bytes();
        assert(self.render_all(bg, Seq::<Layer>::empty(), rs.drop_last()) == Ok::<Seq<u8>, Layer>(
            bg,
        ));
        self.opaque_cover_fills(bg, l, rs.last());
    }

    /// Of two visible layers, the one with the higher z-index is painted
    /// last, whichever comes first in the list; if it covers the frame
    /// opaquely, the frame is its colour in both orders.
    pub proof fn higher_z_paints_last(&self, a: Layer, b: Layer, rs: Seq<Seq<u8>>)
        requires
            a.visible,
            b.visible,
            a.z_index < b.z_index,
            rs.len() == 2,
        ensures
            paint_order(seq![a, b]) == seq![a, b],
            paint_order(seq![b, a]) == seq![a, b],
            self.composed(seq![a, b], rs) == self.composed(seq![b, a], rs),
            is_opaque_cover(b) && self.render_spec(self.background_bytes(), a, rs[0]) is Ok
                ==> self.composed(seq![a, b], rs) == Ok::<Seq<u8>, Layer>(
                filled_bytes(self.spec_width() * self.spec_height(), solid_color_of(b).pixel()),
            ),
    {
        let ab = seq![a, b];
        let ba = seq![b, a];
        assert(paint_prefix(ab, 0) =~= Seq::<Layer>::empty());
        assert(paint_prefix(ba, 0) =~= Seq::<Layer>::empty());
        assert(paint_prefix(ab, 1) =~= seq![a]);
        assert(paint_prefix(ba, 1) =~= seq![b]);
        assert(seq![a].push(b) =~= seq![a, b]);
        assert(insert_by_z(seq![a], b) == seq![a].push(b));
        assert(seq![b].drop_last() =~= Seq::<Layer>::empty());
        assert(insert_by_z(Seq::<Layer>::empty(), a) =~= seq![a]);
        assert(insert_by_z(seq![b], a) =~= seq![a, b]);
        assert(paint_order(ab) =~= seq![a, b]);
        assert(paint_order(ba) =~= seq![a, b]);
        let bg = self.background_bytes();
        if is_opaque_cover(b) && self.render_spec(bg, a, rs[0]) is Ok {
            let ord = seq![a, b];
            assert(ord.drop_last() =~= seq![a]);
            assert(seq![a].drop_last() =~= Seq::<Layer>::empty());
            let r1 = rs.drop_last();
            assert(r1.last() == rs[0]);
            let c = self.render_spec(bg, a, rs[0])->Ok_0;
            assert(self.render_all(bg, Seq::<Layer>::empty(), r1.drop_last()) == Ok::<
                Seq<u8>,
                Layer,
            >(bg));
            assert(self.render_all(bg, seq![a], r1) == Ok::<Seq<u8>, Layer>(c));
            self.lemma_render_keeps_len(bg, a, rs[0]);
            self.opaque_cover_fills(c, b, rs.last());
        }
    }

    /// A hidden layer contributes nothing: removing it from the list leaves
    /// the paint order, and so the composition, unchanged.
    pub proof fn hidden_layer_is_ignored(&self, ls: Seq<Layer>, i: int, rs: Seq<Seq<u8>>)
        requires
            0 <= i < ls.len(),
            !ls[i].visible,
        ensures
            paint_order(ls) == paint_order(ls.remove(i)),
            self.composed(ls, rs) == self.composed(ls.remove(i), rs),
    {
        lemma_remove_hidden(ls, i, ls.len() as int);
    }

    /// A visible layer of raw pixels whose length is not `width · height · 4`
    /// fails composition with `InvalidLayer`.
    pub proof fn malformed_pixels_fail(&self, l: Layer, rs: Seq<Seq<u8>>)
        requires
            l.visible,
            l.content matches LayerContent::ImageData { data, width, height } && !pixel_data_fits(
                data@,
                width,
                height,
            ),
            rs.len() == 1,
        ensures
            self.composed(seq![l], rs) == Err::<Seq<u8>, Layer>(l),
            forall|e: Error| reports(e, l) <==> e is InvalidLayer,
    {
        let ls = seq![l];
        assert(paint_prefix(ls, 0) =~= Seq::<Layer>::empty());
        assert(paint_order(ls) =~= ls);
        assert(paint_order(ls).drop_last() =~= Seq::<Layer>::empty());
        let bg = self.background_bytes();
        assert(self.render_all(bg, Seq::<Layer>::empty(), rs.drop_last()) == Ok::<Seq<u8>, Layer>(
            bg,
        ));
    }

    /// A batch agrees with single compositions: every frame of a successful
    /// batch is a composition of its own list, composing that list alone
    /// succeeds too, and where no layer is resampled the two frames are equal.
    pub proof fn batch_matches_compose(
        &self,
        lists: Seq<Seq<Layer>>,
        frames: Vec<Frame>,
        j: int,
        single: Result<Frame, Error>,
    )
        requires
            self.is_batch(lists, Ok::<Vec<Frame>, Error>(frames)),
            0 <= j < lists.len(),
            self.is_composition(lists[j], single),
        ensures
            frames@.len() == lists.len(),
            self.is_composition(lists[j], Ok::<Frame, Error>(frames@[j])),
            single is Ok,
            resample_free(paint_order(lists[j])) ==> (single matches Ok(f) && (f@.width
                == frames@[j]@.width && f@.height == frames@[j]@.height && f@.data@
                == frames@[j]@.data@)),
    {
        let ls = lists[j];
        let ord = paint_order(ls);
        let bg = self.background_bytes();
        assert(self.is_composition(ls, Ok::<Frame, Error>(frames@[j])));
        let rs1 = choose|rs: Seq<Seq<u8>>|
            resamplings_fit(ord, rs) && #[trigger] self.is_composition_with(
                ls,
                rs,
                Ok::<Frame, Error>(frames@[j]),
            );
        let rs2 = choose|rs: Seq<Seq<u8>>|
            resamplings_fit(ord, rs) && #[trigger] self.is_composition_with(ls, rs, single);
        self.lemma_outcome_independent(bg, ord, rs1, rs2);
    }
}

proof fn lemma_remove_hidden(ls: Seq<Layer>, i: int, n: int)
    requires
        0 <= i < ls.len(),
        !ls[i].visible,
        0 <= n <= ls.len(),
    ensures
        n <= i ==> paint_prefix(ls, n) == paint_prefix(ls.remove(i), n),
        n > i ==> paint_prefix(ls, n) == paint_prefix(ls.remove(i), n - 1),
    decreases n,
{
    let r = ls.remove(i);
    if n > 0 {
        lemma_remove_hidden(ls, i, n - 1);
        if n - 1 < i {
            assert(ls[n - 1] == r[n - 1]);
        } else if n - 1 > i {
            assert(ls[n - 1] == r[n - 2]);
        }
    }
}

fn opacity_to_level(opacity: i32) -> (level: u8)
    ensures
        level as int == opacity_level(opacity as int),
{
    if opacity <= 0 {
        0
    } else if opacity >= UNIT {
        255
    } else {
        assert(opacity * 255 / 1000 <= 255) by (nonlinear_arith)
            requires
                0 < opacity < 1000,
        ;
        ((opacity as u32 * 255) / 1000) as u8
    }
}

fn to_pixel_offset(p: i32) -> (r: i64)
    ensures
        r as int == pixel_offset(p as int),
{
    let p = p as i64;
    if p >= 0 {
        p / 1000
    } else {
        -((-p) / 1000)
    }
}

fn scale_len(n: u32, s: i32) -> (r: u32)
    ensures
        r as int == scaled_len(n as int, s as int),
{
    assert(-0x7fff_ffff_ffff_ffff <= n * s <= 0x7fff_ffff_ffff_ffff) by (nonlinear_arith)
        requires
            0 <= n <= 0xffff_ffff,
            -0x8000_0000 <= s <= 0x7fff_ffff,
    ;
    let v: i64 = n as i64 * s as i64;
    if v < 0 {
        0
    } else {
        let q = v / 1000;
        if q > u32::MAX as i64 {
            u32::MAX
        } else {
            q as u32
        }
    }
}

fn fits_resize(width: u32, new_width: u32, new_height: u32) -> (r: bool)
    ensures
        r == resize_fits(width as int, new_width as int, new_height as int),
{
    assert(width * new_height * 16 <= 0xffff_ffff * 0xffff_ffff * 16) by (nonlinear_arith)
        requires
            width <= 0xffff_ffff,
            new_height <= 0xffff_ffff,
    ;
    assert(new_width * new_height * 4 <= 0xffff_ffff * 0xffff_ffff * 4) by (nonlinear_arith)
        requires
            new_width <= 0xffff_ffff,
            new_height <= 0xffff_ffff,
    ;
    let a: u128 = width as u128 * new_height as u128 * 16;
    let b: u128 = new_width as u128 * new_height as u128 * 4;
    a <= isize::MAX as u128 && b <= isize::MAX as u128
}

} // verus!
