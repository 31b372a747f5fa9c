//! Blend modes: pure functions combining a bottom and a top RGBA pixel.
//!
//! Channels are read as fractions of 255 and every formula is evaluated
//! exactly; the result is scaled back to 0..=255 and truncated. All the
//! arithmetic below is that evaluation written over integers.
use vstd::prelude::*;

verus! {

/// How a layer's pixel combines with the pixel beneath it.
#[derive(Debug, Clone, Copy, PartialEq, Eq, Structural)]
pub enum BlendMode {
    /// Standard alpha compositing (the default).
    Normal,
    /// Product of the colours (darkens).
    Multiply,
    /// Inverse product of the inverted colours (lightens).
    Screen,
    /// Multiply below mid-grey, screen above, switching on the bottom colour.
    Overlay,
    /// Sum of the colours, capped at full intensity.
    Add,
    /// Bottom minus top, floored at zero.
    Subtract,
    /// The lighter of the two colours.
    Lighten,
    /// The darker of the two colours.
    Darken,
}

/// `255²`: a product of two channel fractions carries this denominator.
pub const FULL_SQ: u32 = 65025;

/// The top-over-bottom coverage `ta + ba·(1 − ta)`, scaled by `255²`.
pub open spec fn coverage(ba: int, ta: int) -> int {
    255 * ta + ba * (255 - ta)
}

/// Output alpha of every mode: the coverage, back on the 0..=255 scale.
pub open spec fn alpha_out(ba: int, ta: int) -> int {
    coverage(ba, ta) / 255
}

/// A Normal colour channel: `(tc·ta + bc·ba·(1 − ta)) / coverage`, or 0 when
/// nothing covers the pixel.
pub open spec fn normal_channel(bc: int, ba: int, tc: int, ta: int) -> int {
    let w = coverage(ba, ta);
    if w == 0 {
        0
    } else {
        (tc * ta * 255 + bc * ba * (255 - ta)) / w
    }
}

/// The separable blend function of Multiply, Screen and Overlay on one
/// channel, scaled by `255²`.
pub open spec fn separable(mode: BlendMode, bc: int, tc: int) -> int {
    match mode {
        BlendMode::Multiply => bc * tc,
        BlendMode::Screen => 65025 - (255 - bc) * (255 - tc),
        _ => if 2 * bc < 255 {
            2 * bc * tc
        } else {
            65025 - 2 * (255 - bc) * (255 - tc)
        },
    }
}

/// A blended value (scaled by `255²`) mixed back over the bottom colour with
/// the top alpha as weight: `blended·ta + bc·(1 − ta)`.
pub open spec fn mix_channel(blended: int, bc: int, ta: int) -> int {
    (blended * ta + 255 * bc * (255 - ta)) / 65025
}

/// One colour channel of `mode` applied to bottom `(bc, ba)` and top `(tc, ta)`.
pub open spec fn blend_channel(mode: BlendMode, bc: int, ba: int, tc: int, ta: int) -> int {
    match mode {
        BlendMode::Normal => normal_channel(bc, ba, tc, ta),
        BlendMode::Multiply | BlendMode::Screen | BlendMode::Overlay => mix_channel(
            separable(mode, bc, tc),
            bc,
            ta,
        ),
        BlendMode::Add => if bc + tc > 255 {
            255
        } else {
            bc + tc
        },
        BlendMode::Subtract => if bc < tc {
            0
        } else {
            bc - tc
        },
        BlendMode::Lighten => if bc < tc {
            tc
        } else {
            bc
        },
        BlendMode::Darken => if bc < tc {
            bc
        } else {
            tc
        },
    }
}

/// The pixel that `mode` makes of `bottom` under `top` (both `[r, g, b, a]`).
pub open spec fn blend_pixel(mode: BlendMode, bottom: Seq<u8>, top: Seq<u8>) -> Seq<u8> {
    let ba = bottom[3] as int;
    let ta = top[3] as int;
    seq![
        blend_channel(mode, bottom[0] as int, ba, top[0] as int, ta) as u8,
        blend_channel(mode, bottom[1] as int, ba, top[1] as int, ta) as u8,
        blend_channel(mode, bottom[2] as int, ba, top[2] as int, ta) as u8,
        alpha_out(ba, ta) as u8,
    ]
}

proof fn lemma_coverage_bounds(ba: int, ta: int)
    requires
        0 <= ba <= 255,
        0 <= ta <= 255,
    ensures
        0 <= coverage(ba, ta) <= 65025,
        coverage(ba, ta) == 0 <==> (ba == 0 && ta == 0),
{
    assert(0 <= ba * (255 - ta) <= 255 * (255 - ta)) by (nonlinear_arith)
        requires
            0 <= ba <= 255,
            0 <= ta <= 255,
    ;
    if ta == 0 && coverage(ba, ta) == 0 {
        assert(ba * 255 == 0);
    }
}

proof fn lemma_normal_bounds(bc: int, ba: int, tc: int, ta: int)
    requires
        0 <= bc <= 255,
        0 <= ba <= 255,
        0 <= tc <= 255,
        0 <= ta <= 255,
    ensures
        0 <= normal_channel(bc, ba, tc, ta) <= 255,
        0 <= tc * ta * 255 + bc * ba * (255 - ta) <= 255 * 65025,
{
    let w = coverage(ba, ta);
    let n = tc * ta * 255 + bc * ba * (255 - ta);
    assert(0 <= tc * ta * 255 <= 255 * ta * 255) by (nonlinear_arith)
        requires
            0 <= tc <= 255,
            0 <= ta <= 255,
    ;
    assert(0 <= bc * ba * (255 - ta) <= 255 * (ba * (255 - ta))) by (nonlinear_arith)
        requires
            0 <= bc <= 255,
            0 <= ba <= 255,
            0 <= ta <= 255,
    ;
    lemma_coverage_bounds(ba, ta);
    assert(n <= 255 * w);
    if w != 0 {
        assert(n / w <= 255) by (nonlinear_arith)
            requires
                0 <= n <= 255 * w,
                w > 0,
        ;
        assert(0 <= n / w) by (nonlinear_arith)
            requires
                0 <= n,
                w > 0,
        ;
    }
}

proof fn lemma_mix_bounds(blended: int, bc: int, ta: int)
    requires
        0 <= blended <= 65025,
        0 <= bc <= 255,
        0 <= ta <= 255,
    ensures
        0 <= mix_channel(blended, bc, ta) <= 255,
        0 <= blended * ta + 255 * bc * (255 - ta) <= 255 * 65025,
{
    assert(0 <= blended * ta <= 65025 * ta) by (nonlinear_arith)
        requires
            0 <= blended <= 65025,
            0 <= ta <= 255,
    ;
    assert(0 <= 255 * bc * (255 - ta) <= 65025 * (255 - ta)) by (nonlinear_arith)
        requires
            0 <= bc <= 255,
            0 <= ta <= 255,
    ;
}

proof fn lemma_separable_bounds(mode: BlendMode, bc: int, tc: int)
    requires
        0 <= bc <= 255,
        0 <= tc <= 255,
    ensures
        0 <= separable(mode, bc, tc) <= 65025,
{
    assert(0 <= bc * tc <= 65025) by (nonlinear_arith)
        requires
            0 <= bc <= 255,
            0 <= tc <= 255,
    ;
    assert(0 <= (255 - bc) * (255 - tc) <= 65025) by (nonlinear_arith)
        requires
            0 <= bc <= 255,
            0 <= tc <= 255,
    ;
    if 2 * bc < 255 {
        assert(0 <= 2 * bc * tc <= 254 * 255) by (nonlinear_arith)
            requires
                0 <= 2 * bc <= 254,
                0 <= tc <= 255,
        ;
    } else {
        assert(0 <= 2 * (255 - bc) * (255 - tc) <= 254 * 255) by (nonlinear_arith)
            requires
                0 <= 2 * (255 - bc) <= 254,
                0 <= tc <= 255,
        ;
    }
}

impl BlendMode {
    /// One colour channel of this mode; `bc`, `tc` are the bottom and top
    /// channel values and `ba`, `ta` their alphas.
    fn channel(&self, bc: u8, ba: u8, tc: u8, ta: u8) -> (r: u8)
        ensures
            r as int == blend_channel(*self, bc as int, ba as int, tc as int, ta as int),
    {
        let (bc, ba, tc, ta) = (bc as u32, ba as u32, tc as u32, ta as u32);
        match self {
            BlendMode::Normal => {
                proof {
                    lemma_coverage_bounds(ba as int, ta as int);
                    lemma_normal_bounds(bc as int, ba as int, tc as int, ta as int);
                    assert(bc * ba <= 65025 && tc * ta <= 65025) by (nonlinear_arith)
                        requires
                            bc <= 255,
                            ba <= 255,
                            tc <= 255,
                            ta <= 255,
                    ;
                    assert(bc * ba * (255 - ta) <= 65025 * 255) by (nonlinear_arith)
                        requires
                            bc * ba <= 65025,
                            ta <= 255,
                    ;
                    assert(ba * (255 - ta) <= 65025) by (nonlinear_arith)
                        requires
                            ba <= 255,
                            ta <= 255,
                    ;
                }
                let w = 255 * ta + ba * (255 - ta);
                if w == 0 {
                    0
                } else {
                    ((tc * ta * 255 + bc * ba * (255 - ta)) / w) as u8
                }
            },
            BlendMode::Multiply | BlendMode::Screen | BlendMode::Overlay => {
                proof {
                    lemma_separable_bounds(*self, bc as int, tc as int);
                    assert(0 <= (255 - bc) * (255 - tc) <= 65025) by (nonlinear_arith)
                        requires
                            0 <= bc <= 255,
                            0 <= tc <= 255,
                    ;
                    assert(bc * tc <= 65025) by (nonlinear_arith)
                        requires
                            0 <= bc <= 255,
                            0 <= tc <= 255,
                    ;
                }
                let blended: u32 = match self {
                    BlendMode::Multiply => bc * tc,
                    BlendMode::Screen => FULL_SQ - (255 - bc) * (255 - tc),
                    _ => if 2 * bc < 255 {
                        2 * bc * tc
                    } else {
                        FULL_SQ - 2 * (255 - bc) * (255 - tc)
                    },
                };
                assert(blended == separable(*self, bc as int, tc as int));
                proof {
                    lemma_mix_bounds(blended as int, bc as int, ta as int);
                }
                ((blended * ta + 255 * bc * (255 - ta)) / FULL_SQ) as u8
            },
            BlendMode::Add => if bc + tc > 255 {
                255
            } else {
                (bc + tc) as u8
            },
            BlendMode::Subtract => if bc < tc {
                0
            } else {
                (bc - tc) as u8
            },
            BlendMode::Lighten => if bc < tc {
                tc as u8
            } else {
                bc as u8
            },
            BlendMode::Darken => if bc < tc {
                bc as u8
            } else {
                tc as u8
            },
        }
    }

    /// Blend `top` over `bottom` (both `[r, g, b, a]`, straight alpha).
    ///
    /// The output alpha is the top-over-bottom coverage in every mode. The
    /// colour is Normal alpha compositing; Multiply, Screen and Overlay mix
    /// their blended colour back over the bottom by the top alpha; Add,
    /// Subtract, Lighten and Darken use the raw channel result unmixed.
    pub fn blend(&self, bottom: [u8; 4], top: [u8; 4]) -> (r: [u8; 4])
        ensures
            r@ == blend_pixel(*self, bottom@, top@),
    {
        proof {
            lemma_coverage_bounds(bottom[3] as int, top[3] as int);
        }
        let ba = bottom[3];
        let ta = top[3];
        let r = self.channel(bottom[0], ba, top[0], ta);
        let g = self.channel(bottom[1], ba, top[1], ta);
        let b = self.channel(bottom[2], ba, top[2], ta);
        let a = ((255 * ta as u32 + ba as u32 * (255 - ta as u32)) / 255) as u8;
        let out = [r, g, b, a];
        assert(out@ =~= blend_pixel(*self, bottom@, top@));
        out
    }

}

impl Default for BlendMode {
    /// [`BlendMode::Normal`].
    fn default() -> (m: BlendMode)
        ensures
            m == BlendMode::Normal,
    {
        BlendMode::Normal
    }
}

/// Under Normal blending a fully transparent top pixel leaves nothing of its
/// own: over a transparent bottom the result is transparent black, and over
/// any other bottom it is the bottom pixel unchanged.
pub proof fn normal_over_transparent_top(bottom: Seq<u8>, top: Seq<u8>)
    requires
        bottom.len() == 4,
        top.len() == 4,
        top[3] == 0,
    ensures
        bottom[3] == 0 ==> blend_pixel(BlendMode::Normal, bottom, top) == seq![0u8, 0u8, 0u8, 0u8],
        bottom[3] != 0 ==> blend_pixel(BlendMode::Normal, bottom, top) == bottom,
{
    let ba = bottom[3] as int;
    lemma_coverage_bounds(ba, 0);
    assert forall|bc: int, tc: int| 0 <= bc <= 255 && 0 <= tc <= 255 implies normal_channel(
        bc,
        ba,
        tc,
        0,
    ) == if ba == 0 {
        0
    } else {
        bc
    } by {
        if ba != 0 {
            assert(tc * 0 * 255 + bc * ba * (255 - 0) == bc * (ba * 255)) by (nonlinear_arith);
            assert(bc * (ba * 255) / (ba * 255) == bc) by (nonlinear_arith)
                requires
                    ba > 0,
            ;
        }
    };
    if ba == 0 {
        assert(blend_pixel(BlendMode::Normal, bottom, top) =~= seq![0u8, 0u8, 0u8, 0u8]);
    } else {
        assert(alpha_out(ba, 0) == ba);
        assert(blend_pixel(BlendMode::Normal, bottom, top) =~= bottom);
    }
}

/// An opaque top pixel under Normal blending replaces the bottom pixel.
pub proof fn normal_opaque_top_replaces(bottom: Seq<u8>, top: Seq<u8>)
    requires
        bottom.len() == 4,
        top.len() == 4,
        top[3] == 255,
    ensures
        blend_pixel(BlendMode::Normal, bottom, top) == top,
{
    let ba = bottom[3] as int;
    assert(coverage(ba, 255) == 65025);
    assert forall|bc: int, tc: int| 0 <= tc <= 255 implies normal_channel(bc, ba, tc, 255)
        == tc by {
        assert(tc * 255 * 255 + bc * ba * (255 - 255) == tc * 65025) by (nonlinear_arith);
        assert(tc * 65025 / 65025 == tc) by (nonlinear_arith);
    };
    assert(blend_pixel(BlendMode::Normal, bottom, top) =~= top);
}

} // verus!
