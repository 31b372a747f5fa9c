//! Colour adjustments applied pixel by pixel to an image, leaving alpha as
//! it is. Amounts are in thousandths.
use vstd::prelude::*;

use crate::raster::Raster;

verus! {

/// A per-pixel colour adjustment.
#[derive(Debug, Clone, Copy, PartialEq, Eq, Structural)]
pub enum ColorAdjustment {
    /// Add `amount · 255 / 1000` (truncated) to each colour channel, with the
    /// amount first clamped to `-1000..=1000`.
    Brightness { amount: i32 },
    /// Scale each colour channel's distance from 128 by
    /// `max(0, 1 + amount / 1000)`.
    Contrast { amount: i32 },
    /// Move each colour channel away from the pixel's luminance
    /// (`0.299 R + 0.587 G + 0.114 B`) by the factor `1 + amount / 1000`.
    Saturation { amount: i32 },
    /// Turn the pixel's HSL hue by `degrees` thousandths of a degree,
    /// keeping saturation and lightness.
    HueRotate { degrees: i32 },
}

/// `v` forced into `lo..=hi`.
pub open spec fn clamp(v: int, lo: int, hi: int) -> int {
    if v < lo {
        lo
    } else if v > hi {
        hi
    } else {
        v
    }
}

/// `n / d` rounded toward zero, for `d > 0`.
pub open spec fn div_trunc(n: int, d: int) -> int {
    if n >= 0 {
        n / d
    } else {
        -((-n) / d)
    }
}

/// `n / d` rounded down and held to `0..=255`, for `d > 0`.
pub open spec fn channel_of(n: int, d: int) -> int {
    clamp(n / d, 0, 255)
}

/// The luminance of a pixel, scaled by 1000.
pub open spec fn luma_milli(r: int, g: int, b: int) -> int {
    299 * r + 587 * g + 114 * b
}

pub open spec fn max3(a: int, b: int, c: int) -> int {
    if a >= b && a >= c {
        a
    } else if b >= c {
        b
    } else {
        c
    }
}

pub open spec fn min3(a: int, b: int, c: int) -> int {
    if a <= b && a <= c {
        a
    } else if b <= c {
        b
    } else {
        c
    }
}

/// One turn of hue for a pixel whose channels span `d`: hue positions are
/// fractions of this, so that the arithmetic below stays exact.
pub open spec fn turn_of(d: int) -> int {
    6 * d * 360000
}

/// The HSL hue of `(r, g, b)` in sixths of a turn, scaled by the span
/// `max − min`: a value in `0..6·span`.
pub open spec fn hue_scaled(r: int, g: int, b: int) -> int {
    let mx = max3(r, g, b);
    let d = mx - min3(r, g, b);
    if mx == r {
        g - b + if g < b {
            6 * d
        } else {
            0
        }
    } else if mx == g {
        b - r + 2 * d
    } else {
        r - g + 4 * d
    }
}

/// A channel of the HSL-to-RGB conversion, in 360000ths of a channel step,
/// at hue position `t` (in units of `turn`), between the levels `mn` and
/// `mx` that the pixel's lightness and saturation give.
pub open spec fn hue_ramp(mn: int, mx: int, turn: int, t: int) -> int {
    let t1 = if t < 0 {
        t + turn
    } else {
        t
    };
    let t2 = if t1 > turn {
        t1 - turn
    } else {
        t1
    };
    if 6 * t2 < turn {
        mn * 360000 + t2
    } else if 2 * t2 < turn {
        mx * 360000
    } else if 3 * t2 < 2 * turn {
        mn * 360000 + 2 * turn / 3 - t2
    } else {
        mn * 360000
    }
}

/// Colour channel `c` of `px` with its hue turned by `degrees` thousandths of
/// a degree. A grey pixel stays as it is.
pub open spec fn hue_rotated_channel(px: Seq<u8>, degrees: int, c: int) -> int {
    let (r, g, b) = (px[0] as int, px[1] as int, px[2] as int);
    let mx = max3(r, g, b);
    let mn = min3(r, g, b);
    let d = mx - mn;
    if d == 0 {
        px[c] as int
    } else {
        let turn = turn_of(d);
        let h = (hue_scaled(r, g, b) * 360000 + 6 * d * degrees) % turn;
        channel_of(hue_ramp(mn, mx, turn, h + (1 - c) * (turn / 3)), 360000)
    }
}

/// Colour channel `c` (0, 1 or 2) of `px` after the adjustment.
pub open spec fn adjusted_channel(adj: ColorAdjustment, px: Seq<u8>, c: int) -> int {
    let v = px[c] as int;
    match adj {
        ColorAdjustment::Brightness { amount } => clamp(
            v + div_trunc(clamp(amount as int, -1000, 1000) * 255, 1000),
            0,
            255,
        ),
        ColorAdjustment::Contrast { amount } => {
            let f = if amount < -1000 {
                0
            } else {
                1000 + amount
            };
            channel_of((v - 128) * f + 128000, 1000)
        },
        ColorAdjustment::Saturation { amount } => {
            let f = 1000 + amount;
            let l = luma_milli(px[0] as int, px[1] as int, px[2] as int);
            channel_of(l * 1000 + (1000 * v - l) * f, 1000000)
        },
        ColorAdjustment::HueRotate { degrees } => hue_rotated_channel(px, degrees as int, c),
    }
}

/// `px` after the adjustment; alpha is kept.
pub open spec fn adjusted_pixel(adj: ColorAdjustment, px: Seq<u8>) -> Seq<u8> {
    seq![
        adjusted_channel(adj, px, 0) as u8,
        adjusted_channel(adj, px, 1) as u8,
        adjusted_channel(adj, px, 2) as u8,
        px[3],
    ]
}

/// Every pixel of `data` adjusted.
pub open spec fn adjusted(adj: ColorAdjustment, data: Seq<u8>) -> Seq<u8> {
    Seq::new(data.len(), |k: int| adjusted_pixel(adj, data.subrange(4 * (k / 4), 4 * (k / 4) + 4))[k % 4])
}

fn clamp_amount(amount: i32) -> (r: i64)
    ensures
        r == clamp(amount as int, -1000, 1000),
{
    if amount < -1000 {
        -1000
    } else if amount > 1000 {
        1000
    } else {
        amount as i64
    }
}

/// `n / d` rounded down and held to `0..=255`.
fn to_channel(n: i64, d: i64) -> (r: u8)
    requires
        d > 0,
    ensures
        r as int == channel_of(n as int, d as int),
{
    if n < 0 {
        assert(n / d < 0) by (nonlinear_arith)
            requires
                n < 0,
                d > 0,
        ;
        0
    } else {
        let q = n / d;
        if q > 255 {
            255
        } else {
            q as u8
        }
    }
}

fn max_of(a: i64, b: i64, c: i64) -> (r: i64)
    ensures
        r == max3(a as int, b as int, c as int),
{
    if a >= b && a >= c {
        a
    } else if b >= c {
        b
    } else {
        c
    }
}

fn min_of(a: i64, b: i64, c: i64) -> (r: i64)
    ensures
        r == min3(a as int, b as int, c as int),
{
    if a <= b && a <= c {
        a
    } else if b <= c {
        b
    } else {
        c
    }
}

/// The hue position of a pixel turned by `degrees`, in units of its turn.
fn turned_hue(hs: i64, d: i64, degrees: i32) -> (h: i64)
    requires
        0 < d <= 255,
        0 <= hs < 6 * d,
    ensures
        h == (hs * 360000 + 6 * d * degrees) % turn_of(d as int),
        0 <= h < turn_of(d as int),
{
    let turn: i64 = 6 * d * 360000;
    assert(-0x8000_0000 * 6 * 255 <= 6 * d * degrees <= 0x7fff_ffff * 6 * 255) by (nonlinear_arith)
        requires
            0 < d <= 255,
            -0x8000_0000 <= degrees <= 0x7fff_ffff,
    ;
    let n: i64 = hs * 360000 + 6 * d * degrees as i64;
    if n >= 0 {
        assert(0 <= n % turn < turn) by (nonlinear_arith)
            requires
                turn > 0,
                n >= 0,
        ;
        n % turn
    } else {
        let r = (-n) % turn;
        assert(0 <= r < turn);
        proof {
            lemma_negative_mod(n as int, turn as int, r as int);
        }
        if r == 0 {
            0
        } else {
            turn - r
        }
    }
}

/// The Euclidean remainder of a negative `n` from the remainder of `-n`.
proof fn lemma_negative_mod(n: int, d: int, r: int)
    requires
        n < 0,
        d > 0,
        r == (-n) % d,
    ensures
        n % d == if r == 0 {
            0
        } else {
            d - r
        },
{
    let q = (-n) / d;
    assert(-n == q * d + r) by (nonlinear_arith)
        requires
            d > 0,
            q == (-n) / d,
            r == (-n) % d,
    ;
    assert(0 <= r < d) by (nonlinear_arith)
        requires
            d > 0,
            r == (-n) % d,
    ;
    if r == 0 {
        assert(n == (-q) * d) by (nonlinear_arith)
            requires
                -n == q * d + r,
                r == 0,
        ;
        assert(n % d == 0) by (nonlinear_arith)
            requires
                n == (-q) * d,
                d > 0,
        ;
    } else {
        assert(n == (-q - 1) * d + (d - r)) by (nonlinear_arith)
            requires
                -n == q * d + r,
        ;
        assert(n % d == d - r) by (nonlinear_arith)
            requires
                n == (-q - 1) * d + (d - r),
                0 < d - r < d,
        ;
    }
}

fn ramp(mn: i64, mx: i64, turn: i64, t: i64) -> (v: i64)
    requires
        0 <= mn <= mx <= 255,
        0 < turn <= 6 * 255 * 360000,
        -2 * turn < t < 2 * turn,
    ensures
        v == hue_ramp(mn as int, mx as int, turn as int, t as int),
{
    let t1 = if t < 0 {
        t + turn
    } else {
        t
    };
    let t2 = if t1 > turn {
        t1 - turn
    } else {
        t1
    };
    if 6 * t2 < turn {
        mn * 360000 + t2
    } else if 2 * t2 < turn {
        mx * 360000
    } else if 3 * t2 < 2 * turn {
        mn * 360000 + 2 * turn / 3 - t2
    } else {
        mn * 360000
    }
}

fn hue_rotated(px: [u8; 4], degrees: i32, c: usize) -> (r: u8)
    requires
        c < 3,
    ensures
        r as int == hue_rotated_channel(px@, degrees as int, c as int),
{
    let (r, g, b) = (px[0] as i64, px[1] as i64, px[2] as i64);
    let mx = max_of(r, g, b);
    let mn = min_of(r, g, b);
    let d = mx - mn;
    if d == 0 {
        return px[c];
    }
    let hs: i64 = if mx == r {
        g - b + if g < b {
            6 * d
        } else {
            0
        }
    } else if mx == g {
        b - r + 2 * d
    } else {
        r - g + 4 * d
    };
    let h = turned_hue(hs, d, degrees);
    let turn: i64 = 6 * d * 360000;
    let third = turn / 3;
    let shift: i64 = if c == 0 {
        third
    } else if c == 1 {
        0
    } else {
        -third
    };
    assert(shift == (1 - c) * (turn / 3));
    to_channel(ramp(mn, mx, turn, h + shift), 360000)
}

impl ColorAdjustment {
    fn channel(&self, px: [u8; 4], c: usize) -> (r: u8)
        requires
            c < 3,
        ensures
            r as int == adjusted_channel(*self, px@, c as int),
    {
        let v = px[c] as i64;
        match self {
            ColorAdjustment::Brightness { amount } => {
                let a = clamp_amount(*amount) * 255;
                let adj = if a >= 0 {
                    a / 1000
                } else {
                    -((-a) / 1000)
                };
                let s = v + adj;
                if s < 0 {
                    0
                } else if s > 255 {
                    255
                } else {
                    s as u8
                }
            },
            ColorAdjustment::Contrast { amount } => {
                let f: i64 = if *amount < -1000 {
                    0
                } else {
                    1000 + *amount as i64
                };
                assert(-128 * 0x8000_1000 <= (v - 128) * f <= 127 * 0x8000_1000) by (nonlinear_arith)
                    requires
                        0 <= v <= 255,
                        0 <= f <= 0x8000_1000,
                ;
                to_channel((v - 128) * f + 128000, 1000)
            },
            ColorAdjustment::Saturation { amount } => {
                let f: i64 = 1000 + *amount as i64;
                let l = 299 * px[0] as i64 + 587 * px[1] as i64 + 114 * px[2] as i64;
                assert(-255000 * 0x8000_1000 <= (1000 * v - l) * f <= 255000 * 0x8000_1000)
                    by (nonlinear_arith)
                    requires
                        0 <= v <= 255,
                        0 <= l <= 255000,
                        -0x8000_1000 <= f <= 0x8000_1000,
                ;
                to_channel(l * 1000 + (1000 * v - l) * f, 1000000)
            },
            ColorAdjustment::HueRotate { degrees } => hue_rotated(px, *degrees, c),
        }
    }

    /// The pixel after this adjustment; alpha is kept.
    pub fn adjust_pixel(&self, px: [u8; 4]) -> (r: [u8; 4])
        ensures
            r@ == adjusted_pixel(*self, px@),
    {
        let r = [self.channel(px, 0), self.channel(px, 1), self.channel(px, 2), px[3]];
        assert(r@ =~= adjusted_pixel(*self, px@));
        r
    }

    /// A new image of the same size with every pixel adjusted.
    pub fn apply(&self, image: &Raster) -> (r: Raster)
        requires
            image.wf(),
        ensures
            r.wf(),
            r.width == image.width,
            r.height == image.height,
            r.data@ == adjusted(*self, image.data@),
    {
        let len = image.data.len();
        assert(len == image.width * image.height * 4);
        let n: usize = image.width as usize * image.height as usize;
        let mut data: Vec<u8> = Vec::with_capacity(len);
        let mut i: usize = 0;
        while i < n
            invariant
                n * 4 == image.data@.len(),
                len == image.data@.len(),
                i <= n,
                data@.len() == 4 * i,
                forall|k: int| 0 <= k < 4 * i ==> #[trigger] data@[k] == adjusted(*self, image.data@)[k],
            decreases n - i,
        {
            let b = 4 * i;
            let px = [image.data[b], image.data[b + 1], image.data[b + 2], image.data[b + 3]];
            assert(px@ =~= image.data@.subrange(4 * i, 4 * i + 4));
            let out = self.adjust_pixel(px);
            data.push(out[0]);
            data.push(out[1]);
            data.push(out[2]);
            data.push(out[3]);
            assert forall|k: int| b <= k < b + 4 implies #[trigger] adjusted(*self, image.data@)[k]
                == out@[k - b] by {
                assert(k / 4 == i);
                assert(k % 4 == k - b);
            };
            i += 1;
        }
        assert(data@ =~= adjusted(*self, image.data@));
        Raster { width: image.width, height: image.height, data }
    }
}

} // verus!
