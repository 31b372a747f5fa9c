//! An owned RGBA8 pixel buffer, and the pixel-level operations that
//! composition is built from: filling, fading and painting a patch.
use vstd::prelude::*;

use crate::blend::{blend_pixel, BlendMode};

verus! {

/// Row-major RGBA8 pixels with straight alpha and no padding between rows.
#[derive(Debug, Clone, PartialEq, Eq)]
pub struct Raster {
    pub width: u32,
    pub height: u32,
    pub data: Vec<u8>,
}

/// The four bytes of pixel `i` in a row-major RGBA8 buffer.
pub open spec fn pixel_of(data: Seq<u8>, i: int) -> Seq<u8> {
    data.subrange(4 * i, 4 * i + 4)
}

/// A buffer of `n` pixels, each equal to `px`.
pub open spec fn filled_bytes(n: int, px: Seq<u8>) -> Seq<u8> {
    Seq::new((4 * n) as nat, |k: int| px[k % 4])
}

/// The alpha level `level / 255` applied to every pixel: each alpha byte
/// becomes `alpha · level / 255`, colour bytes stay.
pub open spec fn faded(data: Seq<u8>, level: int) -> Seq<u8> {
    Seq::new(data.len(), |k: int| if k % 4 == 3 {
        (data[k] * level / 255) as u8
    } else {
        data[k]
    })
}

/// Whether the pixel at `(px, py)` lies under a `pw`×`ph` patch placed with
/// its top-left corner at `(x, y)`.
pub open spec fn covers(pw: int, ph: int, x: int, y: int, px: int, py: int) -> bool {
    x <= px < x + pw && y <= py < y + ph
}

/// The pixels of an image of row length `w` as a patch: `(sx, sy)` reads pixel
/// `sy · w + sx`.
pub open spec fn image_patch(data: Seq<u8>, w: int) -> spec_fn(int, int) -> Seq<u8> {
    |sx: int, sy: int| pixel_of(data, sy * w + sx)
}

/// A patch that is `px` everywhere.
pub open spec fn uniform_patch(px: Seq<u8>) -> spec_fn(int, int) -> Seq<u8> {
    |sx: int, sy: int| px
}

/// `dest` (rows of `dw` pixels) after a `pw`×`ph` patch has been blended onto
/// it by `mode` with its top-left corner at `(x, y)`. Every pixel under the
/// patch becomes the blend of itself and the patch pixel above it; every
/// other pixel is kept, and patch pixels outside `dest` are dropped.
pub open spec fn painted(
    dest: Seq<u8>,
    dw: int,
    patch: spec_fn(int, int) -> Seq<u8>,
    pw: int,
    ph: int,
    x: int,
    y: int,
    mode: BlendMode,
) -> Seq<u8> {
    Seq::new(
        dest.len(),
        |k: int|
            {
                let i = k / 4;
                let px = i % dw;
                let py = i / dw;
                if covers(pw, ph, x, y, px, py) {
                    blend_pixel(mode, pixel_of(dest, i), patch(px - x, py - y))[k % 4]
                } else {
                    dest[k]
                }
            },
    )
}

impl Raster {
    /// The buffer holds exactly `width · height` pixels.
    pub open spec fn wf(&self) -> bool {
        self.data@.len() == self.width * self.height * 4
    }

    /// A `width`×`height` buffer with every pixel equal to `px`.
    pub fn filled(width: u32, height: u32, px: [u8; 4]) -> (r: Raster)
        requires
            width * height * 4 <= usize::MAX,
        ensures
            r.wf(),
            r.width == width,
            r.height == height,
            r.data@ == filled_bytes(width * height, px@),
    {
        let n: usize = width as usize * height as usize;
        let mut data: Vec<u8> = Vec::with_capacity(n * 4);
        let mut i: usize = 0;
        while i < n
            invariant
                n == width * height,
                n * 4 <= usize::MAX,
                i <= n,
                data@.len() == 4 * i,
                forall|k: int| 0 <= k < 4 * i ==> #[trigger] data@[k] == px@[k % 4],
            decreases n - i,
        {
            data.push(px[0]);
            data.push(px[1]);
            data.push(px[2]);
            data.push(px[3]);
            i += 1;
        }
        assert(data@ =~= filled_bytes(width * height, px@));
        Raster { width, height, data }
    }

    /// Scale every alpha byte by `level / 255` (truncating); colours stay.
    pub fn fade(&mut self, level: u8)
        requires
            old(self).wf(),
        ensures
            final(self).wf(),
            final(self).width == old(self).width,
            final(self).height == old(self).height,
            final(self).data@ == faded(old(self).data@, level as int),
    {
        let len = self.data.len();
        assert(len == self.width * self.height * 4);
        let n: usize = self.width as usize * self.height as usize;
        let mut i: usize = 0;
        while i < n
            invariant
                n * 4 <= usize::MAX,
                self.width == old(self).width,
                self.height == old(self).height,
                self.data@.len() == old(self).data@.len(),
                old(self).data@.len() == 4 * n,
                i <= n,
                forall|k: int|
                    0 <= k < self.data@.len() ==> #[trigger] self.data@[k] == if k < 4 * i {
                        faded(old(self).data@, level as int)[k]
                    } else {
                        old(self).data@[k]
                    },
            decreases n - i,
        {
            let a = self.data[4 * i + 3];
            assert(a * level / 255 <= 255) by (nonlinear_arith)
                requires
                    a <= 255,
                    level <= 255,
            ;
            let v = ((a as u32 * level as u32) / 255) as u8;
            self.data.set(4 * i + 3, v);
            i += 1;
        }
        assert(self.data@ =~= faded(old(self).data@, level as int));
    }
}

pub(crate) proof fn lemma_pixel_index(i: int, w: int, h: int)
    requires
        0 <= i < w * h,
        w > 0,
    ensures
        0 <= i % w < w,
        0 <= i / w < h,
        i == (i / w) * w + i % w,
{
    assert(0 <= i / w < h) by (nonlinear_arith)
        requires
            0 <= i < w * h,
            w > 0,
    ;
    assert(i == (i / w) * w + i % w) by (nonlinear_arith)
        requires
            w > 0,
    ;
}

proof fn lemma_source_index(sx: int, sy: int, w: int, h: int)
    requires
        0 <= sx < w,
        0 <= sy < h,
    ensures
        0 <= sy * w + sx,
        4 * (sy * w + sx) + 4 <= w * h * 4,
{
    assert(sy * w + sx < w * h) by (nonlinear_arith)
        requires
            0 <= sx < w,
            0 <= sy < h,
    ;
    assert(0 <= sy * w) by (nonlinear_arith)
        requires
            0 <= sx < w,
            0 <= sy,
    ;
}

/// Blend onto `dest`, by `mode`, a `pw`×`ph` patch whose top-left corner is at
/// `(x, y)`. The patch is the pixels of `src` where it is given (`pw`, `ph` are
/// then its size), and `fill` everywhere otherwise.
pub(crate) fn paint(
    dest: &mut Raster,
    src: Option<&Raster>,
    fill: [u8; 4],
    pw: u64,
    ph: u64,
    x: i64,
    y: i64,
    mode: BlendMode,
)
    requires
        old(dest).wf(),
        src matches Some(s) ==> s.wf() && s.width == pw && s.height == ph,
    ensures
        final(dest).wf(),
        final(dest).width == old(dest).width,
        final(dest).height == old(dest).height,
        final(dest).data@ == painted(
            old(dest).data@,
            old(dest).width as int,
            match src {
                Some(s) => image_patch(s.data@, s.width as int),
                None => uniform_patch(fill@),
            },
            pw as int,
            ph as int,
            x as int,
            y as int,
            mode,
        ),
{
    let ghost patch = match src {
        Some(s) => image_patch(s.data@, s.width as int),
        None => uniform_patch(fill@),
    };
    let ghost target = painted(
        old(dest).data@,
        old(dest).width as int,
        patch,
        pw as int,
        ph as int,
        x as int,
        y as int,
        mode,
    );
    let dw = dest.width as usize;
    let len = dest.data.len();
    assert(len == dw * dest.height * 4);
    let n: usize = dw * dest.height as usize;
    let mut i: usize = 0;
    while i < n
        invariant
            n * 4 <= usize::MAX,
            src matches Some(s) ==> s.wf() && s.width == pw && s.height == ph,
            patch == match src {
                Some(s) => image_patch(s.data@, s.width as int),
                None => uniform_patch(fill@),
            },
            target == painted(
                old(dest).data@,
                old(dest).width as int,
                patch,
                pw as int,
                ph as int,
                x as int,
                y as int,
                mode,
            ),
            dest.width == old(dest).width,
            dest.height == old(dest).height,
            dw == dest.width,
            dest.data@.len() == old(dest).data@.len(),
            old(dest).data@.len() == dw * dest.height * 4,
            n == dw * dest.height,
            i <= n,
            target.len() == old(dest).data@.len(),
            forall|k: int|
                0 <= k < dest.data@.len() ==> #[trigger] dest.data@[k] == if k < 4 * i {
                    target[k]
                } else {
                    old(dest).data@[k]
                },
        decreases n - i,
    {
        proof {
            lemma_pixel_index(i as int, dw as int, dest.height as int);
        }
        let px = i % dw;
        let py = i / dw;
        let sx: i128 = px as i128 - x as i128;
        let sy: i128 = py as i128 - y as i128;
        if 0 <= sx && sx < pw as i128 && 0 <= sy && sy < ph as i128 {
            let base = 4 * i;
            let bottom = [
                dest.data[base],
                dest.data[base + 1],
                dest.data[base + 2],
                dest.data[base + 3],
            ];
            assert(bottom@ =~= pixel_of(old(dest).data@, i as int));
            let top = match src {
                Some(s) => {
                    proof {
                        lemma_source_index(sx as int, sy as int, pw as int, ph as int);
                    }
                    let (sxu, syu) = (sx as usize, sy as usize);
                    assert(s.width == pw && s.height == ph);
                    let slen = s.data.len();
                    assert(slen == pw * ph * 4);
                    let j = 4 * (syu * s.width as usize + sxu);
                    let t = [s.data[j], s.data[j + 1], s.data[j + 2], s.data[j + 3]];
                    assert(t@ =~= pixel_of(s.data@, sy * s.width + sx));
                    t
                },
                None => fill,
            };
            assert(top@ == patch(px - x, py - y));
            let out = mode.blend(bottom, top);
            dest.data.set(base, out[0]);
            dest.data.set(base + 1, out[1]);
            dest.data.set(base + 2, out[2]);
            dest.data.set(base + 3, out[3]);
            assert forall|k: int| base <= k < base + 4 implies #[trigger] target[k] == out@[k
                - base] by {
                assert(k / 4 == i);
                assert(k % 4 == k - base);
            };
        } else {
            assert(!covers(pw as int, ph as int, x as int, y as int, px as int, py as int));
            assert forall|k: int| 4 * i <= k < 4 * i + 4 implies #[trigger] target[k]
                == old(dest).data@[k] by {
                assert(k / 4 == i);
                assert(k < target.len());
            };
        }
        i += 1;
    }
    assert(dest.data@ =~= target);
}

/// The pixels that a placed patch leaves and changes: only pixels under the
/// patch change, each from its own old value and the one patch pixel above
/// it; patch pixels beyond the edges of `dest` reach no pixel of it.
pub proof fn painting_clips(
    dest: Seq<u8>,
    dw: int,
    dh: int,
    patch: spec_fn(int, int) -> Seq<u8>,
    pw: int,
    ph: int,
    x: int,
    y: int,
    mode: BlendMode,
)
    requires
        dw > 0,
        dest.len() == dw * dh * 4,
    ensures
        painted(dest, dw, patch, pw, ph, x, y, mode).len() == dest.len(),
        forall|i: int, c: int|
            #![trigger painted(dest, dw, patch, pw, ph, x, y, mode)[4 * i + c]]
            0 <= i < dw * dh && 0 <= c < 4 ==> {
                &&& 0 <= i % dw < dw
                &&& painted(dest, dw, patch, pw, ph, x, y, mode)[4 * i + c] == placed_byte(
                    dest,
                    dw,
                    patch,
                    pw,
                    ph,
                    x,
                    y,
                    mode,
                    i,
                    c,
                )
            },
{
    assert forall|i: int, c: int|
        #![trigger painted(dest, dw, patch, pw, ph, x, y, mode)[4 * i + c]]
        0 <= i < dw * dh && 0 <= c < 4 implies {
            &&& 0 <= i % dw < dw
            &&& painted(dest, dw, patch, pw, ph, x, y, mode)[4 * i + c] == placed_byte(
                dest,
                dw,
                patch,
                pw,
                ph,
                x,
                y,
                mode,
                i,
                c,
            )
        } by {
        lemma_pixel_index(i, dw, dh);
        assert((4 * i + c) / 4 == i);
        assert((4 * i + c) % 4 == c);
    };
}

/// Byte `c` of pixel `i` (at column `i % dw`, row `i / dw`) once the patch is
/// placed: blended with the patch pixel at the same spot if the patch covers
/// the pixel, its old value otherwise.
pub open spec fn placed_byte(
    dest: Seq<u8>,
    dw: int,
    patch: spec_fn(int, int) -> Seq<u8>,
    pw: int,
    ph: int,
    x: int,
    y: int,
    mode: BlendMode,
    i: int,
    c: int,
) -> u8 {
    if covers(pw, ph, x, y, i % dw, i / dw) {
        blend_pixel(mode, pixel_of(dest, i), patch(i % dw - x, i / dw - y))[c]
    } else {
        dest[4 * i + c]
    }
}

} // verus!
