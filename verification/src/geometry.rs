//! Geometric transforms: rotation, flips, crop and nearest-neighbour
//! resizing. All are pure index remappings of the source buffer, stated as
//! spec-level views and proved pixel-exact; the involution and idempotence
//! laws of the transforms are proved at the end of the module.

use vstd::prelude::*;
use vstd::arithmetic::div_mod::lemma_multiply_divide_lt;
use crate::buffer::{
    Image, ImgView, lemma_idx_bound, lemma_idx_compose, lemma_view_ext, push_pixel,
};
use crate::error::ImgError;

verus! {

/// A view of dimensions `w` by `h` whose pixel `(x, y)` is pixel `f(x, y)`
/// of `src`; channels are carried over unchanged.
pub open spec fn remap(w: nat, h: nat, src: ImgView, f: spec_fn(int, int) -> (int, int)) -> ImgView {
    ImgView {
        width: w,
        height: h,
        pixels: Seq::new(
            4 * w * h,
            |i: int|
                {
                    let c = i % 4;
                    let x = (i / 4) % (w as int);
                    let y = (i / 4) / (w as int);
                    src.px(f(x, y).0, f(x, y).1, c)
                },
        ),
    }
}

/// Ninety degrees clockwise: width and height swap, and destination
/// `(x, y)` reads source `(y, height - 1 - x)`.
pub open spec fn rotate90_spec(v: ImgView) -> ImgView {
    remap(v.height, v.width, v, |x: int, y: int| (y, v.height - 1 - x))
}

/// Half turn: dimensions kept, pixel order reversed along both axes.
pub open spec fn rotate180_spec(v: ImgView) -> ImgView {
    remap(v.width, v.height, v, |x: int, y: int| (v.width - 1 - x, v.height - 1 - y))
}

/// Two hundred and seventy degrees clockwise: width and height swap, and
/// destination `(x, y)` reads source `(width - 1 - y, x)`.
pub open spec fn rotate270_spec(v: ImgView) -> ImgView {
    remap(v.height, v.width, v, |x: int, y: int| (v.width - 1 - y, x))
}

/// Mirror along the vertical axis: destination `(x, y)` reads source
/// `(width - 1 - x, y)`.
pub open spec fn fliph_spec(v: ImgView) -> ImgView {
    remap(v.width, v.height, v, |x: int, y: int| (v.width - 1 - x, y))
}

/// Mirror along the horizontal axis: destination `(x, y)` reads source
/// `(x, height - 1 - y)`.
pub open spec fn flipv_spec(v: ImgView) -> ImgView {
    remap(v.width, v.height, v, |x: int, y: int| (x, v.height - 1 - y))
}

/// The `cw`-by-`ch` sub-rectangle whose top-left corner sits at
/// `(cx, cy)` of the source.
pub open spec fn crop_spec(v: ImgView, cx: int, cy: int, cw: nat, ch: nat) -> ImgView {
    remap(cw, ch, v, |x: int, y: int| (cx + x, cy + y))
}

/// Nearest-neighbour resampling to `nw` by `nh`: destination `(x, y)` reads
/// the source pixel under the linear coordinate mapping
/// `src = floor(dst * src_dim / dst_dim)`.
pub open spec fn resize_fast_spec(v: ImgView, nw: nat, nh: nat) -> ImgView {
    remap(
        nw,
        nh,
        v,
        |x: int, y: int| (x * v.width / (nw as int), y * v.height / (nh as int)),
    )
}

/// Pixel-level reading of `rotate90_spec`.
pub proof fn lemma_rotate90_px(v: ImgView, x: int, y: int, c: int)
    requires
        0 <= x < v.height,
        0 <= y < v.width,
        0 <= c < 4,
    ensures
        rotate90_spec(v).px(x, y, c) == v.px(y, v.height - 1 - x, c),
{
    lemma_idx_compose(v.height as int, v.width as int, x, y, c);
}

/// Pixel-level reading of `rotate180_spec`.
pub proof fn lemma_rotate180_px(v: ImgView, x: int, y: int, c: int)
    requires
        0 <= x < v.width,
        0 <= y < v.height,
        0 <= c < 4,
    ensures
        rotate180_spec(v).px(x, y, c) == v.px(v.width - 1 - x, v.height - 1 - y, c),
{
    lemma_idx_compose(v.width as int, v.height as int, x, y, c);
}

/// Pixel-level reading of `rotate270_spec`.
pub proof fn lemma_rotate270_px(v: ImgView, x: int, y: int, c: int)
    requires
        0 <= x < v.height,
        0 <= y < v.width,
        0 <= c < 4,
    ensures
        rotate270_spec(v).px(x, y, c) == v.px(v.width - 1 - y, x, c),
{
    lemma_idx_compose(v.height as int, v.width as int, x, y, c);
}

/// Pixel-level reading of `fliph_spec`.
pub proof fn lemma_fliph_px(v: ImgView, x: int, y: int, c: int)
    requires
        0 <= x < v.width,
        0 <= y < v.height,
        0 <= c < 4,
    ensures
        fliph_spec(v).px(x, y, c) == v.px(v.width - 1 - x, y, c),
{
    lemma_idx_compose(v.width as int, v.height as int, x, y, c);
}

/// Pixel-level reading of `flipv_spec`.
pub proof fn lemma_flipv_px(v: ImgView, x: int, y: int, c: int)
    requires
        0 <= x < v.width,
        0 <= y < v.height,
        0 <= c < 4,
    ensures
        flipv_spec(v).px(x, y, c) == v.px(x, v.height - 1 - y, c),
{
    lemma_idx_compose(v.width as int, v.height as int, x, y, c);
}

/// Pixel-level reading of `crop_spec`.
pub proof fn lemma_crop_px(v: ImgView, cx: int, cy: int, cw: nat, ch: nat, x: int, y: int, c: int)
    requires
        0 <= x < cw,
        0 <= y < ch,
        0 <= c < 4,
    ensures
        crop_spec(v, cx, cy, cw, ch).px(x, y, c) == v.px(cx + x, cy + y, c),
{
    lemma_idx_compose(cw as int, ch as int, x, y, c);
}

/// Pixel-level reading of `resize_fast_spec`.
pub proof fn lemma_resize_fast_px(v: ImgView, nw: nat, nh: nat, x: int, y: int, c: int)
    requires
        0 <= x < nw,
        0 <= y < nh,
        0 <= c < 4,
    ensures
        resize_fast_spec(v, nw, nh).px(x, y, c) == v.px(
            x * v.width / (nw as int),
            y * v.height / (nh as int),
            c,
        ),
{
    lemma_idx_compose(nw as int, nh as int, x, y, c);
}

impl Image {
    /// Rotates ninety degrees clockwise into a new buffer; width and height
    /// swap.
    #[verifier::loop_isolation(false)]
    pub fn rotate90(&self) -> (r: Image)
        requires
            self@.wf(),
        ensures
            r@ == rotate90_spec(self@),
            r@.wf(),
    {
        let nw: u32 = self.height;
        let nh: u32 = self.width;
        let ghost target = rotate90_spec(self@);
        let mut out: Vec<u8> = Vec::new();
        let mut y: u32 = 0;
        while y < nh
            invariant
                y <= nh,
                out@.len() == 4 * ((y as int) * (nw as int)),
                forall|j: int| 0 <= j < out@.len() ==> out@[j] == target.pixels[j],
            decreases nh - y,
        {
            let mut x: u32 = 0;
            while x < nw
                invariant
                    x <= nw,
                    y < nh,
                    out@.len() == 4 * ((y as int) * (nw as int) + (x as int)),
                    forall|j: int| 0 <= j < out@.len() ==> out@[j] == target.pixels[j],
                decreases nw - x,
            {
                let sx: u32 = y;
                let sy: u32 = self.height - 1 - x;
                proof {
                    lemma_idx_bound(self@.width as int, self@.height as int, sx as int, sy as int, 0);
                    lemma_rotate90_px(self@, x as int, y as int, 0);
                    lemma_rotate90_px(self@, x as int, y as int, 1);
                    lemma_rotate90_px(self@, x as int, y as int, 2);
                    lemma_rotate90_px(self@, x as int, y as int, 3);
                }
                push_pixel(&mut out, &self.pixels, self.width, sx, sy);
                x = x + 1;
            }
            proof {
                assert(out@.len() == 4 * (((y as int) + 1) * (nw as int))) by (nonlinear_arith)
                    requires
                        out@.len() == 4 * ((y as int) * (nw as int) + (nw as int)),
                ;
            }
            y = y + 1;
        }
        proof {
            assert(out@.len() == 4 * (nw as int) * (nh as int)) by (nonlinear_arith)
                requires
                    out@.len() == 4 * ((nh as int) * (nw as int)),
            ;
            assert(out@ =~= target.pixels);
        }
        Image { width: nw, height: nh, pixels: out }
    }

    /// Rotates a half turn into a new buffer; dimensions are kept.
    #[verifier::loop_isolation(false)]
    pub fn rotate180(&self) -> (r: Image)
        requires
            self@.wf(),
        ensures
            r@ == rotate180_spec(self@),
            r@.wf(),
    {
        let nw: u32 = self.width;
        let nh: u32 = self.height;
        let ghost target = rotate180_spec(self@);
        let mut out: Vec<u8> = Vec::new();
        let mut y: u32 = 0;
        while y < nh
            invariant
                y <= nh,
                out@.len() == 4 * ((y as int) * (nw as int)),
                forall|j: int| 0 <= j < out@.len() ==> out@[j] == target.pixels[j],
            decreases nh - y,
        {
            let mut x: u32 = 0;
            while x < nw
                invariant
                    x <= nw,
                    y < nh,
                    out@.len() == 4 * ((y as int) * (nw as int) + (x as int)),
                    forall|j: int| 0 <= j < out@.len() ==> out@[j] == target.pixels[j],
                decreases nw - x,
            {
                let sx: u32 = self.width - 1 - x;
                let sy: u32 = self.height - 1 - y;
                proof {
                    lemma_idx_bound(self@.width as int, self@.height as int, sx as int, sy as int, 0);
                    lemma_rotate180_px(self@, x as int, y as int, 0);
                    lemma_rotate180_px(self@, x as int, y as int, 1);
                    lemma_rotate180_px(self@, x as int, y as int, 2);
                    lemma_rotate180_px(self@, x as int, y as int, 3);
                }
                push_pixel(&mut out, &self.pixels, self.width, sx, sy);
                x = x + 1;
            }
            proof {
                assert(out@.len() == 4 * (((y as int) + 1) * (nw as int))) by (nonlinear_arith)
                    requires
                        out@.len() == 4 * ((y as int) * (nw as int) + (nw as int)),
                ;
            }
            y = y + 1;
        }
        proof {
            assert(out@.len() == 4 * (nw as int) * (nh as int)) by (nonlinear_arith)
                requires
                    out@.len() == 4 * ((nh as int) * (nw as int)),
            ;
            assert(out@ =~= target.pixels);
        }
        Image { width: nw, height: nh, pixels: out }
    }

    /// Rotates two hundred and seventy degrees clockwise into a new buffer;
    /// width and height swap.
    #[verifier::loop_isolation(false)]
    pub fn rotate270(&self) -> (r: Image)
        requires
            self@.wf(),
        ensures
            r@ == rotate270_spec(self@),
            r@.wf(),
    {
        let nw: u32 = self.height;
        let nh: u32 = self.width;
        let ghost target = rotate270_spec(self@);
        let mut out: Vec<u8> = Vec::new();
        let mut y: u32 = 0;
        while y < nh
            invariant
                y <= nh,
                out@.len() == 4 * ((y as int) * (nw as int)),
                forall|j: int| 0 <= j < out@.len() ==> out@[j] == target.pixels[j],
            decreases nh - y,
        {
            let mut x: u32 = 0;
            while x < nw
                invariant
                    x <= nw,
                    y < nh,
                    out@.len() == 4 * ((y as int) * (nw as int) + (x as int)),
                    forall|j: int| 0 <= j < out@.len() ==> out@[j] == target.pixels[j],
                decreases nw - x,
            {
                let sx: u32 = self.width - 1 - y;
                let sy: u32 = x;
                proof {
                    lemma_idx_bound(self@.width as int, self@.height as int, sx as int, sy as int, 0);
                    lemma_rotate270_px(self@, x as int, y as int, 0);
                    lemma_rotate270_px(self@, x as int, y as int, 1);
                    lemma_rotate270_px(self@, x as int, y as int, 2);
                    lemma_rotate270_px(self@, x as int, y as int, 3);
                }
                push_pixel(&mut out, &self.pixels, self.width, sx, sy);
                x = x + 1;
            }
            proof {
                assert(out@.len() == 4 * (((y as int) + 1) * (nw as int))) by (nonlinear_arith)
                    requires
                        out@.len() == 4 * ((y as int) * (nw as int) + (nw as int)),
                ;
            }
            y = y + 1;
        }
        proof {
            assert(out@.len() == 4 * (nw as int) * (nh as int)) by (nonlinear_arith)
                requires
                    out@.len() == 4 * ((nh as int) * (nw as int)),
            ;
            assert(out@ =~= target.pixels);
        }
        Image { width: nw, height: nh, pixels: out }
    }

    /// Mirrors along the vertical axis into a new buffer; dimensions are
    /// kept.
    #[verifier::loop_isolation(false)]
    pub fn fliph(&self) -> (r: Image)
        requires
            self@.wf(),
        ensures
            r@ == fliph_spec(self@),
            r@.wf(),
    {
        let nw: u32 = self.width;
        let nh: u32 = self.height;
        let ghost target = fliph_spec(self@);
        let mut out: Vec<u8> = Vec::new();
        let mut y: u32 = 0;
        while y < nh
            invariant
                y <= nh,
                out@.len() == 4 * ((y as int) * (nw as int)),
                forall|j: int| 0 <= j < out@.len() ==> out@[j] == target.pixels[j],
            decreases nh - y,
        {
            let mut x: u32 = 0;
            while x < nw
                invariant
                    x <= nw,
                    y < nh,
                    out@.len() == 4 * ((y as int) * (nw as int) + (x as int)),
                    forall|j: int| 0 <= j < out@.len() ==> out@[j] == target.pixels[j],
                decreases nw - x,
            {
                let sx: u32 = self.width - 1 - x;
                let sy: u32 = y;
                proof {
                    lemma_idx_bound(self@.width as int, self@.height as int, sx as int, sy as int, 0);
                    lemma_fliph_px(self@, x as int, y as int, 0);
                    lemma_fliph_px(self@, x as int, y as int, 1);
                    lemma_fliph_px(self@, x as int, y as int, 2);
                    lemma_fliph_px(self@, x as int, y as int, 3);
                }
                push_pixel(&mut out, &self.pixels, self.width, sx, sy);
                x = x + 1;
            }
            proof {
                assert(out@.len() == 4 * (((y as int) + 1) * (nw as int))) by (nonlinear_arith)
                    requires
                        out@.len() == 4 * ((y as int) * (nw as int) + (nw as int)),
                ;
            }
            y = y + 1;
        }
        proof {
            assert(out@.len() == 4 * (nw as int) * (nh as int)) by (nonlinear_arith)
                requires
                    out@.len() == 4 * ((nh as int) * (nw as int)),
            ;
            assert(out@ =~= target.pixels);
        }
        Image { width: nw, height: nh, pixels: out }
    }

    /// Mirrors along the horizontal axis into a new buffer; dimensions are
    /// kept.
    #[verifier::loop_isolation(false)]
    pub fn flipv(&self) -> (r: Image)
        requires
            self@.wf(),
        ensures
            r@ == flipv_spec(self@),
            r@.wf(),
    {
        let nw: u32 = self.width;
        let nh: u32 = self.height;
        let ghost target = flipv_spec(self@);
        let mut out: Vec<u8> = Vec::new();
        let mut y: u32 = 0;
        while y < nh
            invariant
                y <= nh,
                out@.len() == 4 * ((y as int) * (nw as int)),
                forall|j: int| 0 <= j < out@.len() ==> out@[j] == target.pixels[j],
            decreases nh - y,
        {
            let mut x: u32 = 0;
            while x < nw
                invariant
                    x <= nw,
                    y < nh,
                    out@.len() == 4 * ((y as int) * (nw as int) + (x as int)),
                    forall|j: int| 0 <= j < out@.len() ==> out@[j] == target.pixels[j],
                decreases nw - x,
            {
                let sx: u32 = x;
                let sy: u32 = self.height - 1 - y;
                proof {
                    lemma_idx_bound(self@.width as int, self@.height as int, sx as int, sy as int, 0);
                    lemma_flipv_px(self@, x as int, y as int, 0);
                    lemma_flipv_px(self@, x as int, y as int, 1);
                    lemma_flipv_px(self@, x as int, y as int, 2);
                    lemma_flipv_px(self@, x as int, y as int, 3);
                }
                push_pixel(&mut out, &self.pixels, self.width, sx, sy);
                x = x + 1;
            }
            proof {
                assert(out@.len() == 4 * (((y as int) + 1) * (nw as int))) by (nonlinear_arith)
                    requires
                        out@.len() == 4 * ((y as int) * (nw as int) + (nw as int)),
                ;
            }
            y = y + 1;
        }
        proof {
            assert(out@.len() == 4 * (nw as int) * (nh as int)) by (nonlinear_arith)
                requires
                    out@.len() == 4 * ((nh as int) * (nw as int)),
            ;
            assert(out@ =~= target.pixels);
        }
        Image { width: nw, height: nh, pixels: out }
    }

    /// Extracts the `width`-by-`height` sub-rectangle at `(x, y)` into a new
    /// buffer. Fails with `OutOfBounds` exactly when the rectangle exceeds
    /// the source dimensions or is degenerate (zero width or height, which
    /// no buffer may have); the source is never touched.
    #[verifier::loop_isolation(false)]
    pub fn crop(&self, x: u32, y: u32, width: u32, height: u32) -> (res: Result<Image, ImgError>)
        requires
            self@.wf(),
        ensures
            match res {
                Ok(img) => {
                    &&& width > 0
                    &&& height > 0
                    &&& x + width <= self@.width
                    &&& y + height <= self@.height
                    &&& img@ == crop_spec(self@, x as int, y as int, width as nat, height as nat)
                    &&& img@.wf()
                },
                Err(e) => {
                    &&& e is OutOfBounds
                    &&& (x + width > self@.width || y + height > self@.height || width == 0
                        || height == 0)
                },
            },
    {
        if width == 0 || height == 0 {
            return Err(ImgError::OutOfBounds);
        }
        if (x as u64) + (width as u64) > (self.width as u64) || (y as u64) + (height as u64) > (
        self.height as u64) {
            return Err(ImgError::OutOfBounds);
        }
        let ghost target = crop_spec(self@, x as int, y as int, width as nat, height as nat);
        let mut out: Vec<u8> = Vec::new();
        let mut dy: u32 = 0;
        while dy < height
            invariant
                dy <= height,
                out@.len() == 4 * ((dy as int) * (width as int)),
                forall|j: int| 0 <= j < out@.len() ==> out@[j] == target.pixels[j],
            decreases height - dy,
        {
            let mut dx: u32 = 0;
            while dx < width
                invariant
                    dx <= width,
                    dy < height,
                    out@.len() == 4 * ((dy as int) * (width as int) + (dx as int)),
                    forall|j: int| 0 <= j < out@.len() ==> out@[j] == target.pixels[j],
                decreases width - dx,
            {
                let sx: u32 = x + dx;
                let sy: u32 = y + dy;
                proof {
                    lemma_idx_bound(self@.width as int, self@.height as int, sx as int, sy as int, 0);
                    lemma_crop_px(self@, x as int, y as int, width as nat, height as nat, dx as int, dy as int, 0);
                    lemma_crop_px(self@, x as int, y as int, width as nat, height as nat, dx as int, dy as int, 1);
                    lemma_crop_px(self@, x as int, y as int, width as nat, height as nat, dx as int, dy as int, 2);
                    lemma_crop_px(self@, x as int, y as int, width as nat, height as nat, dx as int, dy as int, 3);
                }
                push_pixel(&mut out, &self.pixels, self.width, sx, sy);
                dx = dx + 1;
            }
            proof {
                assert(out@.len() == 4 * (((dy as int) + 1) * (width as int))) by (nonlinear_arith)
                    requires
                        out@.len() == 4 * ((dy as int) * (width as int) + (width as int)),
                ;
            }
            dy = dy + 1;
        }
        proof {
            assert(out@.len() == 4 * (width as int) * (height as int)) by (nonlinear_arith)
                requires
                    out@.len() == 4 * ((height as int) * (width as int)),
            ;
            assert(out@ =~= target.pixels);
        }
        Ok(Image { width, height, pixels: out })
    }

    /// Resizes to exactly `nw` by `nh` with nearest-neighbour sampling: each
    /// destination pixel copies the source pixel under the linear coordinate
    /// mapping `src = floor(dst * src_dim / dst_dim)`. No interpolation.
    #[verifier::loop_isolation(false)]
    pub fn resize_fast(&self, nw: u32, nh: u32) -> (r: Image)
        requires
            self@.wf(),
            nw > 0,
            nh > 0,
        ensures
            r@ == resize_fast_spec(self@, nw as nat, nh as nat),
            r@.wf(),
    {
        let ghost target = resize_fast_spec(self@, nw as nat, nh as nat);
        let mut out: Vec<u8> = Vec::new();
        let mut y: u32 = 0;
        while y < nh
            invariant
                y <= nh,
                out@.len() == 4 * ((y as int) * (nw as int)),
                forall|j: int| 0 <= j < out@.len() ==> out@[j] == target.pixels[j],
            decreases nh - y,
        {
            let mut x: u32 = 0;
            while x < nw
                invariant
                    x <= nw,
                    y < nh,
                    out@.len() == 4 * ((y as int) * (nw as int) + (x as int)),
                    forall|j: int| 0 <= j < out@.len() ==> out@[j] == target.pixels[j],
                decreases nw - x,
            {
                proof {
                    assert((x as int) * (self@.width as int) <= 0xffff_ffffint * 0xffff_ffffint
                        && (x as int) * (self@.width as int) < (nw as int) * (self@.width as int)
                        && (y as int) * (self@.height as int) <= 0xffff_ffffint * 0xffff_ffffint
                        && (y as int) * (self@.height as int) < (nh as int) * (self@.height as int))
                        by (nonlinear_arith)
                        requires
                            0 <= (x as int) < (nw as int) <= 0xffff_ffffint,
                            0 <= (y as int) < (nh as int) <= 0xffff_ffffint,
                            0 < (self@.width as int) <= 0xffff_ffffint,
                            0 < (self@.height as int) <= 0xffff_ffffint,
                    ;
                    lemma_multiply_divide_lt(
                        (x as int) * (self@.width as int),
                        nw as int,
                        self@.width as int,
                    );
                    lemma_multiply_divide_lt(
                        (y as int) * (self@.height as int),
                        nh as int,
                        self@.height as int,
                    );
                }
                let sx: u32 = (((x as u64) * (self.width as u64)) / (nw as u64)) as u32;
                let sy: u32 = (((y as u64) * (self.height as u64)) / (nh as u64)) as u32;
                proof {
                    lemma_idx_bound(self@.width as int, self@.height as int, sx as int, sy as int, 0);
                    lemma_resize_fast_px(self@, nw as nat, nh as nat, x as int, y as int, 0);
                    lemma_resize_fast_px(self@, nw as nat, nh as nat, x as int, y as int, 1);
                    lemma_resize_fast_px(self@, nw as nat, nh as nat, x as int, y as int, 2);
                    lemma_resize_fast_px(self@, nw as nat, nh as nat, x as int, y as int, 3);
                }
                push_pixel(&mut out, &self.pixels, self.width, sx, sy);
                x = x + 1;
            }
            proof {
                assert(out@.len() == 4 * (((y as int) + 1) * (nw as int))) by (nonlinear_arith)
                    requires
                        out@.len() == 4 * ((y as int) * (nw as int) + (nw as int)),
                ;
            }
            y = y + 1;
        }
        proof {
            assert(out@.len() == 4 * (nw as int) * (nh as int)) by (nonlinear_arith)
                requires
                    out@.len() == 4 * ((nh as int) * (nw as int)),
            ;
            assert(out@ =~= target.pixels);
        }
        Image { width: nw, height: nh, pixels: out }
    }
}

/// Law: rotating ninety degrees clockwise four times restores the buffer.
pub proof fn lemma_rotate90_four_times(v: ImgView)
    requires
        v.wf(),
    ensures
        rotate90_spec(rotate90_spec(rotate90_spec(rotate90_spec(v)))) == v,
{
    let w = v.width as int;
    let h = v.height as int;
    let v1 = rotate90_spec(v);
    let v2 = rotate90_spec(v1);
    let v3 = rotate90_spec(v2);
    let v4 = rotate90_spec(v3);
    assert forall|x: int, y: int, c: int|
        0 <= x < w && 0 <= y < h && 0 <= c < 4 implies v4.px(x, y, c) == v.px(x, y, c) by {
        lemma_rotate90_px(v3, x, y, c);
        lemma_rotate90_px(v2, y, w - 1 - x, c);
        lemma_rotate90_px(v1, w - 1 - x, h - 1 - y, c);
        lemma_rotate90_px(v, h - 1 - y, x, c);
    }
    lemma_view_ext(v4, v);
}

/// Law: rotating a half turn twice restores the buffer.
pub proof fn lemma_rotate180_involution(v: ImgView)
    requires
        v.wf(),
    ensures
        rotate180_spec(rotate180_spec(v)) == v,
{
    let w = v.width as int;
    let h = v.height as int;
    let v1 = rotate180_spec(v);
    let v2 = rotate180_spec(v1);
    assert forall|x: int, y: int, c: int|
        0 <= x < w && 0 <= y < h && 0 <= c < 4 implies v2.px(x, y, c) == v.px(x, y, c) by {
        lemma_rotate180_px(v1, x, y, c);
        lemma_rotate180_px(v, w - 1 - x, h - 1 - y, c);
    }
    lemma_view_ext(v2, v);
}

/// Law: mirroring along the vertical axis twice restores the buffer.
pub proof fn lemma_fliph_involution(v: ImgView)
    requires
        v.wf(),
    ensures
        fliph_spec(fliph_spec(v)) == v,
{
    let w = v.width as int;
    let h = v.height as int;
    let v1 = fliph_spec(v);
    let v2 = fliph_spec(v1);
    assert forall|x: int, y: int, c: int|
        0 <= x < w && 0 <= y < h && 0 <= c < 4 implies v2.px(x, y, c) == v.px(x, y, c) by {
        lemma_fliph_px(v1, x, y, c);
        lemma_fliph_px(v, w - 1 - x, y, c);
    }
    lemma_view_ext(v2, v);
}

/// Law: mirroring along the horizontal axis twice restores the buffer.
pub proof fn lemma_flipv_involution(v: ImgView)
    requires
        v.wf(),
    ensures
        flipv_spec(flipv_spec(v)) == v,
{
    let w = v.width as int;
    let h = v.height as int;
    let v1 = flipv_spec(v);
    let v2 = flipv_spec(v1);
    assert forall|x: int, y: int, c: int|
        0 <= x < w && 0 <= y < h && 0 <= c < 4 implies v2.px(x, y, c) == v.px(x, y, c) by {
        lemma_flipv_px(v1, x, y, c);
        lemma_flipv_px(v, x, h - 1 - y, c);
    }
    lemma_view_ext(v2, v);
}

/// Law: cropping the full rectangle yields the original buffer.
pub proof fn lemma_crop_full(v: ImgView)
    requires
        v.wf(),
    ensures
        crop_spec(v, 0, 0, v.width, v.height) == v,
{
    let w = v.width as int;
    let h = v.height as int;
    let cv = crop_spec(v, 0, 0, v.width, v.height);
    assert forall|x: int, y: int, c: int|
        0 <= x < w && 0 <= y < h && 0 <= c < 4 implies cv.px(x, y, c) == v.px(x, y, c) by {
        lemma_crop_px(v, 0, 0, v.width, v.height, x, y, c);
    }
    lemma_view_ext(cv, v);
}

} // verus!
