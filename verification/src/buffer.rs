//! The pixel buffer: an RGBA8 bitmap with its size invariant, bounds-checked
//! pixel access, and the index arithmetic the transform proofs build on.

use vstd::prelude::*;
use vstd::arithmetic::div_mod::{
    lemma_div_multiples_vanish, lemma_fundamental_div_mod, lemma_fundamental_div_mod_converse,
    lemma_mod_bound, lemma_mod_multiples_basic, lemma_multiply_divide_lt,
};
use crate::error::ImgError;

verus! {

/// Mathematical model of a pixel buffer: its dimensions and the row-major
/// RGBA8 byte sequence.
pub struct ImgView {
    pub width: nat,
    pub height: nat,
    pub pixels: Seq<u8>,
}

impl ImgView {
    /// The size invariant every buffer keeps: positive dimensions and exactly
    /// four bytes per pixel.
    pub open spec fn wf(self) -> bool {
        &&& self.width > 0
        &&& self.height > 0
        &&& self.pixels.len() == 4 * self.width * self.height
    }

    /// Channel `c` (0 red, 1 green, 2 blue, 3 alpha) of the pixel in column
    /// `x` of row `y`.
    pub open spec fn px(self, x: int, y: int, c: int) -> u8 {
        self.pixels[4 * (y * self.width + x) + c]
    }
}

/// The byte index of channel `c` of pixel `(x, y)` lies inside a
/// `w`-by-`h` buffer.
pub proof fn lemma_idx_bound(w: int, h: int, x: int, y: int, c: int)
    requires
        0 <= x < w,
        0 <= y < h,
        0 <= c < 4,
    ensures
        0 <= 4 * (y * w + x) + c,
        4 * (y * w + x) + c < 4 * w * h,
        4 * (y * w + x) + 4 <= 4 * w * h,
{
    assert(0 <= 4 * (y * w + x) + c && 4 * (y * w + x) + 4 <= 4 * w * h) by (nonlinear_arith)
        requires
            0 <= x < w,
            0 <= y < h,
            0 <= c < 4,
    ;
}

/// Splitting a byte index of a `w`-by-`h` buffer into its column, row and
/// channel.
pub proof fn lemma_idx_decompose(w: int, h: int, i: int)
    requires
        0 < w,
        0 <= i < 4 * w * h,
    ensures
        0 <= i % 4 < 4,
        0 <= (i / 4) % w < w,
        0 <= (i / 4) / w < h,
        i == 4 * (((i / 4) / w) * w + (i / 4) % w) + i % 4,
{
    lemma_mod_bound(i, 4);
    assert(i < 4 * (w * h)) by (nonlinear_arith)
        requires
            i < 4 * w * h,
    ;
    lemma_multiply_divide_lt(i, 4, w * h);
    let q = i / 4;
    lemma_mod_bound(q, w);
    lemma_multiply_divide_lt(q, w, h);
    lemma_fundamental_div_mod(i, 4);
    lemma_fundamental_div_mod(q, w);
    assert(q == (q / w) * w + q % w) by (nonlinear_arith)
        requires
            q == w * (q / w) + q % w,
    ;
}

/// Composing a column, row and channel into a byte index, and reading the
/// three parts back.
pub proof fn lemma_idx_compose(w: int, h: int, x: int, y: int, c: int)
    requires
        0 < w,
        0 <= x < w,
        0 <= y < h,
        0 <= c < 4,
    ensures
        (4 * (y * w + x) + c) % 4 == c,
        ((4 * (y * w + x) + c) / 4) % w == x,
        ((4 * (y * w + x) + c) / 4) / w == y,
        0 <= 4 * (y * w + x) + c < 4 * w * h,
{
    let q = y * w + x;
    assert(0 <= y * w + x) by (nonlinear_arith)
        requires
            0 <= x,
            0 <= y,
            0 < w,
    ;
    lemma_fundamental_div_mod_converse(4 * q + c, 4, q, c);
    lemma_fundamental_div_mod_converse(q, w, y, x);
    lemma_idx_bound(w, h, x, y, c);
}

/// A well-formed buffer holds a whole number of four-byte pixels, one per
/// coordinate of the `width`-by-`height` grid.
pub proof fn lemma_pixel_count(v: ImgView)
    requires
        v.wf(),
    ensures
        v.pixels.len() % 4 == 0,
        v.pixels.len() / 4 == v.width * v.height,
        v.pixels.len() == 4 * (v.pixels.len() / 4),
{
    let wh = (v.width * v.height) as int;
    assert(v.pixels.len() == wh * 4 && v.pixels.len() == 4 * wh) by (nonlinear_arith)
        requires
            v.pixels.len() == 4 * v.width * v.height,
            wh == (v.width * v.height) as int,
    ;
    lemma_mod_multiples_basic(wh, 4);
    lemma_div_multiples_vanish(wh, 4);
    lemma_fundamental_div_mod(v.pixels.len() as int, 4);
}

/// Two well-formed views with the same dimensions and the same channel value
/// at every coordinate are the same view.
pub proof fn lemma_view_ext(a: ImgView, b: ImgView)
    requires
        a.wf(),
        b.wf(),
        a.width == b.width,
        a.height == b.height,
        forall|x: int, y: int, c: int|
            0 <= x < a.width && 0 <= y < a.height && 0 <= c < 4 ==> a.px(x, y, c) == b.px(x, y, c),
    ensures
        a == b,
{
    assert forall|i: int| 0 <= i < a.pixels.len() implies a.pixels[i] == b.pixels[i] by {
        lemma_idx_decompose(a.width as int, a.height as int, i);
        let c = i % 4;
        let x = (i / 4) % (a.width as int);
        let y = (i / 4) / (a.width as int);
        assert(a.pixels[i] == a.px(x, y, c));
        assert(b.pixels[i] == b.px(x, y, c));
    }
    assert(a.pixels =~= b.pixels);
}

/// The in-memory RGBA8 bitmap: `width * height` pixels, four bytes each,
/// rows stored top to bottom.
pub struct Image {
    pub width: u32,
    pub height: u32,
    pub pixels: Vec<u8>,
}

impl View for Image {
    type V = ImgView;

    open spec fn view(&self) -> ImgView {
        ImgView { width: self.width as nat, height: self.height as nat, pixels: self.pixels@ }
    }
}

impl Image {
    /// Builds a buffer that takes ownership of a copy of `data`, validating
    /// that `data` holds exactly `width * height * 4` bytes and that both
    /// dimensions are positive.
    pub fn new(width: u32, height: u32, data: &[u8]) -> (r: Result<Image, ImgError>)
        ensures
            match r {
                Ok(img) => {
                    &&& img@.wf()
                    &&& img@.width == width
                    &&& img@.height == height
                    &&& img@.pixels == data@
                    &&& width > 0
                    &&& height > 0
                    &&& data@.len() == 4 * width * height
                },
                Err(e) => {
                    &&& (e matches ImgError::InvalidDimensions { expected, actual } && expected
                        == 4 * width * height && actual == data@.len())
                    &&& !(width > 0 && height > 0 && data@.len() == 4 * width * height)
                },
            },
    {
        proof {
            assert(4 * (width as int) * (height as int) <= 4 * 0xffff_ffffint * 0xffff_ffffint)
                by (nonlinear_arith)
                requires
                    0 <= width as int <= 0xffff_ffffint,
                    0 <= height as int <= 0xffff_ffffint,
            ;
        }
        let expected: u128 = 4u128 * (width as u128) * (height as u128);
        if width == 0 || height == 0 || (data.len() as u128) != expected {
            return Err(ImgError::InvalidDimensions { expected, actual: data.len() as u128 });
        }
        Ok(Image { width, height, pixels: vstd::slice::slice_to_vec(data) })
    }

    /// Width in pixels.
    pub fn width(&self) -> (r: u32)
        ensures
            r == self@.width,
    {
        self.width
    }

    /// Height in pixels.
    pub fn height(&self) -> (r: u32)
        ensures
            r == self@.height,
    {
        self.height
    }

    /// A copy of the raw RGBA8 bytes, row-major.
    pub fn to_rgba(&self) -> (r: Vec<u8>)
        ensures
            r@ == self@.pixels,
    {
        vstd::slice::slice_to_vec(self.pixels.as_slice())
    }

    /// Bounds-checked read of the pixel at `(x, y)` as `(r, g, b, a)`.
    /// Fails with `OutOfBounds` exactly when the coordinate exceeds the
    /// dimensions.
    pub fn get_pixel(&self, x: u32, y: u32) -> (r: Result<(u8, u8, u8, u8), ImgError>)
        requires
            self@.wf(),
        ensures
            match r {
                Ok(p) => {
                    &&& x < self@.width
                    &&& y < self@.height
                    &&& p.0 == self@.px(x as int, y as int, 0)
                    &&& p.1 == self@.px(x as int, y as int, 1)
                    &&& p.2 == self@.px(x as int, y as int, 2)
                    &&& p.3 == self@.px(x as int, y as int, 3)
                },
                Err(e) => e is OutOfBounds && (x >= self@.width || y >= self@.height),
            },
    {
        if x >= self.width || y >= self.height {
            return Err(ImgError::OutOfBounds);
        }
        let n: usize = self.pixels.len();
        proof {
            lemma_idx_bound(self.width as int, self.height as int, x as int, y as int, 0);
            assert((y as int) * (self.width as int) >= 0) by (nonlinear_arith)
                requires
                    0 <= (y as int),
                    0 <= (self.width as int),
            ;
        }
        let base: usize = ((y as usize) * (self.width as usize) + (x as usize)) * 4;
        Ok((self.pixels[base], self.pixels[base + 1], self.pixels[base + 2], self.pixels[base + 3]))
    }

    /// Bounds-checked in-place write of the pixel at `(x, y)`. Fails with
    /// `OutOfBounds` exactly when the coordinate exceeds the dimensions, and
    /// then leaves the buffer untouched.
    pub fn set_pixel(&mut self, x: u32, y: u32, r: u8, g: u8, b: u8, a: u8) -> (res: Result<
        (),
        ImgError,
    >)
        requires
            old(self)@.wf(),
        ensures
            match res {
                Ok(()) => {
                    &&& x < old(self)@.width
                    &&& y < old(self)@.height
                    &&& final(self)@.wf()
                    &&& final(self)@.width == old(self)@.width
                    &&& final(self)@.height == old(self)@.height
                    &&& final(self)@.px(x as int, y as int, 0) == r
                    &&& final(self)@.px(x as int, y as int, 1) == g
                    &&& final(self)@.px(x as int, y as int, 2) == b
                    &&& final(self)@.px(x as int, y as int, 3) == a
                    &&& forall|x2: int, y2: int, c2: int|
                        0 <= x2 < old(self)@.width && 0 <= y2 < old(self)@.height && 0 <= c2 < 4
                            && !(x2 == x && y2 == y) ==> final(self)@.px(x2, y2, c2) == old(
                            self,
                        )@.px(x2, y2, c2)
                },
                Err(e) => {
                    &&& e is OutOfBounds
                    &&& (x >= old(self)@.width || y >= old(self)@.height)
                    &&& final(self)@ == old(self)@
                },
            },
    {
        if x >= self.width || y >= self.height {
            return Err(ImgError::OutOfBounds);
        }
        let n: usize = self.pixels.len();
        proof {
            lemma_idx_bound(self.width as int, self.height as int, x as int, y as int, 0);
            assert((y as int) * (self.width as int) >= 0) by (nonlinear_arith)
                requires
                    0 <= (y as int),
                    0 <= (self.width as int),
            ;
        }
        let base: usize = ((y as usize) * (self.width as usize) + (x as usize)) * 4;
        self.pixels[base] = r;
        self.pixels[base + 1] = g;
        self.pixels[base + 2] = b;
        self.pixels[base + 3] = a;
        proof {
            let w: int = old(self)@.width as int;
            let h: int = old(self)@.height as int;
            assert forall|x2: int, y2: int, c2: int|
                0 <= x2 < w && 0 <= y2 < h && 0 <= c2 < 4 && !(x2 == x && y2 == y) implies self@.px(
                x2,
                y2,
                c2,
            ) == old(self)@.px(x2, y2, c2) by {
                lemma_idx_compose(w, h, x2, y2, c2);
                lemma_idx_compose(w, h, x as int, y as int, 0);
                lemma_idx_compose(w, h, x as int, y as int, 1);
                lemma_idx_compose(w, h, x as int, y as int, 2);
                lemma_idx_compose(w, h, x as int, y as int, 3);
            }
        }
        Ok(())
    }
}

/// Appends the four channels of pixel `(sx, sy)` of a `sw`-wide source byte
/// buffer to `dst`.
pub(crate) fn push_pixel(dst: &mut Vec<u8>, src: &Vec<u8>, sw: u32, sx: u32, sy: u32)
    requires
        sx < sw,
        0 <= 4 * ((sy as int) * (sw as int) + (sx as int)) + 4 <= src@.len(),
    ensures
        final(dst)@.len() == old(dst)@.len() + 4,
        forall|j: int| 0 <= j < old(dst)@.len() ==> final(dst)@[j] == old(dst)@[j],
        final(dst)@[old(dst)@.len() as int + 0] == src@[4 * ((sy as int) * (sw as int) + (sx as int))],
        final(dst)@[old(dst)@.len() as int + 1] == src@[4 * ((sy as int) * (sw as int) + (sx as int)) + 1],
        final(dst)@[old(dst)@.len() as int + 2] == src@[4 * ((sy as int) * (sw as int) + (sx as int)) + 2],
        final(dst)@[old(dst)@.len() as int + 3] == src@[4 * ((sy as int) * (sw as int) + (sx as int)) + 3],
{
    let n: usize = src.len();
    proof {
        assert((sy as int) * (sw as int) >= 0) by (nonlinear_arith)
            requires
                (sy as int) >= 0,
                (sw as int) >= 0,
        ;
        assert(4 * ((sy as int) * (sw as int) + (sx as int)) + 4 <= n as int);
    }
    let base: usize = ((sy as usize) * (sw as usize) + (sx as usize)) * 4;
    dst.push(src[base]);
    dst.push(src[base + 1]);
    dst.push(src[base + 2]);
    dst.push(src[base + 3]);
}

} // verus!
