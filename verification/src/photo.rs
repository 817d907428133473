//! Photometric transforms: grayscale conversion, colour inversion and
//! brightness adjustment. Each is a per-channel map over the pixel bytes,
//! stated as a spec-level view and proved byte-exact. Inversion is the one
//! in-place operation of the engine; the others return a new buffer.

use vstd::prelude::*;
use vstd::arithmetic::div_mod::{lemma_fundamental_div_mod_converse, lemma_multiply_divide_lt};
use crate::buffer::{Image, ImgView, lemma_pixel_count};

verus! {

/// Perceptual luminance of an RGB triple, with the standard integer-scaled
/// weights 2126/10000 red, 7152/10000 green and 722/10000 blue.
pub open spec fn luma(r: u8, g: u8, b: u8) -> u8 {
    ((2126 * r + 7152 * g + 722 * b) / 10000) as u8
}

/// A channel value moved by `d` and clamped to the byte range.
pub open spec fn clamp_channel(v: int) -> u8 {
    if v < 0 {
        0
    } else if v > 255 {
        255
    } else {
        v as u8
    }
}

/// Every pixel's RGB channels replaced by their luminance; alpha kept.
pub open spec fn grayscale_spec(v: ImgView) -> ImgView {
    ImgView {
        width: v.width,
        height: v.height,
        pixels: Seq::new(
            v.pixels.len(),
            |i: int|
                {
                    let b0 = 4 * (i / 4);
                    if i % 4 == 3 {
                        v.pixels[i]
                    } else {
                        luma(v.pixels[b0], v.pixels[b0 + 1], v.pixels[b0 + 2])
                    }
                },
        ),
    }
}

/// Every RGB channel value `x` replaced by `255 - x`; alpha kept.
pub open spec fn invert_spec(v: ImgView) -> ImgView {
    ImgView {
        width: v.width,
        height: v.height,
        pixels: Seq::new(
            v.pixels.len(),
            |i: int|
                if i % 4 == 3 {
                    v.pixels[i]
                } else {
                    (255 - v.pixels[i]) as u8
                },
        ),
    }
}

/// Every RGB channel moved by the signed offset `d` and clamped to the byte
/// range; alpha kept.
pub open spec fn brighten_spec(v: ImgView, d: int) -> ImgView {
    ImgView {
        width: v.width,
        height: v.height,
        pixels: Seq::new(
            v.pixels.len(),
            |i: int|
                if i % 4 == 3 {
                    v.pixels[i]
                } else {
                    clamp_channel(v.pixels[i] + d)
                },
        ),
    }
}

/// Splitting the byte index `4 * p + c` back into pixel `p` and channel `c`.
proof fn lemma_pixel_byte(p: int, c: int)
    requires
        0 <= p,
        0 <= c < 4,
    ensures
        (4 * p + c) / 4 == p,
        (4 * p + c) % 4 == c,
{
    lemma_fundamental_div_mod_converse(4 * p + c, 4, p, c);
}

impl Image {
    /// Converts to grayscale in a new buffer: each pixel's RGB channels are
    /// replaced by their perceptual luminance, alpha is preserved.
    #[verifier::loop_isolation(false)]
    pub fn grayscale(&self) -> (r: Image)
        requires
            self@.wf(),
        ensures
            r@ == grayscale_spec(self@),
            r@.wf(),
    {
        proof {
            lemma_pixel_count(self@);
        }
        let ghost target = grayscale_spec(self@);
        let n: usize = self.pixels.len();
        let npix: usize = n / 4;
        let mut out: Vec<u8> = Vec::new();
        let mut p: usize = 0;
        while p < npix
            invariant
                p <= npix,
                out@.len() == 4 * (p as int),
                forall|j: int| 0 <= j < out@.len() ==> out@[j] == target.pixels[j],
            decreases npix - p,
        {
            let base: usize = p * 4;
            let cr: u8 = self.pixels[base];
            let cg: u8 = self.pixels[base + 1];
            let cb: u8 = self.pixels[base + 2];
            let ca: u8 = self.pixels[base + 3];
            let weighted: u32 = 2126 * (cr as u32) + 7152 * (cg as u32) + 722 * (cb as u32);
            proof {
                lemma_multiply_divide_lt(weighted as int, 10000, 256);
            }
            let l: u8 = (weighted / 10000) as u8;
            proof {
                lemma_pixel_byte(p as int, 0);
                lemma_pixel_byte(p as int, 1);
                lemma_pixel_byte(p as int, 2);
                lemma_pixel_byte(p as int, 3);
            }
            out.push(l);
            out.push(l);
            out.push(l);
            out.push(ca);
            p = p + 1;
        }
        proof {
            assert(out@ =~= target.pixels);
        }
        Image { width: self.width, height: self.height, pixels: out }
    }

    /// Inverts the colours in place: every RGB channel value `x` becomes
    /// `255 - x`, alpha is untouched. This is the engine's one in-place
    /// transform; the receiver is mutated rather than copied.
    #[verifier::loop_isolation(false)]
    pub fn invert(&mut self)
        requires
            old(self)@.wf(),
        ensures
            final(self)@ == invert_spec(old(self)@),
            final(self)@.wf(),
    {
        let n: usize = self.pixels.len();
        let mut i: usize = 0;
        while i < n
            invariant
                i <= n,
                self.width == old(self).width,
                self.height == old(self).height,
                self@.pixels.len() == n,
                forall|j: int| 0 <= j < i ==> self@.pixels[j] == invert_spec(old(self)@).pixels[j],
                forall|j: int| i <= j < n ==> self@.pixels[j] == old(self)@.pixels[j],
            decreases n - i,
        {
            if i % 4 != 3 {
                let v: u8 = self.pixels[i];
                self.pixels[i] = 255 - v;
            }
            i = i + 1;
        }
        proof {
            assert(self@.pixels =~= invert_spec(old(self)@).pixels);
        }
    }

    /// Adds the signed offset `value` to every RGB channel, clamping to the
    /// byte range, in a new buffer; alpha is preserved.
    #[verifier::loop_isolation(false)]
    pub fn brighten(&self, value: i32) -> (r: Image)
        requires
            self@.wf(),
        ensures
            r@ == brighten_spec(self@, value as int),
            r@.wf(),
    {
        let ghost target = brighten_spec(self@, value as int);
        let n: usize = self.pixels.len();
        let mut out: Vec<u8> = Vec::new();
        let mut i: usize = 0;
        while i < n
            invariant
                i <= n,
                out@.len() == i,
                forall|j: int| 0 <= j < out@.len() ==> out@[j] == target.pixels[j],
            decreases n - i,
        {
            if i % 4 == 3 {
                out.push(self.pixels[i]);
            } else {
                let moved: i64 = (self.pixels[i] as i64) + (value as i64);
                let clamped: u8 = if moved < 0 {
                    0
                } else if moved > 255 {
                    255
                } else {
                    moved as u8
                };
                out.push(clamped);
            }
            i = i + 1;
        }
        proof {
            assert(out@ =~= target.pixels);
        }
        Image { width: self.width, height: self.height, pixels: out }
    }
}

} // verus!
