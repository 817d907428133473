//! The format codec: decoding PNG, JPEG and GIF bytes into a pixel buffer
//! and encoding a pixel buffer as PNG or JPEG. The container formats are
//! handled by the `image` crate behind trusted wrappers; everything around
//! the calls — validation, alpha stripping, quality clamping, error
//! mapping — is verified. Each wrapper names its result with an
//! uninterpreted spec function: the codecs are deterministic functions of
//! their inputs, which is all the surrounding contracts rely on.

use vstd::prelude::*;
use vstd::arithmetic::div_mod::lemma_fundamental_div_mod_converse;
use crate::buffer::{Image, ImgView, lemma_pixel_count};
use crate::error::{Format, ImgError};

verus! {

/// A code for each container format, used to index the named decode result.
pub open spec fn format_code(f: Format) -> int {
    match f {
        Format::Png => 1,
        Format::Jpeg => 2,
        Format::Gif => 3,
    }
}

/// What decoding `data` as the format with code `format` yields: `None` when
/// the container is malformed or unsupported, otherwise the dimensions and
/// the RGBA8-normalized pixel bytes.
pub uninterp spec fn decoded_image(data: Seq<u8>, format: int) -> Option<(nat, nat, Seq<u8>)>;

/// What encoding an RGBA8 buffer as PNG yields: the encoder writes into an
/// in-memory vector, so the outcome is a function of the buffer and the
/// dimensions alone; `None` when the encoder refuses the dimensions.
pub uninterp spec fn png_encode_result(pixels: Seq<u8>, width: nat, height: nat) -> Option<Seq<u8>>;

/// What encoding an RGB (no alpha) buffer as JPEG at the given quality
/// yields; `None` when the encoder refuses the dimensions (JPEG holds
/// neither side above 65535 pixels).
pub uninterp spec fn jpeg_encode_result(
    rgb: Seq<u8>,
    width: nat,
    height: nat,
    quality: u8,
) -> Option<Seq<u8>>;

/// What Lanczos (windowed-sinc, support radius 3) resampling of an RGBA8
/// buffer into the given bounds yields: the fitted dimensions and the
/// resampled pixel bytes.
pub uninterp spec fn lanczos_resized(
    pixels: Seq<u8>,
    width: nat,
    height: nat,
    bound_w: nat,
    bound_h: nat,
) -> (nat, nat, Seq<u8>);

/// Relies on `image::load_from_memory_with_format` followed by
/// `DynamicImage::to_rgba8`: strict parsing of the named container format
/// (for GIF, the first frame), with every source color mode normalized to
/// RGBA8 and an opaque alpha channel added where the source has none. The
/// outcome is a function of the bytes and the format alone, and on success
/// the buffer holds exactly `width * height * 4` bytes (an `ImageBuffer`
/// invariant).
#[verifier::external_body]
fn decode_raw(data: &[u8], format: Format) -> (r: Result<(u32, u32, Vec<u8>), String>)
    ensures
        match r {
            Ok(t) => decoded_image(data@, format_code(format)) == Some(
                (t.0 as nat, t.1 as nat, t.2@),
            ) && t.2@.len() == 4 * t.0 * t.1,
            Err(_) => decoded_image(data@, format_code(format)) is None,
        },
{
    let fmt = match format {
        Format::Png => image::ImageFormat::Png,
        Format::Jpeg => image::ImageFormat::Jpeg,
        Format::Gif => image::ImageFormat::Gif,
    };
    match image::load_from_memory_with_format(data, fmt) {
        Ok(img) => {
            let rgba = img.to_rgba8();
            let (w, h) = (rgba.width(), rgba.height());
            Ok((w, h, rgba.into_raw()))
        },
        Err(e) => Err(format!("decode failed: {}", e)),
    }
}

/// Relies on `DynamicImage::write_to` with the PNG format: a lossless PNG
/// encoding of the RGBA8 buffer, a function of the pixel bytes and the
/// dimensions alone; writing into an in-memory vector never fails on the
/// writer's side, so failure depends on the inputs alone too.
#[verifier::external_body]
fn encode_png_raw(pixels: &Vec<u8>, width: u32, height: u32) -> (r: Result<Vec<u8>, String>)
    requires
        width > 0,
        height > 0,
        pixels@.len() == 4 * width * height,
    ensures
        match r {
            Ok(b) => png_encode_result(pixels@, width as nat, height as nat) == Some(b@),
            Err(_) => png_encode_result(pixels@, width as nat, height as nat) is None,
        },
{
    let buf = image::ImageBuffer::<image::Rgba<u8>, Vec<u8>>::from_raw(
        width,
        height,
        pixels.clone(),
    ).unwrap();
    let img = image::DynamicImage::ImageRgba8(buf);
    let mut out: Vec<u8> = Vec::new();
    match img.write_to(&mut std::io::Cursor::new(&mut out), image::ImageFormat::Png) {
        Ok(()) => Ok(out),
        Err(e) => Err(format!("PNG encoding failed: {}", e)),
    }
}

/// Relies on `JpegEncoder::new_with_quality` and `JpegEncoder::encode` with
/// the RGB8 layout: a JPEG encoding of the buffer at the given quality,
/// written into an in-memory vector, so the outcome — bytes, or a refusal
/// of dimensions above 65535 — is a function of the bytes, dimensions and
/// quality alone. The encoder asserts that the buffer holds exactly
/// `width * height * 3` bytes, which the preconditions guarantee.
#[verifier::external_body]
fn encode_jpeg_raw(rgb: &Vec<u8>, width: u32, height: u32, quality: u8) -> (r: Result<
    Vec<u8>,
    String,
>)
    requires
        width > 0,
        height > 0,
        1 <= quality <= 100,
        rgb@.len() == 3 * width * height,
    ensures
        match r {
            Ok(b) => jpeg_encode_result(rgb@, width as nat, height as nat, quality) == Some(b@),
            Err(_) => jpeg_encode_result(rgb@, width as nat, height as nat, quality) is None,
        },
{
    let mut out: Vec<u8> = Vec::new();
    let mut enc = image::codecs::jpeg::JpegEncoder::new_with_quality(&mut out, quality);
    match enc.encode(rgb.as_slice(), width, height, image::ExtendedColorType::Rgb8) {
        Ok(()) => Ok(out),
        Err(e) => Err(format!("JPEG encoding failed: {}", e)),
    }
}

/// Relies on `DynamicImage::resize` with the Lanczos3 filter: separable
/// windowed-sinc resampling whose output dimensions preserve the aspect
/// ratio and fit within the requested bounds, each at least one pixel (per
/// `resize_dimensions`); the result is a function of the buffer and the
/// bounds alone. The size preconditions keep the encoder's intermediate
/// four-float-channel buffer and the output buffer within address range.
#[verifier::external_body]
fn resample_lanczos(pixels: &Vec<u8>, width: u32, height: u32, nw: u32, nh: u32) -> (r: (
    u32,
    u32,
    Vec<u8>,
))
    requires
        width > 0,
        height > 0,
        pixels@.len() == 4 * width * height,
        nw > 0,
        nh > 0,
        16 * width * nh <= usize::MAX,
        4 * nw * nh <= usize::MAX,
    ensures
        (r.0 as nat, r.1 as nat, r.2@) == lanczos_resized(
            pixels@,
            width as nat,
            height as nat,
            nw as nat,
            nh as nat,
        ),
        1 <= r.0 <= nw,
        1 <= r.1 <= nh,
        r.2@.len() == 4 * r.0 * r.1,
{
    let buf = image::ImageBuffer::<image::Rgba<u8>, Vec<u8>>::from_raw(
        width,
        height,
        pixels.clone(),
    ).unwrap();
    let img = image::DynamicImage::ImageRgba8(buf).resize(
        nw,
        nh,
        image::imageops::FilterType::Lanczos3,
    );
    let (rw, rh) = (img.width(), img.height());
    (rw, rh, img.into_rgba8().into_raw())
}

/// What `decode` promises: on success the buffer is exactly the named decode
/// result, which must be well-dimensioned; on failure a `DecodeError`
/// carrying the attempted format, exactly when the bytes do not decode to a
/// buffer with positive dimensions.
pub open spec fn decode_post(r: Result<Image, ImgError>, data: Seq<u8>, format: Format) -> bool {
    match r {
        Ok(img) => {
            &&& img@.wf()
            &&& decoded_image(data, format_code(format)) == Some(
                (img@.width, img@.height, img@.pixels),
            )
        },
        Err(e) => {
            &&& (e matches ImgError::DecodeError { format: f, reason: _ } && f == format)
            &&& match decoded_image(data, format_code(format)) {
                Option::None => true,
                Option::Some(t) => t.0 == 0 || t.1 == 0,
            }
        },
    }
}

/// Decodes compressed bytes as the given container format into a pixel
/// buffer. Parsing is strict: any structural violation fails with
/// `DecodeError`, and so does an image with a zero dimension, which no
/// buffer may have. All source color modes are normalized to RGBA8.
pub fn decode(data: &[u8], format: Format) -> (r: Result<Image, ImgError>)
    ensures
        decode_post(r, data@, format),
{
    match decode_raw(data, format) {
        Ok((w, h, pixels)) => {
            if w == 0 || h == 0 {
                return Err(
                    ImgError::DecodeError {
                        format,
                        reason: "decoded image has zero dimension".to_string(),
                    },
                );
            }
            Ok(Image { width: w, height: h, pixels })
        },
        Err(reason) => Err(ImgError::DecodeError { format, reason }),
    }
}

/// Decodes PNG bytes; `decode` with the PNG format.
pub fn decode_png(data: &[u8]) -> (r: Result<Image, ImgError>)
    ensures
        decode_post(r, data@, Format::Png),
{
    decode(data, Format::Png)
}

/// Decodes JPEG bytes; `decode` with the JPEG format.
pub fn decode_jpeg(data: &[u8]) -> (r: Result<Image, ImgError>)
    ensures
        decode_post(r, data@, Format::Jpeg),
{
    decode(data, Format::Jpeg)
}

/// Decodes GIF bytes (first frame only); `decode` with the GIF format.
pub fn decode_gif(data: &[u8]) -> (r: Result<Image, ImgError>)
    ensures
        decode_post(r, data@, Format::Gif),
{
    decode(data, Format::Gif)
}

/// JPEG quality as the encoder receives it: silently clamped to `[1, 100]`.
pub open spec fn clamp_quality(q: u8) -> u8 {
    if q < 1 {
        1
    } else if q > 100 {
        100
    } else {
        q
    }
}

/// The RGB bytes of a buffer with the alpha channel dropped: three bytes
/// per pixel, in pixel order.
pub open spec fn rgb_bytes(v: ImgView) -> Seq<u8> {
    Seq::new(
        3 * v.width * v.height,
        |i: int|
            {
                let p = i / 3;
                let c = i % 3;
                v.pixels[4 * p + c]
            },
    )
}

impl Image {
    /// Encodes as PNG, losslessly. Fails only with `EncodeError`, exactly
    /// when the encoder refuses the buffer's dimensions.
    pub fn encode_png(&self) -> (r: Result<Vec<u8>, ImgError>)
        requires
            self@.wf(),
        ensures
            match r {
                Ok(b) => png_encode_result(self@.pixels, self@.width, self@.height) == Some(b@),
                Err(e) => e is EncodeError && png_encode_result(
                    self@.pixels,
                    self@.width,
                    self@.height,
                ) is None,
            },
    {
        match encode_png_raw(&self.pixels, self.width, self.height) {
            Ok(b) => Ok(b),
            Err(_) => Err(ImgError::EncodeError),
        }
    }

    /// Encodes as JPEG at the given quality, which is silently clamped to
    /// `[1, 100]`. JPEG has no alpha channel: the alpha bytes are dropped
    /// before encoding. Fails only with `EncodeError`, exactly when the
    /// encoder refuses the buffer's dimensions (above 65535 on a side).
    #[verifier::loop_isolation(false)]
    pub fn encode_jpeg(&self, quality: u8) -> (r: Result<Vec<u8>, ImgError>)
        requires
            self@.wf(),
        ensures
            match r {
                Ok(b) => jpeg_encode_result(
                    rgb_bytes(self@),
                    self@.width,
                    self@.height,
                    clamp_quality(quality),
                ) == Some(b@),
                Err(e) => e is EncodeError && jpeg_encode_result(
                    rgb_bytes(self@),
                    self@.width,
                    self@.height,
                    clamp_quality(quality),
                ) is None,
            },
    {
        let q: u8 = if quality < 1 {
            1
        } else if quality > 100 {
            100
        } else {
            quality
        };
        proof {
            lemma_pixel_count(self@);
            assert(3 * ((self@.width * self@.height) as int) == 3 * self@.width * self@.height)
                by (nonlinear_arith);
        }
        let n: usize = self.pixels.len();
        let npix: usize = n / 4;
        let mut rgb: Vec<u8> = Vec::new();
        let mut p: usize = 0;
        while p < npix
            invariant
                p <= npix,
                rgb@.len() == 3 * (p as int),
                forall|j: int| 0 <= j < rgb@.len() ==> rgb@[j] == rgb_bytes(self@)[j],
            decreases npix - p,
        {
            let base: usize = p * 4;
            proof {
                lemma_fundamental_div_mod_converse(3 * (p as int) + 0, 3, p as int, 0);
                lemma_fundamental_div_mod_converse(3 * (p as int) + 1, 3, p as int, 1);
                lemma_fundamental_div_mod_converse(3 * (p as int) + 2, 3, p as int, 2);
            }
            rgb.push(self.pixels[base]);
            rgb.push(self.pixels[base + 1]);
            rgb.push(self.pixels[base + 2]);
            p = p + 1;
        }
        proof {
            assert(rgb@ =~= rgb_bytes(self@));
        }
        match encode_jpeg_raw(&rgb, self.width, self.height, q) {
            Ok(b) => Ok(b),
            Err(_) => Err(ImgError::EncodeError),
        }
    }

    /// Resizes with high-quality Lanczos (windowed-sinc, support radius 3)
    /// resampling. The aspect ratio is preserved: the result is the largest
    /// buffer that fits within `nwidth` by `nheight`, each dimension at
    /// least one pixel. The size preconditions keep the resampler's
    /// buffers within address range.
    pub fn resize(&self, nwidth: u32, nheight: u32) -> (r: Image)
        requires
            self@.wf(),
            nwidth > 0,
            nheight > 0,
            16 * self@.width * nheight <= usize::MAX,
            4 * nwidth * nheight <= usize::MAX,
        ensures
            r@.wf(),
            1 <= r@.width <= nwidth,
            1 <= r@.height <= nheight,
            (r@.width, r@.height, r@.pixels) == lanczos_resized(
                self@.pixels,
                self@.width,
                self@.height,
                nwidth as nat,
                nheight as nat,
            ),
    {
        let (w, h, pixels) = resample_lanczos(&self.pixels, self.width, self.height, nwidth, nheight);
        Image { width: w, height: h, pixels }
    }
}

} // verus!
