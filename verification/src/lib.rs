//! A raster image engine: an RGBA8 pixel buffer with verified geometric and
//! photometric transforms, and a codec layer over the `image` crate for the
//! PNG, JPEG and GIF container formats.

pub mod buffer;
pub mod codec;
pub mod error;
pub mod geometry;
pub mod photo;

pub use buffer::Image;
pub use codec::{decode, decode_gif, decode_jpeg, decode_png};
pub use error::{Format, ImgError};

use vstd::prelude::*;

verus! {

/// Version tag of the engine and of the codec backend it links against.
pub fn get_version() -> (r: String)
    ensures
        r@ == "rasterlib 0.1.0 (image 0.25)"@,
{
    proof {
        reveal_strlit("rasterlib 0.1.0 (image 0.25)");
    }
    "rasterlib 0.1.0 (image 0.25)".to_string()
}

} // verus!
