//! The container formats the codec understands and the structured failure
//! values every fallible operation returns.

use vstd::prelude::*;

verus! {

/// A compressed image container format.
#[derive(Clone, Copy, Debug, PartialEq, Eq, Structural)]
pub enum Format {
    Png,
    Jpeg,
    Gif,
}

/// Why an operation failed. Every fallible operation returns one of these
/// rather than aborting; the payloads carry enough context to diagnose the
/// failure without inspecting internals.
#[derive(Clone, Debug, PartialEq, Eq)]
pub enum ImgError {
    /// A raw byte buffer does not hold `width * height * 4` bytes.
    InvalidDimensions { expected: u128, actual: u128 },
    /// Compressed input was malformed or unsupported for the given format.
    DecodeError { format: Format, reason: String },
    /// The encoder failed internally.
    EncodeError,
    /// A coordinate or rectangle exceeds the buffer's dimensions.
    OutOfBounds,
}

impl ImgError {
    /// A short description of the error, suitable for display by a caller.
    pub fn describe(&self) -> String {
        match self {
            ImgError::InvalidDimensions { .. } => "invalid image dimensions or data".to_string(),
            ImgError::DecodeError { reason, .. } => reason.clone(),
            ImgError::EncodeError => "encoding failed".to_string(),
            ImgError::OutOfBounds => "coordinates out of bounds".to_string(),
        }
    }
}

} // verus!
