//! Error values returned by the operations of the crate.
use crate::image::ImageFormat;
use vstd::prelude::*;

verus! {

/// The error of `std::io`, which decoders and encoders hand through. Nothing
/// is known of what it holds.
#[verifier::external_type_specification]
#[verifier::external_body]
pub struct ExIoError(std::io::Error);

/// Everything that an operation of this crate can fail with.
#[derive(Debug)]
pub enum RasterError {
    /// An error of reading or writing.
    Io(std::io::Error),
    /// Getting or setting a pixel outside of the image.
    PixelOutOfBounds(i32, i32),
    /// The byte index computed for a pixel is negative. Holds that index,
    /// or `i32::MIN` where it lies below that.
    InvalidStartIndex(i32),
    /// A hex color that does not start with `#` or has the wrong length.
    InvalidHex,
    /// A hex color with something else than hex digits after the `#`.
    HexParse,
    /// The image to blend lies completely outside of the canvas.
    BlendingImageFallsOutsideCanvas,
    /// A gamma outside of 0.01 ..= 9.99, in fixed-point units.
    InvalidGamma(i32),
    /// A mode selector that names no mode: the mode family and the selector.
    InvalidParameterMode(String, String),
    /// A decoder produced something that is no image, or failed.
    Decode(ImageFormat, String),
    /// An encoder failed.
    Encode(ImageFormat, String),
    /// A file extension that names no supported format.
    UnsupportedFormat(String),
    /// Error that does not belong in other variants.
    Unexpected,
}

pub type RasterResult<T> = Result<T, RasterError>;

} // verus!
