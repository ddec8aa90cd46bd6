//! Raster image processing on an in-memory grid of RGBA pixels.
//!
//! An [`Image`] owns a flat byte buffer of `width * height` pixels, four bytes
//! each. Every operation of the crate is specified over [`Raster`], the
//! mathematical view of an image: its two dimensions and its pixels as a
//! sequence of colors in row-major order. The contract of an operation says
//! which raster comes out for which raster goes in, and on which inputs the
//! operation fails with which error.
//!
//! # Whole numbers only
//!
//! All arithmetic is done in whole numbers, and it is exact: where a formula
//! asks for a quotient, the quotient is rounded once, at the end, in the way
//! that the contract names.
//!
//! - Fractional parameters (opacity, brightness, saturation, gamma) are
//!   fixed-point numbers: [`UNIT`] stands for one.
//! - Saturation and brightness of a color in HSV are percentages in
//!   fixed-point units: [`color::FULL`] stands for 100 %.
//! - Sines and cosines are taken from a table of the sines of whole degrees
//!   in units of one billionth, see [`trig`].
//! - The transfer curve of a gamma correction, which is a power with a
//!   fraction as exponent, is handed in as a table.
//!
//! # Modules
//!
//! - [`image`]: the pixel buffer, reading and writing pixels, the histogram.
//! - [`color`]: colors, their hex notation, RGB and HSV; [`hsv`] holds what
//!   the conversion to HSV and back keeps.
//! - [`position`]: placing a rectangle on another by an anchor.
//! - [`blend`] and [`editor`]: compositing, cropping, filling, resizing.
//! - [`interpolate`]: resampling to another size.
//! - [`filter`]: convolution and the filters built on it, and adjustments of
//!   single pixels.
//! - [`transform`]: flipping, rotating, and resizing with the aspect ratio
//!   kept.
//! - [`compare`]: equality and likeness of images.
//! - [`endec`]: decoding and encoding GIF and PNG data in memory.
use vstd::prelude::*;

pub mod blend;
pub mod color;
pub mod compare;
pub mod editor;
pub mod endec;
pub mod error;
pub mod filter;
mod grid;
pub mod hsv;
pub mod image;
pub mod interpolate;
pub mod position;
pub mod transform;
pub mod trig;

pub use crate::blend::BlendMode;
pub use crate::color::Color;
pub use crate::editor::ResizeMode;
pub use crate::error::{RasterError, RasterResult};
pub use crate::filter::{BlurMode, Orientation};
pub use crate::image::{Histogram, Image, ImageFormat, Raster};
pub use crate::interpolate::InterpolationMode;
pub use crate::position::{Position, PositionMode};
pub use crate::transform::TransformMode;

verus! {

/// The fixed-point scale of fractional parameters: `UNIT` stands for 1.0.
pub const UNIT: i32 = 10_000;

} // verus!
