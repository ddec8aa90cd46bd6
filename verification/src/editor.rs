//! Common editing operations: blending, cropping, filling, resizing.
use crate::blend::{blend_channel, blend_color, compose, composed, mode_value, scaled_base, BlendMode};
use crate::color::Color;
use crate::error::{RasterError, RasterResult};
use crate::grid::{lemma_index_inside, lemma_index_split, lemma_next_row};
use crate::image::{lemma_build_at, lemma_build_wf, lemma_same_pixels, pixels_of, push_pixel, Image, Raster};
use crate::interpolate::{bilinear_resampled, resample_fails, InterpolationMode};
use crate::position::PositionMode;
use crate::transform::{
    exact_height_size, exact_width_size, fill_size, fit_size, has_pixels, resize_exact, resize_exact_height,
    resize_exact_width, resize_fill, resize_fit,
};
use crate::UNIT;
use vstd::prelude::*;

verus! {

/// An opacity brought into the range from zero to one.
pub open spec fn clamped_opacity(opacity: int) -> int {
    if opacity > UNIT {
        UNIT as int
    } else if opacity < 0 {
        0
    } else {
        opacity
    }
}

/// Whether a top image whose top left corner lies at `(x, y)` of the base
/// shares at least one pixel with it.
pub open spec fn overlaps(base: Raster, top: Raster, x: int, y: int) -> bool {
    !(x >= base.width || x + top.width <= 0 || y >= base.height || y + top.height <= 0)
}

/// The base with the top image blended onto it at `(x, y)`: a pixel of the
/// base that the top image covers is blended with the pixel that covers it,
/// every other pixel keeps its color.
pub open spec fn blended(base: Raster, top: Raster, mode: BlendMode, opacity: int, x: int, y: int) -> Raster {
    composed(base, top, mode, 0, top.height, 0, top.width, x, y, clamped_opacity(opacity))
}

/// Blend two images into one: `image1` is the base and `image2` goes on top,
/// placed by `position` and moved by the offsets. An opacity outside of
/// `0 ..= UNIT` counts as the nearest bound.
///
/// Fails with `BlendingImageFallsOutsideCanvas` where `image2` then shares no
/// pixel with `image1`.
pub fn blend(
    image1: &Image,
    image2: &Image,
    blend_mode: BlendMode,
    opacity: i32,
    position: PositionMode,
    offset_x: i32,
    offset_y: i32,
) -> (r: RasterResult<Image>)
    requires
        image1.wf(),
        image2.wf(),
    ensures
        ({
            let at = position.place(
                image1@.width,
                image1@.height,
                image2@.width,
                image2@.height,
                offset_x as int,
                offset_y as int,
            );
            if overlaps(image1@, image2@, at.0, at.1) {
                r matches Ok(canvas) && canvas.wf() && canvas@ == blended(
                    image1@,
                    image2@,
                    blend_mode,
                    opacity as int,
                    at.0,
                    at.1,
                )
            } else {
                r matches Err(e) && e == RasterError::BlendingImageFallsOutsideCanvas
            }
        }),
{
    let opacity: i32 = if opacity > UNIT {
        UNIT
    } else if opacity < 0 {
        0
    } else {
        opacity
    };
    let (w1, h1): (i64, i64) = (image1.width as i64, image1.height as i64);
    let (w2, h2): (i64, i64) = (image2.width as i64, image2.height as i64);
    let (x, y) = position.locate(image1.width, image1.height, image2.width, image2.height, offset_x, offset_y);
    if x >= w1 || x + w2 <= 0 || y >= h1 || y + h2 <= 0 {
        return Err(RasterError::BlendingImageFallsOutsideCanvas);
    }
    let loop_start_x: i64 = if x < 0 {
        -x
    } else {
        0
    };
    let loop_end_x: i64 = if x + w2 > w1 {
        w1 - x
    } else {
        w2
    };
    let loop_start_y: i64 = if y < 0 {
        -y
    } else {
        0
    };
    let loop_end_y: i64 = if y + h2 > h1 {
        h1 - y
    } else {
        h2
    };
    let r = compose(
        image1,
        image2,
        blend_mode,
        loop_start_y as i32,
        loop_end_y as i32,
        loop_start_x as i32,
        loop_end_x as i32,
        x as i32,
        y as i32,
        opacity,
    );
    proof {
        let clipped = composed(
            image1@,
            image2@,
            blend_mode,
            loop_start_y as int,
            loop_end_y as int,
            loop_start_x as int,
            loop_end_x as int,
            x as int,
            y as int,
            opacity as int,
        );
        let whole = blended(image1@, image2@, blend_mode, opacity as int, x as int, y as int);
        lemma_build_wf(w1 as int, h1 as int, |i: int, j: int| Color::opaque_black());
        assert forall|i: int, j: int| clipped.inside(i, j) implies clipped.at(i, j) == whole.at(i, j) by {
            lemma_composed_at(
                image1@,
                image2@,
                blend_mode,
                loop_start_y as int,
                loop_end_y as int,
                loop_start_x as int,
                loop_end_x as int,
                x as int,
                y as int,
                opacity as int,
                i,
                j,
            );
            lemma_composed_at(
                image1@,
                image2@,
                blend_mode,
                0,
                h2 as int,
                0,
                w2 as int,
                x as int,
                y as int,
                opacity as int,
                i,
                j,
            );
        }
        lemma_same_pixels(clipped, whole);
    }
    r
}

/// The color that `composed` gives to a pixel of the base.
pub proof fn lemma_composed_at(
    base: Raster,
    top: Raster,
    mode: BlendMode,
    start_y: int,
    end_y: int,
    start_x: int,
    end_x: int,
    offset_x: int,
    offset_y: int,
    opacity: int,
    x: int,
    y: int,
)
    requires
        base.inside(x, y),
    ensures
        composed(base, top, mode, start_y, end_y, start_x, end_x, offset_x, offset_y, opacity).wf(),
        composed(base, top, mode, start_y, end_y, start_x, end_x, offset_x, offset_y, opacity).at(x, y) == (if start_x
            <= x - offset_x < end_x && start_y <= y - offset_y < end_y {
            blend_color(mode, base.at(x, y), top.at(x - offset_x, y - offset_y), opacity)
        } else {
            base.at(x, y)
        }),
{
    lemma_build_at(
        base.width,
        base.height,
        |x: int, y: int|
            if start_x <= x - offset_x < end_x && start_y <= y - offset_y < end_y {
                blend_color(mode, base.at(x, y), top.at(x - offset_x, y - offset_y), opacity)
            } else {
                base.at(x, y)
            },
        x,
        y,
    );
}

/// Where the top image does not cover a pixel of the base, blending leaves
/// the pixel as it is.
pub proof fn lemma_blend_keeps_uncovered(
    base: Raster,
    top: Raster,
    mode: BlendMode,
    opacity: int,
    at_x: int,
    at_y: int,
    x: int,
    y: int,
)
    requires
        base.inside(x, y),
        !top.inside(x - at_x, y - at_y),
    ensures
        blended(base, top, mode, opacity, at_x, at_y).at(x, y) == base.at(x, y),
{
    lemma_composed_at(base, top, mode, 0, top.height, 0, top.width, at_x, at_y, clamped_opacity(opacity), x, y);
}

/// Blending in normal mode with opacity zero leaves an opaque pixel of the
/// base as it is, also where the top image covers it.
pub proof fn lemma_blend_normal_transparent(base: Raster, top: Raster, at_x: int, at_y: int, x: int, y: int)
    requires
        base.inside(x, y),
        base.at(x, y).a == 255,
    ensures
        blended(base, top, BlendMode::Normal, 0, at_x, at_y).at(x, y) == base.at(x, y),
{
    lemma_composed_at(base, top, BlendMode::Normal, 0, top.height, 0, top.width, at_x, at_y, 0, x, y);
    let c = base.at(x, y);
    let t = top.at(x - at_x, y - at_y);
    lemma_mix_nothing(c.r, t.r, t.a);
    lemma_mix_nothing(c.g, t.g, t.a);
    lemma_mix_nothing(c.b, t.b, t.a);
}

/// Blending in normal mode with full opacity replaces a pixel of the base by
/// the opaque pixel of the top image that covers it.
pub proof fn lemma_blend_normal_opaque(base: Raster, top: Raster, at_x: int, at_y: int, x: int, y: int)
    requires
        base.inside(x, y),
        top.inside(x - at_x, y - at_y),
        top.at(x - at_x, y - at_y).a == 255,
    ensures
        blended(base, top, BlendMode::Normal, UNIT as int, at_x, at_y).at(x, y) == top.at(x - at_x, y - at_y),
{
    lemma_composed_at(base, top, BlendMode::Normal, 0, top.height, 0, top.width, at_x, at_y, UNIT as int, x, y);
    let c = base.at(x, y);
    let t = top.at(x - at_x, y - at_y);
    lemma_mix_all(c.r, c.a, t.r);
    lemma_mix_all(c.g, c.a, t.g);
    lemma_mix_all(c.b, c.a, t.b);
}

/// With opacity zero a channel of an opaque base pixel stays what it is.
proof fn lemma_mix_nothing(base: u8, top: u8, top_alpha: u8)
    ensures
        blend_channel(BlendMode::Normal, base, 255, top, top_alpha, 0) == base,
{
    assert(top_alpha * 0 == 0);
    let b = scaled_base(base, 255);
    assert(b == base * 255);
    assert((255 * 10_000 - 0) * (255 * (base * 255)) == base * (255 * 255 * 255 * 10_000int)) by (nonlinear_arith);
    assert((base * (255 * 255 * 255 * 10_000int)) / (255 * 255 * 255 * 10_000int) == base) by (nonlinear_arith);
    assert(0 * mode_value(BlendMode::Normal, b, top as int) == 0);
}

/// With full opacity a channel of an opaque top pixel replaces the base.
proof fn lemma_mix_all(base: u8, base_alpha: u8, top: u8)
    ensures
        blend_channel(BlendMode::Normal, base, base_alpha, top, 255, UNIT as int) == top,
{
    let b = scaled_base(base, base_alpha);
    assert((255 * 10_000int) * (255 * 255 * top) == top * (255 * 255 * 255 * 10_000int)) by (nonlinear_arith);
    assert((top * (255 * 255 * 255 * 10_000int)) / (255 * 255 * 255 * 10_000int) == top) by (nonlinear_arith);
    assert((255 * 10_000int - 255 * 10_000int) * (255 * b) == 0);
}

/// The part of an image that a crop keeps: from `(max(0, x), max(0, y))`, at
/// most `crop_width` columns and `crop_height` rows, as far as the image
/// reaches. Where nothing is left on an axis, the extent on it is zero.
pub open spec fn cropped(src: Raster, x: int, y: int, crop_width: int, crop_height: int) -> Raster {
    let x0 = if x > 0 { x } else { 0 };
    let y0 = if y > 0 { y } else { 0 };
    let x1 = if x0 + crop_width < src.width { x0 + crop_width } else { src.width };
    let y1 = if y0 + crop_height < src.height { y0 + crop_height } else { src.height };
    Raster::build(
        if x1 > x0 { x1 - x0 } else { 0 },
        if y1 > y0 { y1 - y0 } else { 0 },
        |i: int, j: int| src.at(x0 + i, y0 + j),
    )
}

/// Crop the image to a rectangle of the given size, placed on the image by
/// `position` and moved by the offsets. The rectangle is cut to what lies on
/// the image.
pub fn crop(
    src: &mut Image,
    crop_width: i32,
    crop_height: i32,
    position: PositionMode,
    offset_x: i32,
    offset_y: i32,
) -> (r: RasterResult<()>)
    requires
        old(src).wf(),
    ensures
        r == Ok::<(), RasterError>(()),
        final(src).wf(),
        ({
            let at = position.place(
                old(src)@.width,
                old(src)@.height,
                crop_width as int,
                crop_height as int,
                offset_x as int,
                offset_y as int,
            );
            final(src)@ == cropped(old(src)@, at.0, at.1, crop_width as int, crop_height as int)
        }),
{
    let (x, y) = position.locate(src.width, src.height, crop_width, crop_height, offset_x, offset_y);
    let x0: i64 = if x > 0 {
        x
    } else {
        0
    };
    let y0: i64 = if y > 0 {
        y
    } else {
        0
    };
    let x1: i64 = if x0 + (crop_width as i64) < src.width as i64 {
        x0 + crop_width as i64
    } else {
        src.width as i64
    };
    let y1: i64 = if y0 + (crop_height as i64) < src.height as i64 {
        y0 + crop_height as i64
    } else {
        src.height as i64
    };
    let w: i32 = if x1 > x0 {
        (x1 - x0) as i32
    } else {
        0
    };
    let h: i32 = if y1 > y0 {
        (y1 - y0) as i32
    } else {
        0
    };
    let ghost target = cropped(src@, x as int, y as int, crop_width as int, crop_height as int);
    proof {
        lemma_build_wf(w as int, h as int, |i: int, j: int| src@.at(x0 + i, y0 + j));
    }
    let mut bytes: Vec<u8> = Vec::new();
    let mut j: i32 = 0;
    while j < h
        invariant
            0 <= j <= h,
            0 <= w,
            src.wf(),
            0 <= x0,
            0 <= y0,
            w > 0 ==> x0 + w <= src.width,
            h > 0 ==> y0 + h <= src.height,
            target.width == w,
            target.height == h,
            target.pixels == Seq::new((w * h) as nat, |k: int| src@.at(x0 + k % (w as int), y0 + k / (w as int))),
            bytes@.len() == 4 * (j * w),
            pixels_of(bytes@) =~= target.pixels.take(j * w),
        decreases h - j,
    {
        let mut i: i32 = 0;
        while i < w
            invariant
                0 <= j < h,
                0 <= i <= w,
                src.wf(),
                0 <= x0,
                0 <= y0,
                w > 0 ==> x0 + w <= src.width,
                h > 0 ==> y0 + h <= src.height,
                target.width == w,
                target.height == h,
                target.pixels == Seq::new(
                    (w * h) as nat,
                    |k: int| src@.at(x0 + k % (w as int), y0 + k / (w as int)),
                ),
                bytes@.len() == 4 * (j * w + i),
                pixels_of(bytes@) =~= target.pixels.take(j * w + i),
            decreases w - i,
        {
            proof {
                lemma_index_inside(w as int, h as int, i as int, j as int);
                lemma_index_split(w as int, i as int, j as int);
            }
            let color = src.color_at((x0 + i as i64) as i32, (y0 + j as i64) as i32);
            push_pixel(&mut bytes, &color);
            i = i + 1;
        }
        proof {
            lemma_next_row(w as int, j as int);
        }
        j = j + 1;
    }
    let dest = Image::assemble(w, h, bytes, Ghost(target));
    src.width = dest.width;
    src.height = dest.height;
    src.bytes = dest.bytes;
    Ok(())
}

/// Fill an image with one color.
pub fn fill(src: &mut Image, color: Color) -> (r: RasterResult<()>)
    requires
        old(src).wf(),
    ensures
        r == Ok::<(), RasterError>(()),
        final(src).wf(),
        final(src)@ == Raster::filled(old(src)@.width, old(src)@.height, color),
{
    let w: i32 = src.width;
    let h: i32 = src.height;
    let ghost target = Raster::filled(w as int, h as int, color);
    proof {
        lemma_build_wf(w as int, h as int, |x: int, y: int| color);
    }
    let mut bytes: Vec<u8> = Vec::new();
    let mut y: i32 = 0;
    while y < h
        invariant
            0 <= y <= h,
            0 <= w,
            target == Raster::filled(w as int, h as int, color),
            bytes@.len() == 4 * (y * w),
            pixels_of(bytes@) =~= target.pixels.take(y * w),
        decreases h - y,
    {
        let mut x: i32 = 0;
        while x < w
            invariant
                0 <= y < h,
                0 <= x <= w,
                target == Raster::filled(w as int, h as int, color),
                bytes@.len() == 4 * (y * w + x),
                pixels_of(bytes@) =~= target.pixels.take(y * w + x),
            decreases w - x,
        {
            proof {
                lemma_index_inside(w as int, h as int, x as int, y as int);
            }
            push_pixel(&mut bytes, &color);
            x = x + 1;
        }
        proof {
            lemma_next_row(w as int, y as int);
        }
        y = y + 1;
    }
    let dest = Image::assemble(w, h, bytes, Ghost(target));
    src.bytes = dest.bytes;
    Ok(())
}

/// The ways to resize an image.
#[derive(Debug, Clone, Copy, PartialEq, Eq, Structural)]
pub enum ResizeMode {
    /// Resize image to exact dimensions ignoring aspect ratio.
    Exact,
    /// Resize image to exact width. Height parameter is ignored and is auto calculated instead.
    ExactWidth,
    /// Resize image to exact height. Width parameter is ignored and is auto calculated instead.
    ExactHeight,
    /// Resize an image to fit within the given width and height.
    Fit,
    /// Resize image to fill all the space in the given dimension. Excess parts are cropped.
    Fill,
}

/// The size that an image is resampled to in a mode, before anything is cut off.
pub open spec fn resize_size(src: Raster, w: int, h: int, mode: ResizeMode) -> (int, int) {
    match mode {
        ResizeMode::Exact => (w, h),
        ResizeMode::ExactWidth => exact_width_size(src, w),
        ResizeMode::ExactHeight => exact_height_size(src, h),
        ResizeMode::Fit => fit_size(src, w, h),
        ResizeMode::Fill => fill_size(src, w, h),
    }
}

/// An image resized in a mode: resampled to the size of the mode by linear
/// interpolation and, in fill mode, cut to `w * h` from the top left.
pub open spec fn resized(src: Raster, w: int, h: int, mode: ResizeMode) -> Raster {
    let size = resize_size(src, w, h, mode);
    let scaled = bilinear_resampled(src, size.0, size.1);
    match mode {
        ResizeMode::Fill => cropped(scaled, 0, 0, w, h),
        _ => scaled,
    }
}

/// Whether resizing fails: in exact mode where the target has pixels and the
/// image has none, and in the modes that keep the aspect ratio on every image
/// without pixels, which has no aspect ratio.
pub open spec fn resize_fails(src: Raster, w: int, h: int, mode: ResizeMode) -> bool {
    match mode {
        ResizeMode::Exact => resample_fails(src, w, h, InterpolationMode::Bicubic),
        _ => !has_pixels(src),
    }
}

/// Resize an image to a given width, height and mode.
///
/// Fails with `PixelOutOfBounds(0, 0)` where pixels would have to be made of
/// an image that has none, and leaves the image as it is.
pub fn resize(src: &mut Image, w: i32, h: i32, mode: ResizeMode) -> (r: RasterResult<()>)
    requires
        old(src).wf(),
        0 <= w,
        0 <= h,
    ensures
        final(src).wf(),
        if resize_fails(old(src)@, w as int, h as int, mode) {
            r == Err::<(), RasterError>(RasterError::PixelOutOfBounds(0, 0)) && *final(src) == *old(src)
        } else {
            r == Ok::<(), RasterError>(()) && final(src)@ == resized(old(src)@, w as int, h as int, mode)
        },
{
    match mode {
        ResizeMode::Exact => resize_exact(src, w, h),
        ResizeMode::ExactWidth => resize_exact_width(src, w),
        ResizeMode::ExactHeight => resize_exact_height(src, h),
        ResizeMode::Fit => resize_fit(src, w, h),
        ResizeMode::Fill => resize_fill(src, w, h),
    }
}

} // verus!
