//! Resampling an image to another size.
//!
//! A target pixel `x` of `w` reads the source at `x * source_width / w`.
//! Nearest-neighbour resampling takes the pixel at the whole part of that
//! position. Linear resampling also takes the next pixel and weighs the two by
//! the fractional part; it is done along the rows first and along the columns
//! after that. All of it is computed exactly, in whole numbers.
use crate::color::Color;
use crate::error::{RasterError, RasterResult};
use crate::grid::{lemma_index_inside, lemma_index_split, lemma_mul_i32, lemma_next_row};
use crate::image::{lemma_build_at, lemma_build_wf, lemma_same_pixels, pixels_of, push_pixel, Image, Raster};
use vstd::prelude::*;

verus! {

/// The ways to resample.
#[derive(Debug, Clone, Copy, PartialEq, Eq, Structural)]
pub enum InterpolationMode {
    Nearest,
    Bilinear,
    /// Stands for bilinear resampling: no bicubic kernel is offered.
    Bicubic,
}

/// The position in a source of extent `from` that the target position `x` of
/// extent `to` reads, rounded down.
pub open spec fn source_index(x: int, from: int, to: int) -> int {
    (x * from) / to
}

/// The fractional part of that position, as a numerator over `to`.
pub open spec fn source_rest(x: int, from: int, to: int) -> int {
    (x * from) % to
}

/// The neighbour that linear resampling mixes in: the next position, or the
/// last one of the source where there is no next.
pub open spec fn source_next(index: int, from: int) -> int {
    if index + 1 < from - 1 {
        index + 1
    } else {
        from - 1
    }
}

/// `a + t * (b - a)` for `t = rest / to`, rounded down.
pub open spec fn lerp(a: u8, b: u8, rest: int, to: int) -> int {
    (a * to + rest * (b - a)) / to
}

/// Two colors mixed channel by channel.
pub open spec fn lerp_color(a: Color, b: Color, rest: int, to: int) -> Color {
    Color {
        r: lerp(a.r, b.r, rest, to) as u8,
        g: lerp(a.g, b.g, rest, to) as u8,
        b: lerp(a.b, b.b, rest, to) as u8,
        a: lerp(a.a, b.a, rest, to) as u8,
    }
}

/// The image resampled to `w * h` by taking the nearest pixel.
pub open spec fn nearest_resampled(src: Raster, w: int, h: int) -> Raster {
    Raster::build(
        w,
        h,
        |x: int, y: int| src.at(source_index(x, src.width, w), source_index(y, src.height, h)),
    )
}

/// The image resampled to the width `w` by linear interpolation along the rows.
pub open spec fn width_resampled(src: Raster, w: int) -> Raster {
    Raster::build(
        w,
        src.height,
        |x: int, y: int|
            lerp_color(
                src.at(source_index(x, src.width, w), y),
                src.at(source_next(source_index(x, src.width, w), src.width), y),
                source_rest(x, src.width, w),
                w,
            ),
    )
}

/// The image resampled to the height `h` by linear interpolation along the columns.
pub open spec fn height_resampled(src: Raster, h: int) -> Raster {
    Raster::build(
        src.width,
        h,
        |x: int, y: int|
            lerp_color(
                src.at(x, source_index(y, src.height, h)),
                src.at(x, source_next(source_index(y, src.height, h), src.height)),
                source_rest(y, src.height, h),
                h,
            ),
    )
}

/// The image resampled to `w * h` by linear interpolation, rows first.
pub open spec fn bilinear_resampled(src: Raster, w: int, h: int) -> Raster {
    height_resampled(width_resampled(src, w), h)
}

/// Whether a target of `w * h` pixels would have to read a source that has
/// no pixel. A target without pixels reads nothing.
pub open spec fn reads_nothing_there(src: Raster, w: int, h: int) -> bool {
    w > 0 && h > 0 && (src.width == 0 || src.height == 0)
}

/// What a mode makes of an image.
pub open spec fn resampled(src: Raster, w: int, h: int, mode: InterpolationMode) -> Raster {
    match mode {
        InterpolationMode::Nearest => nearest_resampled(src, w, h),
        InterpolationMode::Bilinear => bilinear_resampled(src, w, h),
        InterpolationMode::Bicubic => bilinear_resampled(src, w, h),
    }
}

/// Whether resampling in a mode fails. Linear resampling goes by rows first,
/// so it also fails on a source without columns whose rows it would have to
/// widen.
pub open spec fn resample_fails(src: Raster, w: int, h: int, mode: InterpolationMode) -> bool {
    match mode {
        InterpolationMode::Nearest => reads_nothing_there(src, w, h),
        _ => reads_nothing_there(src, w, src.height) || reads_nothing_there(width_resampled(src, w), w, h),
    }
}

/// The source position of a target position lies on the source.
pub proof fn lemma_source_index(x: int, from: int, to: int)
    requires
        0 <= x < to,
        0 < from,
    ensures
        0 <= source_index(x, from, to) < from,
        0 <= source_rest(x, from, to) < to,
        0 <= source_next(source_index(x, from, to), from) < from,
        x * from == source_index(x, from, to) * to + source_rest(x, from, to),
{
    assert(0 <= x * from < to * from) by (nonlinear_arith)
        requires
            0 <= x < to,
            0 < from,
    ;
    vstd::arithmetic::div_mod::lemma_fundamental_div_mod(x * from, to);
    vstd::arithmetic::div_mod::lemma_mod_bound(x * from, to);
    let q = (x * from) / to;
    let r = (x * from) % to;
    assert(to * q == q * to) by (nonlinear_arith);
    assert(0 <= q < from) by (nonlinear_arith)
        requires
            x * from == q * to + r,
            0 <= r < to,
            0 <= x * from < to * from,
    ;
}

/// A resampled image is well-formed and has the size asked for.
pub proof fn lemma_resampled_wf(src: Raster, w: int, h: int)
    requires
        0 <= w,
        0 <= h,
        0 <= src.height,
    ensures
        width_resampled(src, w).wf(),
        bilinear_resampled(src, w, h).wf(),
        nearest_resampled(src, w, h).wf(),
        bilinear_resampled(src, w, h).width == w,
        bilinear_resampled(src, w, h).height == h,
{
    lemma_build_wf(w, h, |x: int, y: int| Color::opaque_black());
    lemma_build_wf(w, src.height, |x: int, y: int| Color::opaque_black());
}

/// Resampling an image to its own size, in either way, leaves it as it is.
pub proof fn lemma_resample_same_size(src: Raster)
    requires
        src.wf(),
    ensures
        nearest_resampled(src, src.width, src.height) == src,
        bilinear_resampled(src, src.width, src.height) == src,
{
    let w = src.width;
    let h = src.height;
    let rows = width_resampled(src, w);
    let both = height_resampled(rows, h);
    let near = nearest_resampled(src, w, h);
    lemma_resampled_wf(src, w, h);
    assert forall|x: int, y: int| src.inside(x, y) implies rows.at(x, y) == src.at(x, y) && near.at(x, y) == src.at(
        x,
        y,
    ) by {
        lemma_same_place(x, w);
        lemma_same_place(y, h);
        lemma_build_at(
            w,
            h,
            |x: int, y: int|
                lerp_color(
                    src.at(source_index(x, src.width, w), y),
                    src.at(source_next(source_index(x, src.width, w), src.width), y),
                    source_rest(x, src.width, w),
                    w,
                ),
            x,
            y,
        );
        lemma_build_at(
            w,
            h,
            |x: int, y: int| src.at(source_index(x, src.width, w), source_index(y, src.height, h)),
            x,
            y,
        );
        let a = src.at(x, y);
        let b = src.at(source_next(x, w), y);
        lemma_lerp_nothing(a.r, b.r, w);
        lemma_lerp_nothing(a.g, b.g, w);
        lemma_lerp_nothing(a.b, b.b, w);
        lemma_lerp_nothing(a.a, b.a, w);
    }
    lemma_same_pixels(rows, src);
    lemma_same_pixels(near, src);
    assert forall|x: int, y: int| rows.inside(x, y) implies both.at(x, y) == rows.at(x, y) by {
        lemma_same_place(y, h);
        lemma_build_at(
            w,
            h,
            |x: int, y: int|
                lerp_color(
                    rows.at(x, source_index(y, rows.height, h)),
                    rows.at(x, source_next(source_index(y, rows.height, h), rows.height)),
                    source_rest(y, rows.height, h),
                    h,
                ),
            x,
            y,
        );
        let a = rows.at(x, y);
        let b = rows.at(x, source_next(y, h));
        lemma_lerp_nothing(a.r, b.r, h);
        lemma_lerp_nothing(a.g, b.g, h);
        lemma_lerp_nothing(a.b, b.b, h);
        lemma_lerp_nothing(a.a, b.a, h);
    }
    lemma_same_pixels(both, rows);
}

/// Between axes of the same extent a position reads itself, with nothing left.
proof fn lemma_same_place(x: int, extent: int)
    requires
        0 <= x < extent,
    ensures
        source_index(x, extent, extent) == x,
        source_rest(x, extent, extent) == 0,
{
    vstd::arithmetic::div_mod::lemma_fundamental_div_mod_converse(x * extent, extent, x, 0);
}

/// A mix with nothing of the second value is the first value.
proof fn lemma_lerp_nothing(a: u8, b: u8, to: int)
    requires
        0 < to,
    ensures
        lerp(a, b, 0, to) == a,
{
    assert(0 * (b - a) == 0);
    assert((a * to) / to == a) by (nonlinear_arith)
        requires
            0 < to,
    ;
}

/// A mix of two channel values lies between them.
pub proof fn lemma_lerp_bounds(a: u8, b: u8, rest: int, to: int)
    requires
        0 <= rest < to,
    ensures
        0 <= lerp(a, b, rest, to) <= 255,
        a <= b ==> a <= lerp(a, b, rest, to) <= b,
        b <= a ==> b <= lerp(a, b, rest, to) <= a,
{
    let n = a * to + rest * (b - a);
    assert((a * to) / to == a && (b * to) / to == b) by (nonlinear_arith)
        requires
            0 < to,
    ;
    if a <= b {
        assert(a * to <= n <= b * to) by (nonlinear_arith)
            requires
                n == a * to + rest * (b - a),
                0 <= rest < to,
                a <= b,
        ;
        vstd::arithmetic::div_mod::lemma_div_is_ordered(a * to, n, to);
        vstd::arithmetic::div_mod::lemma_div_is_ordered(n, b * to, to);
    } else {
        assert(b * to <= n <= a * to) by (nonlinear_arith)
            requires
                n == a * to + rest * (b - a),
                0 <= rest < to,
                b <= a,
        ;
        vstd::arithmetic::div_mod::lemma_div_is_ordered(b * to, n, to);
        vstd::arithmetic::div_mod::lemma_div_is_ordered(n, a * to, to);
    }
}

/// Mix two channel values.
fn mix(a: u8, b: u8, rest: i64, to: i64) -> (r: u8)
    requires
        0 <= rest < to,
        to < 0x8000_0000,
    ensures
        r == lerp(a, b, rest as int, to as int),
{
    proof {
        lemma_lerp_bounds(a, b, rest as int, to as int);
        assert(0 <= a * to <= 255 * 0x8000_0000) by (nonlinear_arith)
            requires
                0 <= a <= 255,
                0 <= to < 0x8000_0000,
        ;
        assert(-255 * 0x8000_0000 <= rest * (b - a) <= 255 * 0x8000_0000) by (nonlinear_arith)
            requires
                0 <= rest < 0x8000_0000,
                -255 <= b - a <= 255,
        ;
        if a <= b {
            assert(0 <= rest * (b - a)) by (nonlinear_arith)
                requires
                    0 <= rest,
                    0 <= b - a,
            ;
        } else {
            assert(a * to + rest * (b - a) >= 0) by (nonlinear_arith)
                requires
                    0 <= rest < to,
                    b - a < 0,
                    0 <= b,
            ;
        }
    }
    let n: i64 = (a as i64) * to + rest * (b as i64 - a as i64);
    (n / to) as u8
}

/// Mix two colors.
fn mix_colors(a: &Color, b: &Color, rest: i64, to: i64) -> (c: Color)
    requires
        0 <= rest < to,
        to < 0x8000_0000,
    ensures
        c == lerp_color(*a, *b, rest as int, to as int),
{
    Color {
        r: mix(a.r, b.r, rest, to),
        g: mix(a.g, b.g, rest, to),
        b: mix(a.b, b.b, rest, to),
        a: mix(a.a, b.a, rest, to),
    }
}

/// Where a target position reads a source: the position and what is left.
fn source_of(x: i32, from: i32, to: i32) -> (r: (i32, i64))
    requires
        0 <= x < to,
        0 < from,
    ensures
        r.0 == source_index(x as int, from as int, to as int),
        r.1 == source_rest(x as int, from as int, to as int),
        0 <= r.0 < from,
        0 <= r.1 < to,
{
    proof {
        lemma_mul_i32(x as int, from as int);
        lemma_source_index(x as int, from as int, to as int);
        assert(0 <= x * from) by (nonlinear_arith)
            requires
                0 <= x,
                0 < from,
        ;
    }
    let p: i64 = (x as i64) * (from as i64);
    ((p / (to as i64)) as i32, p % (to as i64))
}

/// Interpolate using nearest neighbor.
///
/// Fails with `PixelOutOfBounds(0, 0)` where the target has pixels and the
/// source has none.
pub fn nearest(src: &mut Image, w: i32, h: i32) -> (r: RasterResult<()>)
    requires
        old(src).wf(),
        0 <= w,
        0 <= h,
    ensures
        final(src).wf(),
        if reads_nothing_there(old(src)@, w as int, h as int) {
            r == Err::<(), RasterError>(RasterError::PixelOutOfBounds(0, 0)) && *final(src) == *old(src)
        } else {
            r == Ok::<(), RasterError>(()) && final(src)@ == nearest_resampled(old(src)@, w as int, h as int)
        },
{
    if w > 0 && h > 0 && (src.width == 0 || src.height == 0) {
        return Err(RasterError::PixelOutOfBounds(0, 0));
    }
    let ghost target = nearest_resampled(src@, w as int, h as int);
    proof {
        lemma_build_wf(w as int, h as int, |x: int, y: int| Color::opaque_black());
    }
    let mut bytes: Vec<u8> = Vec::new();
    let mut y: i32 = 0;
    while y < h
        invariant
            0 <= y <= h,
            0 <= w,
            src.wf(),
            !reads_nothing_there(src@, w as int, h as int),
            target == nearest_resampled(src@, w as int, h as int),
            bytes@.len() == 4 * (y * w),
            pixels_of(bytes@) =~= target.pixels.take(y * w),
        decreases h - y,
    {
        let mut x: i32 = 0;
        while x < w
            invariant
                0 <= y < h,
                0 <= x <= w,
                src.wf(),
                !reads_nothing_there(src@, w as int, h as int),
                target == nearest_resampled(src@, w as int, h as int),
                bytes@.len() == 4 * (y * w + x),
                pixels_of(bytes@) =~= target.pixels.take(y * w + x),
            decreases w - x,
        {
            proof {
                lemma_index_inside(w as int, h as int, x as int, y as int);
                lemma_index_split(w as int, x as int, y as int);
            }
            let (px, _) = source_of(x, src.width, w);
            let (py, _) = source_of(y, src.height, h);
            let color = src.color_at(px, py);
            assert(target.pixels[y * w + x] == color);
            push_pixel(&mut bytes, &color);
            x = x + 1;
        }
        proof {
            lemma_next_row(w as int, y as int);
        }
        y = y + 1;
    }
    let dest = Image::assemble(w, h, bytes, Ghost(target));
    src.width = dest.width;
    src.height = dest.height;
    src.bytes = dest.bytes;
    Ok(())
}

/// Interpolate the width using linear function.
///
/// Fails with `PixelOutOfBounds(0, 0)` where the target rows have pixels and
/// the source rows have none.
pub fn bilinear_width(src: &mut Image, w2: i32) -> (r: RasterResult<()>)
    requires
        old(src).wf(),
        0 <= w2,
    ensures
        final(src).wf(),
        if reads_nothing_there(old(src)@, w2 as int, old(src)@.height) {
            r == Err::<(), RasterError>(RasterError::PixelOutOfBounds(0, 0)) && *final(src) == *old(src)
        } else {
            r == Ok::<(), RasterError>(()) && final(src)@ == width_resampled(old(src)@, w2 as int)
        },
{
    let w1: i32 = src.width;
    let h: i32 = src.height;
    if w2 > 0 && h > 0 && w1 == 0 {
        return Err(RasterError::PixelOutOfBounds(0, 0));
    }
    let ghost target = width_resampled(src@, w2 as int);
    proof {
        lemma_build_wf(w2 as int, h as int, |x: int, y: int| Color::opaque_black());
    }
    let mut bytes: Vec<u8> = Vec::new();
    let mut y: i32 = 0;
    while y < h
        invariant
            0 <= y <= h,
            0 <= w2,
            w1 == src.width,
            h == src.height,
            src.wf(),
            w2 > 0 && h > 0 ==> w1 > 0,
            target == width_resampled(src@, w2 as int),
            bytes@.len() == 4 * (y * w2),
            pixels_of(bytes@) =~= target.pixels.take(y * w2),
        decreases h - y,
    {
        let mut x: i32 = 0;
        while x < w2
            invariant
                0 <= y < h,
                0 <= x <= w2,
                w1 == src.width,
                h == src.height,
                src.wf(),
                w2 > 0 && h > 0 ==> w1 > 0,
                target == width_resampled(src@, w2 as int),
                bytes@.len() == 4 * (y * w2 + x),
                pixels_of(bytes@) =~= target.pixels.take(y * w2 + x),
            decreases w2 - x,
        {
            proof {
                lemma_index_inside(w2 as int, h as int, x as int, y as int);
                lemma_index_split(w2 as int, x as int, y as int);
            }
            let (left, rest) = source_of(x, w1, w2);
            let right: i32 = if left + 1 < w1 - 1 {
                left + 1
            } else {
                w1 - 1
            };
            let a = src.color_at(left, y);
            let b = src.color_at(right, y);
            let color = mix_colors(&a, &b, rest, w2 as i64);
            assert(target.pixels[y * w2 + x] == color);
            push_pixel(&mut bytes, &color);
            x = x + 1;
        }
        proof {
            lemma_next_row(w2 as int, y as int);
        }
        y = y + 1;
    }
    let dest = Image::assemble(w2, h, bytes, Ghost(target));
    src.width = dest.width;
    src.bytes = dest.bytes;
    Ok(())
}

/// Interpolate the height using linear function.
///
/// Fails with `PixelOutOfBounds(0, 0)` where the target columns have pixels
/// and the source columns have none.
pub fn bilinear_height(src: &mut Image, h2: i32) -> (r: RasterResult<()>)
    requires
        old(src).wf(),
        0 <= h2,
    ensures
        final(src).wf(),
        if reads_nothing_there(old(src)@, old(src)@.width, h2 as int) {
            r == Err::<(), RasterError>(RasterError::PixelOutOfBounds(0, 0)) && *final(src) == *old(src)
        } else {
            r == Ok::<(), RasterError>(()) && final(src)@ == height_resampled(old(src)@, h2 as int)
        },
{
    let w: i32 = src.width;
    let h1: i32 = src.height;
    if w > 0 && h2 > 0 && h1 == 0 {
        return Err(RasterError::PixelOutOfBounds(0, 0));
    }
    let ghost target = height_resampled(src@, h2 as int);
    proof {
        lemma_build_wf(w as int, h2 as int, |x: int, y: int| Color::opaque_black());
    }
    let mut bytes: Vec<u8> = Vec::new();
    let mut y: i32 = 0;
    while y < h2
        invariant
            0 <= y <= h2,
            0 <= w,
            w == src.width,
            h1 == src.height,
            src.wf(),
            w > 0 && h2 > 0 ==> h1 > 0,
            target == height_resampled(src@, h2 as int),
            bytes@.len() == 4 * (y * w),
            pixels_of(bytes@) =~= target.pixels.take(y * w),
        decreases h2 - y,
    {
        let mut x: i32 = 0;
        while x < w
            invariant
                0 <= y < h2,
                0 <= x <= w,
                w == src.width,
                h1 == src.height,
                src.wf(),
                w > 0 && h2 > 0 ==> h1 > 0,
                target == height_resampled(src@, h2 as int),
                bytes@.len() == 4 * (y * w + x),
                pixels_of(bytes@) =~= target.pixels.take(y * w + x),
            decreases w - x,
        {
            proof {
                lemma_index_inside(w as int, h2 as int, x as int, y as int);
                lemma_index_split(w as int, x as int, y as int);
            }
            let (upper, rest) = source_of(y, h1, h2);
            let lower: i32 = if upper + 1 < h1 - 1 {
                upper + 1
            } else {
                h1 - 1
            };
            let a = src.color_at(x, upper);
            let b = src.color_at(x, lower);
            let color = mix_colors(&a, &b, rest, h2 as i64);
            assert(target.pixels[y * w + x] == color);
            push_pixel(&mut bytes, &color);
            x = x + 1;
        }
        proof {
            lemma_next_row(w as int, y as int);
        }
        y = y + 1;
    }
    let dest = Image::assemble(w, h2, bytes, Ghost(target));
    src.height = dest.height;
    src.bytes = dest.bytes;
    Ok(())
}

/// Interpolate using linear function: the width first, the height after it.
///
/// Fails with `PixelOutOfBounds(0, 0)` where one of the two passes would
/// have to read a pixel of an image that has none.
pub fn bilinear(src: &mut Image, w2: i32, h2: i32) -> (r: RasterResult<()>)
    requires
        old(src).wf(),
        0 <= w2,
        0 <= h2,
    ensures
        final(src).wf(),
        if resample_fails(old(src)@, w2 as int, h2 as int, InterpolationMode::Bilinear) {
            r == Err::<(), RasterError>(RasterError::PixelOutOfBounds(0, 0)) && *final(src) == *old(src)
        } else {
            r == Ok::<(), RasterError>(()) && final(src)@ == bilinear_resampled(old(src)@, w2 as int, h2 as int)
        },
{
    if w2 > 0 && src.height > 0 && src.width == 0 {
        return Err(RasterError::PixelOutOfBounds(0, 0));
    }
    if w2 > 0 && h2 > 0 && src.height == 0 {
        return Err(RasterError::PixelOutOfBounds(0, 0));
    }
    let _ = bilinear_width(src, w2);
    let _ = bilinear_height(src, h2);
    Ok(())
}

impl InterpolationMode {
    /// The mode that a selector names.
    pub open spec fn named(name: Seq<char>) -> Option<InterpolationMode> {
        if name == "nearest"@ {
            Some(InterpolationMode::Nearest)
        } else if name == "bilinear"@ {
            Some(InterpolationMode::Bilinear)
        } else if name == "bicubic"@ {
            Some(InterpolationMode::Bicubic)
        } else {
            None
        }
    }

    /// Read a mode from its selector: `nearest`, `bilinear` or `bicubic`.
    ///
    /// Fails with `InvalidParameterMode`, which then holds `interpolation`
    /// and the selector, on any other selector.
    pub fn from_name(name: &str) -> (r: RasterResult<InterpolationMode>)
        ensures
            match InterpolationMode::named(name@) {
                Some(mode) => r == Ok::<InterpolationMode, RasterError>(mode),
                None => r matches Err(RasterError::InvalidParameterMode(kind, value)) && kind@
                    == "interpolation"@ && value@ == name@,
            },
    {
        if same_text(name, "nearest") {
            Ok(InterpolationMode::Nearest)
        } else if same_text(name, "bilinear") {
            Ok(InterpolationMode::Bilinear)
        } else if same_text(name, "bicubic") {
            Ok(InterpolationMode::Bicubic)
        } else {
            Err(RasterError::InvalidParameterMode("interpolation".to_owned(), name.to_owned()))
        }
    }
}

/// Whether two strings hold the same text.
fn same_text(a: &str, b: &str) -> (r: bool)
    ensures
        r == (a@ == b@),
{
    a.to_owned() == b.to_owned()
}

/// Resample an image into a new size in the given mode.
///
/// Fails with `PixelOutOfBounds(0, 0)` where the mode would have to read a
/// pixel of an image that has none; the image is then left as it is.
pub fn resample_by(src: &mut Image, w: i32, h: i32, mode: InterpolationMode) -> (r: RasterResult<()>)
    requires
        old(src).wf(),
        0 <= w,
        0 <= h,
    ensures
        final(src).wf(),
        if resample_fails(old(src)@, w as int, h as int, mode) {
            r == Err::<(), RasterError>(RasterError::PixelOutOfBounds(0, 0)) && *final(src) == *old(src)
        } else {
            r == Ok::<(), RasterError>(()) && final(src)@ == resampled(old(src)@, w as int, h as int, mode)
        },
{
    match mode {
        InterpolationMode::Nearest => nearest(src, w, h),
        InterpolationMode::Bilinear => bilinear(src, w, h),
        InterpolationMode::Bicubic => bilinear(src, w, h),
    }
}

/// Resample an image into a new size using the interpolation method that
/// the selector names.
///
/// Fails with `InvalidParameterMode` on a selector that names no method, and
/// as resampling in the mode does. A failed call changes nothing.
pub fn resample(src: &mut Image, w: i32, h: i32, interpolation: &str) -> (r: RasterResult<()>)
    requires
        old(src).wf(),
        0 <= w,
        0 <= h,
    ensures
        final(src).wf(),
        match InterpolationMode::named(interpolation@) {
            Some(mode) => if resample_fails(old(src)@, w as int, h as int, mode) {
                r == Err::<(), RasterError>(RasterError::PixelOutOfBounds(0, 0)) && *final(src) == *old(src)
            } else {
                r == Ok::<(), RasterError>(()) && final(src)@ == resampled(old(src)@, w as int, h as int, mode)
            },
            None => *final(src) == *old(src) && (r matches Err(
                RasterError::InvalidParameterMode(kind, value),
            ) && kind@ == "interpolation"@ && value@ == interpolation@),
        },
{
    match InterpolationMode::from_name(interpolation) {
        Ok(mode) => resample_by(src, w, h, mode),
        Err(e) => Err(e),
    }
}

} // verus!
