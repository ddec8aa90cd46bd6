//! Compositing one image onto another.
//!
//! The arithmetic is exact. A base channel is first scaled by the alpha of
//! its pixel; the blend function of the mode is applied to that and to the top
//! channel; the result is mixed with the scaled base channel in the proportion
//! that the top pixel's alpha and the opacity give, and rounded down.
use crate::color::Color;
use crate::error::RasterResult;
use crate::grid::{lemma_index_inside, lemma_index_split, lemma_next_row};
use crate::image::{lemma_build_wf, pixels_of, push_pixel, Image, Raster};
use crate::UNIT;
use vstd::prelude::*;

verus! {

/// The ways in which a top image can be combined with a base image.
#[derive(Debug, Clone, Copy, PartialEq, Eq, Structural)]
pub enum BlendMode {
    Normal,
    Difference,
    Multiply,
    Overlay,
    Screen,
}

/// The base channel scaled by the alpha of its pixel, in units of 1/255:
/// `255 * (base * alpha / 255)`.
pub open spec fn scaled_base(base: u8, alpha: u8) -> int {
    base * alpha
}

/// The blend function of `mode` on a scaled base channel (in units of 1/255)
/// and a top channel. The result is in units of 1/255²; it is not negative
/// and stays below 256 * 255².
///
/// With `b` the scaled base channel and `t` the top channel, both from 0 to
/// 255, the functions are: `t` (normal), `|b - t|` (difference), `b * t / 255`
/// (multiply), `255 - (255 - b) * (255 - t) / 255` (screen), and for overlay
/// `2 * b * t / 255` where `b < 128` and `255 - 2 * (255 - b) * (255 - t) / 255`
/// elsewhere.
pub open spec fn mode_value(mode: BlendMode, base: int, top: int) -> int {
    match mode {
        BlendMode::Normal => 255 * 255 * top,
        BlendMode::Difference => if base >= 255 * top {
            255 * (base - 255 * top)
        } else {
            255 * (255 * top - base)
        },
        BlendMode::Multiply => base * top,
        BlendMode::Overlay => if base < 128 * 255 {
            2 * (base * top)
        } else {
            255 * 255 * 255 - 2 * ((255 * 255 - base) * (255 - top))
        },
        BlendMode::Screen => 255 * 255 * 255 - (255 * 255 - base) * (255 - top),
    }
}

/// One channel of a blended pixel: with `w = top_alpha / 255 * opacity`,
/// `w * f + (1 - w) * b` rounded down, where `b` is the base channel scaled by
/// its alpha and `f` the blend function of the mode on `b` and the top channel.
pub open spec fn blend_channel(
    mode: BlendMode,
    base: u8,
    base_alpha: u8,
    top: u8,
    top_alpha: u8,
    opacity: int,
) -> int {
    let weight = top_alpha * opacity;
    let b = scaled_base(base, base_alpha);
    (weight * mode_value(mode, b, top as int) + (255 * UNIT - weight) * (255 * b)) / (255 * 255 * 255
        * UNIT)
}

/// A pixel of the base blended with a pixel of the top image. The result is
/// fully opaque.
pub open spec fn blend_color(mode: BlendMode, base: Color, top: Color, opacity: int) -> Color {
    Color {
        r: blend_channel(mode, base.r, base.a, top.r, top.a, opacity) as u8,
        g: blend_channel(mode, base.g, base.a, top.g, top.a, opacity) as u8,
        b: blend_channel(mode, base.b, base.a, top.b, top.a, opacity) as u8,
        a: 255,
    }
}

/// The value of the blend function is not negative and below 256 (in units
/// of 1/255²).
pub proof fn lemma_mode_value_bounds(mode: BlendMode, base: int, top: int)
    requires
        0 <= base <= 255 * 255,
        0 <= top <= 255,
    ensures
        0 <= mode_value(mode, base, top) < 256 * 255 * 255,
{
    assert(0 <= base * top <= 255 * 255 * 255) by (nonlinear_arith)
        requires
            0 <= base <= 255 * 255,
            0 <= top <= 255,
    ;
    assert(0 <= (255 * 255 - base) * (255 - top) <= 255 * 255 * 255) by (nonlinear_arith)
        requires
            0 <= base <= 255 * 255,
            0 <= top <= 255,
    ;
    assert(base >= 128 * 255 ==> (255 * 255 - base) * (255 - top) <= 127 * 255 * 255)
        by (nonlinear_arith)
        requires
            0 <= base <= 255 * 255,
            0 <= top <= 255,
    ;
    assert(base < 128 * 255 ==> base * top <= 128 * 255 * 255 - 255) by (nonlinear_arith)
        requires
            0 <= base <= 255 * 255,
            0 <= top <= 255,
    ;
}

/// A blended channel is a channel value.
pub proof fn lemma_blend_channel_bounds(
    mode: BlendMode,
    base: u8,
    base_alpha: u8,
    top: u8,
    top_alpha: u8,
    opacity: int,
)
    requires
        0 <= opacity <= UNIT,
    ensures
        0 <= blend_channel(mode, base, base_alpha, top, top_alpha, opacity) <= 255,
{
    let weight = top_alpha * opacity;
    let b = scaled_base(base, base_alpha);
    let f = mode_value(mode, b, top as int);
    assert(0 <= b <= 255 * 255) by (nonlinear_arith)
        requires
            b == base * base_alpha,
            0 <= base <= 255,
            0 <= base_alpha <= 255,
    ;
    lemma_mode_value_bounds(mode, b, top as int);
    assert(0 <= weight <= 255 * UNIT) by (nonlinear_arith)
        requires
            weight == top_alpha * opacity,
            0 <= top_alpha <= 255,
            0 <= opacity <= UNIT,
    ;
    let rest = 255 * UNIT - weight;
    assert(UNIT == 10_000);
    let total = weight * f + rest * (255 * b);
    assert(0 <= total < 256 * (255 * 255 * 255 * 10_000)) by (nonlinear_arith)
        requires
            total == weight * f + rest * (255 * b),
            0 <= weight,
            0 <= rest,
            weight + rest == 255 * 10_000,
            0 <= f < 256 * 255 * 255,
            0 <= 255 * b <= 255 * 255 * 255,
    ;
    assert(0 <= total / (255 * 255 * 255 * 10_000int) <= 255) by (nonlinear_arith)
        requires
            0 <= total < 256 * (255 * 255 * 255 * 10_000),
    ;
}

/// Blend one channel.
fn mix_channel(mode: BlendMode, base: u8, base_alpha: u8, top: u8, top_alpha: u8, opacity: i32) -> (r: u8)
    requires
        0 <= opacity <= UNIT,
    ensures
        r == blend_channel(mode, base, base_alpha, top, top_alpha, opacity as int),
{
    proof {
        lemma_blend_channel_bounds(mode, base, base_alpha, top, top_alpha, opacity as int);
    }
    assert(0 <= base * base_alpha <= 255 * 255) by (nonlinear_arith)
        requires
            0 <= base <= 255,
            0 <= base_alpha <= 255,
    ;
    let b: u64 = (base as u64) * (base_alpha as u64);
    let t: u64 = top as u64;
    proof {
        lemma_mode_value_bounds(mode, b as int, t as int);
        assert(0 <= b * t <= 255 * 255 * 255) by (nonlinear_arith)
            requires
                0 <= b <= 255 * 255,
                0 <= t <= 255,
        ;
        assert(0 <= (255 * 255 - b) * (255 - t) <= 255 * 255 * 255) by (nonlinear_arith)
            requires
                0 <= b <= 255 * 255,
                0 <= t <= 255,
        ;
    }
    let f: u64 = match mode {
        BlendMode::Normal => 255 * 255 * t,
        BlendMode::Difference => if b >= 255 * t {
            255 * (b - 255 * t)
        } else {
            255 * (255 * t - b)
        },
        BlendMode::Multiply => b * t,
        BlendMode::Overlay => if b < 128 * 255 {
            2 * (b * t)
        } else {
            255 * 255 * 255 - 2 * ((255 * 255 - b) * (255 - t))
        },
        BlendMode::Screen => 255 * 255 * 255 - (255 * 255 - b) * (255 - t),
    };
    let unit: u64 = UNIT as u64;
    assert(0 <= top_alpha * opacity <= 255 * unit) by (nonlinear_arith)
        requires
            0 <= top_alpha <= 255,
            0 <= opacity <= unit,
    ;
    let weight: u64 = (top_alpha as u64) * (opacity as u64);
    let rest: u64 = 255 * unit - weight;
    assert(0 <= weight * f <= 255 * 10_000 * (256 * 255 * 255) && 0 <= rest * (255 * b) <= 255 * 10_000 * (255
        * 255 * 255)) by (nonlinear_arith)
        requires
            0 <= weight <= 255 * 10_000,
            0 <= rest <= 255 * 10_000,
            0 <= f <= 256 * 255 * 255,
            0 <= 255 * b <= 255 * 255 * 255,
    ;
    let mixed: u64 = (weight * f + rest * (255 * b)) / (255 * 255 * 255 * unit);
    mixed as u8
}

/// Blend one pixel of the base with one pixel of the top image.
pub(crate) fn mix_color(mode: BlendMode, base: &Color, top: &Color, opacity: i32) -> (c: Color)
    requires
        0 <= opacity <= UNIT,
    ensures
        c == blend_color(mode, *base, *top, opacity as int),
{
    Color {
        r: mix_channel(mode, base.r, base.a, top.r, top.a, opacity),
        g: mix_channel(mode, base.g, base.a, top.g, top.a, opacity),
        b: mix_channel(mode, base.b, base.a, top.b, top.a, opacity),
        a: 255,
    }
}

/// The base image with the part `start_x .. end_x`, `start_y .. end_y` of the
/// top image blended onto it, where the top image lies with its top left
/// corner at `(offset_x, offset_y)` of the base. Pixels of the base that this
/// part does not cover keep their color.
pub open spec fn composed(
    base: Raster,
    top: Raster,
    mode: BlendMode,
    start_y: int,
    end_y: int,
    start_x: int,
    end_x: int,
    offset_x: int,
    offset_y: int,
    opacity: int,
) -> Raster {
    Raster::build(
        base.width,
        base.height,
        |x: int, y: int|
            if start_x <= x - offset_x < end_x && start_y <= y - offset_y < end_y {
                blend_color(mode, base.at(x, y), top.at(x - offset_x, y - offset_y), opacity)
            } else {
                base.at(x, y)
            },
    )
}

/// Blend a part of `image2` onto a copy of `image1` in the given mode.
pub fn compose(
    image1: &Image,
    image2: &Image,
    mode: BlendMode,
    loop_start_y: i32,
    loop_end_y: i32,
    loop_start_x: i32,
    loop_end_x: i32,
    offset_x: i32,
    offset_y: i32,
    opacity: i32,
) -> (r: RasterResult<Image>)
    requires
        image1.wf(),
        image2.wf(),
        0 <= opacity <= UNIT,
        0 <= loop_start_x <= loop_end_x <= image2.width,
        0 <= loop_start_y <= loop_end_y <= image2.height,
        0 <= loop_start_x + offset_x,
        loop_end_x + offset_x <= image1.width,
        0 <= loop_start_y + offset_y,
        loop_end_y + offset_y <= image1.height,
    ensures
        r matches Ok(canvas) && canvas.wf() && canvas@ == composed(
            image1@,
            image2@,
            mode,
            loop_start_y as int,
            loop_end_y as int,
            loop_start_x as int,
            loop_end_x as int,
            offset_x as int,
            offset_y as int,
            opacity as int,
        ),
{
    let w: i32 = image1.width;
    let h: i32 = image1.height;
    let ghost target = composed(
        image1@,
        image2@,
        mode,
        loop_start_y as int,
        loop_end_y as int,
        loop_start_x as int,
        loop_end_x as int,
        offset_x as int,
        offset_y as int,
        opacity as int,
    );
    proof {
        lemma_build_wf(w as int, h as int, |x: int, y: int| Color::opaque_black());
    }
    let mut bytes: Vec<u8> = Vec::new();
    let mut y: i32 = 0;
    while y < h
        invariant
            0 <= y <= h,
            0 <= w,
            w == image1.width,
            h == image1.height,
            image1.wf(),
            image2.wf(),
            0 <= opacity <= UNIT,
            0 <= loop_start_x <= loop_end_x <= image2.width,
            0 <= loop_start_y <= loop_end_y <= image2.height,
            0 <= loop_start_x + offset_x,
            loop_end_x + offset_x <= image1.width,
            0 <= loop_start_y + offset_y,
            loop_end_y + offset_y <= image1.height,
            target == composed(
                image1@,
                image2@,
                mode,
                loop_start_y as int,
                loop_end_y as int,
                loop_start_x as int,
                loop_end_x as int,
                offset_x as int,
                offset_y as int,
                opacity as int,
            ),
            bytes@.len() == 4 * (y * w),
            pixels_of(bytes@) =~= target.pixels.take(y * w),
        decreases h - y,
    {
        let mut x: i32 = 0;
        while x < w
            invariant
                0 <= y < h,
                0 <= x <= w,
                w == image1.width,
                h == image1.height,
                image1.wf(),
                image2.wf(),
                0 <= opacity <= UNIT,
                0 <= loop_start_x <= loop_end_x <= image2.width,
                0 <= loop_start_y <= loop_end_y <= image2.height,
                0 <= loop_start_x + offset_x,
                loop_end_x + offset_x <= image1.width,
                0 <= loop_start_y + offset_y,
                loop_end_y + offset_y <= image1.height,
                target == composed(
                    image1@,
                    image2@,
                    mode,
                    loop_start_y as int,
                    loop_end_y as int,
                    loop_start_x as int,
                    loop_end_x as int,
                    offset_x as int,
                    offset_y as int,
                    opacity as int,
                ),
                bytes@.len() == 4 * (y * w + x),
                pixels_of(bytes@) =~= target.pixels.take(y * w + x),
            decreases w - x,
        {
            proof {
                lemma_index_inside(w as int, h as int, x as int, y as int);
                lemma_index_split(w as int, x as int, y as int);
            }
            let base = image1.color_at(x, y);
            let top_x: i64 = x as i64 - offset_x as i64;
            let top_y: i64 = y as i64 - offset_y as i64;
            let color = if loop_start_x as i64 <= top_x && top_x < loop_end_x as i64 && loop_start_y as i64
                <= top_y && top_y < loop_end_y as i64 {
                let top = image2.color_at(top_x as i32, top_y as i32);
                mix_color(mode, &base, &top, opacity)
            } else {
                base
            };
            assert(target.pixels[y * w + x] == color);
            push_pixel(&mut bytes, &color);
            x = x + 1;
        }
        proof {
            lemma_next_row(w as int, y as int);
        }
        y = y + 1;
    }
    Ok(Image::assemble(w, h, bytes, Ghost(target)))
}


/// Blend a part of `image2` onto a copy of `image1` in difference mode: the blend
/// function is the absolute difference of base and top.
pub fn difference(
    image1: &Image,
    image2: &Image,
    loop_start_y: i32,
    loop_end_y: i32,
    loop_start_x: i32,
    loop_end_x: i32,
    offset_x: i32,
    offset_y: i32,
    opacity: i32,
) -> (r: RasterResult<Image>)
    requires
        image1.wf(),
        image2.wf(),
        0 <= opacity <= UNIT,
        0 <= loop_start_x <= loop_end_x <= image2.width,
        0 <= loop_start_y <= loop_end_y <= image2.height,
        0 <= loop_start_x + offset_x,
        loop_end_x + offset_x <= image1.width,
        0 <= loop_start_y + offset_y,
        loop_end_y + offset_y <= image1.height,
    ensures
        r matches Ok(canvas) && canvas.wf() && canvas@ == composed(
            image1@,
            image2@,
            BlendMode::Difference,
            loop_start_y as int,
            loop_end_y as int,
            loop_start_x as int,
            loop_end_x as int,
            offset_x as int,
            offset_y as int,
            opacity as int,
        ),
{
    compose(
        image1,
        image2,
        BlendMode::Difference,
        loop_start_y,
        loop_end_y,
        loop_start_x,
        loop_end_x,
        offset_x,
        offset_y,
        opacity,
    )
}

/// Blend a part of `image2` onto a copy of `image1` in multiply mode: the blend
/// function is the product of base and top.
pub fn multiply(
    image1: &Image,
    image2: &Image,
    loop_start_y: i32,
    loop_end_y: i32,
    loop_start_x: i32,
    loop_end_x: i32,
    offset_x: i32,
    offset_y: i32,
    opacity: i32,
) -> (r: RasterResult<Image>)
    requires
        image1.wf(),
        image2.wf(),
        0 <= opacity <= UNIT,
        0 <= loop_start_x <= loop_end_x <= image2.width,
        0 <= loop_start_y <= loop_end_y <= image2.height,
        0 <= loop_start_x + offset_x,
        loop_end_x + offset_x <= image1.width,
        0 <= loop_start_y + offset_y,
        loop_end_y + offset_y <= image1.height,
    ensures
        r matches Ok(canvas) && canvas.wf() && canvas@ == composed(
            image1@,
            image2@,
            BlendMode::Multiply,
            loop_start_y as int,
            loop_end_y as int,
            loop_start_x as int,
            loop_end_x as int,
            offset_x as int,
            offset_y as int,
            opacity as int,
        ),
{
    compose(
        image1,
        image2,
        BlendMode::Multiply,
        loop_start_y,
        loop_end_y,
        loop_start_x,
        loop_end_x,
        offset_x,
        offset_y,
        opacity,
    )
}

/// Blend a part of `image2` onto a copy of `image1` in normal mode: the blend
/// function is the top channel itself.
pub fn normal(
    image1: &Image,
    image2: &Image,
    loop_start_y: i32,
    loop_end_y: i32,
    loop_start_x: i32,
    loop_end_x: i32,
    offset_x: i32,
    offset_y: i32,
    opacity: i32,
) -> (r: RasterResult<Image>)
    requires
        image1.wf(),
        image2.wf(),
        0 <= opacity <= UNIT,
        0 <= loop_start_x <= loop_end_x <= image2.width,
        0 <= loop_start_y <= loop_end_y <= image2.height,
        0 <= loop_start_x + offset_x,
        loop_end_x + offset_x <= image1.width,
        0 <= loop_start_y + offset_y,
        loop_end_y + offset_y <= image1.height,
    ensures
        r matches Ok(canvas) && canvas.wf() && canvas@ == composed(
            image1@,
            image2@,
            BlendMode::Normal,
            loop_start_y as int,
            loop_end_y as int,
            loop_start_x as int,
            loop_end_x as int,
            offset_x as int,
            offset_y as int,
            opacity as int,
        ),
{
    compose(
        image1,
        image2,
        BlendMode::Normal,
        loop_start_y,
        loop_end_y,
        loop_start_x,
        loop_end_x,
        offset_x,
        offset_y,
        opacity,
    )
}

/// Blend a part of `image2` onto a copy of `image1` in overlay mode: the blend
/// function is multiply on dark and screen on light base channels.
pub fn overlay(
    image1: &Image,
    image2: &Image,
    loop_start_y: i32,
    loop_end_y: i32,
    loop_start_x: i32,
    loop_end_x: i32,
    offset_x: i32,
    offset_y: i32,
    opacity: i32,
) -> (r: RasterResult<Image>)
    requires
        image1.wf(),
        image2.wf(),
        0 <= opacity <= UNIT,
        0 <= loop_start_x <= loop_end_x <= image2.width,
        0 <= loop_start_y <= loop_end_y <= image2.height,
        0 <= loop_start_x + offset_x,
        loop_end_x + offset_x <= image1.width,
        0 <= loop_start_y + offset_y,
        loop_end_y + offset_y <= image1.height,
    ensures
        r matches Ok(canvas) && canvas.wf() && canvas@ == composed(
            image1@,
            image2@,
            BlendMode::Overlay,
            loop_start_y as int,
            loop_end_y as int,
            loop_start_x as int,
            loop_end_x as int,
            offset_x as int,
            offset_y as int,
            opacity as int,
        ),
{
    compose(
        image1,
        image2,
        BlendMode::Overlay,
        loop_start_y,
        loop_end_y,
        loop_start_x,
        loop_end_x,
        offset_x,
        offset_y,
        opacity,
    )
}

/// Blend a part of `image2` onto a copy of `image1` in screen mode: the blend
/// function is the inverse of the product of the inverses.
pub fn screen(
    image1: &Image,
    image2: &Image,
    loop_start_y: i32,
    loop_end_y: i32,
    loop_start_x: i32,
    loop_end_x: i32,
    offset_x: i32,
    offset_y: i32,
    opacity: i32,
) -> (r: RasterResult<Image>)
    requires
        image1.wf(),
        image2.wf(),
        0 <= opacity <= UNIT,
        0 <= loop_start_x <= loop_end_x <= image2.width,
        0 <= loop_start_y <= loop_end_y <= image2.height,
        0 <= loop_start_x + offset_x,
        loop_end_x + offset_x <= image1.width,
        0 <= loop_start_y + offset_y,
        loop_end_y + offset_y <= image1.height,
    ensures
        r matches Ok(canvas) && canvas.wf() && canvas@ == composed(
            image1@,
            image2@,
            BlendMode::Screen,
            loop_start_y as int,
            loop_end_y as int,
            loop_start_x as int,
            loop_end_x as int,
            offset_x as int,
            offset_y as int,
            opacity as int,
        ),
{
    compose(
        image1,
        image2,
        BlendMode::Screen,
        loop_start_y,
        loop_end_y,
        loop_start_x,
        loop_end_x,
        offset_x,
        offset_y,
        opacity,
    )
}

} // verus!
