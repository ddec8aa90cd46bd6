//! Geometric transformations: flipping, rotating and resizing.
use crate::color::Color;
use crate::editor::{crop, cropped};
use crate::interpolate::{bilinear_resampled, resample_by, resample_fails, InterpolationMode};
use crate::position::PositionMode;
use crate::error::{RasterError, RasterResult};
use crate::grid::{lemma_index_inside, lemma_index_split, lemma_mul_i32, lemma_mul_nonneg, lemma_next_row};
use crate::image::{lemma_build_at, lemma_build_wf, lemma_same_pixels, pixels_of, push_pixel, Image, Raster};
use crate::trig::{
    cosine, cosine_of, lemma_product_bound, lemma_sine_bounds, lemma_turned_bounds, lemma_turned_right_angle,
    magnitude_of, round_units, sine, sine_of, turned, TURN_UNIT,
};
use vstd::prelude::*;

verus! {

/// The axis that a transformation works along.
#[derive(Debug, Clone, Copy, PartialEq, Eq, Structural)]
pub enum TransformMode {
    /// Along the x axis: left and right change places.
    Horizontal,
    /// Along the y axis: top and bottom change places.
    Vertical,
}

/// The mirror image: in horizontal mode the columns `x` and `width - 1 - x`
/// change places, in vertical mode the rows `y` and `height - 1 - y`.
pub open spec fn flipped(src: Raster, mode: TransformMode) -> Raster {
    match mode {
        TransformMode::Horizontal => Raster::build(
            src.width,
            src.height,
            |x: int, y: int| src.at(src.width - 1 - x, y),
        ),
        TransformMode::Vertical => Raster::build(
            src.width,
            src.height,
            |x: int, y: int| src.at(x, src.height - 1 - y),
        ),
    }
}

/// Flip an image on its x or y axis.
pub fn flip(src: &mut Image, mode: TransformMode) -> (r: RasterResult<()>)
    requires
        old(src).wf(),
    ensures
        r == Ok::<(), RasterError>(()),
        final(src).wf(),
        final(src)@ == flipped(old(src)@, mode),
{
    let w: i32 = src.width;
    let h: i32 = src.height;
    let ghost target = flipped(src@, mode);
    proof {
        lemma_build_wf(w as int, h as int, |x: int, y: int| src@.at(src@.width - 1 - x, y));
        lemma_build_wf(w as int, h as int, |x: int, y: int| src@.at(x, src@.height - 1 - y));
    }
    let mut bytes: Vec<u8> = Vec::new();
    let mut y: i32 = 0;
    while y < h
        invariant
            0 <= y <= h,
            0 <= w,
            w == src.width,
            h == src.height,
            src.wf(),
            target == flipped(src@, mode),
            bytes@.len() == 4 * (y * w),
            pixels_of(bytes@) =~= target.pixels.take(y * w),
        decreases h - y,
    {
        let mut x: i32 = 0;
        while x < w
            invariant
                0 <= y < h,
                0 <= x <= w,
                w == src.width,
                h == src.height,
                src.wf(),
                target == flipped(src@, mode),
                bytes@.len() == 4 * (y * w + x),
                pixels_of(bytes@) =~= target.pixels.take(y * w + x),
            decreases w - x,
        {
            proof {
                lemma_index_inside(w as int, h as int, x as int, y as int);
                lemma_index_split(w as int, x as int, y as int);
            }
            let color = match mode {
                TransformMode::Horizontal => src.color_at(w - 1 - x, y),
                TransformMode::Vertical => src.color_at(x, h - 1 - y),
            };
            assert(target.pixels[y * w + x] == color);
            push_pixel(&mut bytes, &color);
            x = x + 1;
        }
        proof {
            lemma_next_row(w as int, y as int);
        }
        y = y + 1;
    }
    let dest = Image::assemble(w, h, bytes, Ghost(target));
    src.bytes = dest.bytes;
    Ok(())
}

/// Flipping twice on the same axis gives the image back.
pub proof fn lemma_flip_twice(src: Raster, mode: TransformMode)
    requires
        src.wf(),
    ensures
        flipped(flipped(src, mode), mode) == src,
{
    let once = flipped(src, mode);
    let twice = flipped(once, mode);
    lemma_build_wf(src.width, src.height, |x: int, y: int| src.at(src.width - 1 - x, y));
    lemma_build_wf(src.width, src.height, |x: int, y: int| src.at(x, src.height - 1 - y));
    lemma_build_wf(src.width, src.height, |x: int, y: int| once.at(once.width - 1 - x, y));
    lemma_build_wf(src.width, src.height, |x: int, y: int| once.at(x, once.height - 1 - y));
    assert forall|x: int, y: int| twice.inside(x, y) implies twice.at(x, y) == src.at(x, y) by {
        match mode {
            TransformMode::Horizontal => {
                lemma_build_at(src.width, src.height, |x: int, y: int| once.at(once.width - 1 - x, y), x, y);
                lemma_build_at(
                    src.width,
                    src.height,
                    |x: int, y: int| src.at(src.width - 1 - x, y),
                    src.width - 1 - x,
                    y,
                );
            },
            TransformMode::Vertical => {
                lemma_build_at(src.width, src.height, |x: int, y: int| once.at(x, once.height - 1 - y), x, y);
                lemma_build_at(
                    src.width,
                    src.height,
                    |x: int, y: int| src.at(x, src.height - 1 - y),
                    x,
                    src.height - 1 - y,
                );
            },
        }
    }
    lemma_same_pixels(twice, src);
}

/// The smaller of two numbers.
pub open spec fn least(a: int, b: int) -> int {
    if a < b {
        a
    } else {
        b
    }
}

/// The larger of two numbers.
pub open spec fn most(a: int, b: int) -> int {
    if a > b {
        a
    } else {
        b
    }
}

/// The box around a turned image.
pub ghost struct TurnedBox {
    pub min_x: int,
    pub max_x: int,
    pub min_y: int,
    pub max_y: int,
}

impl TurnedBox {
    /// The box around the four corner pixels of an image of `w * h` pixels,
    /// each turned by `degree`: the pixel at the origin, which stays, and the
    /// pixels `(w - 1, 0)`, `(w - 1, h - 1)` and `(0, h - 1)`.
    pub open spec fn around(w: int, h: int, degree: int) -> TurnedBox {
        let a = turned(w - 1, 0, degree);
        let b = turned(w - 1, h - 1, degree);
        let c = turned(0, h - 1, degree);
        TurnedBox {
            min_x: least(least(least(0, a.0), b.0), c.0),
            max_x: most(most(most(0, a.0), b.0), c.0),
            min_y: least(least(least(0, a.1), b.1), c.1),
            max_y: most(most(most(0, a.1), b.1), c.1),
        }
    }

    /// The width of the canvas that holds the box.
    pub open spec fn width(self) -> int {
        magnitude_of(self.min_x) + magnitude_of(self.max_x) + 1
    }

    /// The height of the canvas that holds the box.
    pub open spec fn height(self) -> int {
        magnitude_of(self.min_y) + magnitude_of(self.max_y) + 1
    }
}

/// Whether an image has a pixel.
pub open spec fn has_pixels(src: Raster) -> bool {
    src.width > 0 && src.height > 0
}

/// Whether the canvas of a turned image is no wider and no higher than an
/// image can be. The canvas of an image without pixels always is, and so is
/// every canvas of a turn by a right angle.
pub open spec fn rotation_fits(src: Raster, degree: int) -> bool {
    has_pixels(src) ==> TurnedBox::around(src.width, src.height, degree).width() <= i32::MAX && TurnedBox::around(
        src.width,
        src.height,
        degree,
    ).height() <= i32::MAX
}

/// Whether a turn by `degree` lays an image on its side: whether the angle
/// is nearer to a quarter turn than to no turn or a half turn.
pub open spec fn lies_down(degree: int) -> bool {
    magnitude_of(sine(degree)) > magnitude_of(cosine(degree))
}

/// The color of the pixel `(x, y)` of the canvas of a turned image: the pixel
/// of the source that the place `(min_x + x, min_y + y)` of the box turns back
/// to, if there is one, and the background color elsewhere.
pub open spec fn rotated_color(src: Raster, degree: int, bg: Color, x: int, y: int) -> Color {
    let around = TurnedBox::around(src.width, src.height, degree);
    let from = turned(around.min_x + x, around.min_y + y, -degree);
    if src.inside(from.0, from.1) {
        src.at(from.0, from.1)
    } else {
        bg
    }
}

/// The image turned clockwise by `degree` on the canvas that holds its
/// turned corner pixels. An image without pixels has nothing to turn: it
/// stays without pixels, and its width and height change places where the
/// turn lays it on its side.
pub open spec fn rotated(src: Raster, degree: int, bg: Color) -> Raster {
    let around = TurnedBox::around(src.width, src.height, degree);
    if has_pixels(src) {
        Raster::build(around.width(), around.height(), |x: int, y: int| rotated_color(src, degree, bg, x, y))
    } else if lies_down(degree) {
        Raster { width: src.height, height: src.width, pixels: Seq::empty() }
    } else {
        Raster { width: src.width, height: src.height, pixels: Seq::empty() }
    }
}

/// Turn a point by an angle whose cosine and sine are given.
fn turn(x: i64, y: i64, cos: i64, sin: i64, Ghost(degree): Ghost<int>) -> (p: (i64, i64))
    requires
        -0x8000_0000 <= x <= 0x8000_0000,
        -0x8000_0000 <= y <= 0x8000_0000,
        cos == cosine(degree),
        sin == sine(degree),
    ensures
        (p.0 as int, p.1 as int) == turned(x as int, y as int, degree),
        -0x1_0000_0000 <= p.0 <= 0x1_0000_0000,
        -0x1_0000_0000 <= p.1 <= 0x1_0000_0000,
{
    proof {
        lemma_sine_bounds(degree);
        lemma_turned_bounds(x as int, y as int, degree, 0x8000_0000);
        lemma_product_bound(x as int, cos as int, 0x8000_0000, TURN_UNIT as int);
        lemma_product_bound(y as int, sin as int, 0x8000_0000, TURN_UNIT as int);
        lemma_product_bound(x as int, sin as int, 0x8000_0000, TURN_UNIT as int);
        lemma_product_bound(y as int, cos as int, 0x8000_0000, TURN_UNIT as int);
    }
    (round_units(x * cos - y * sin), round_units(x * sin + y * cos))
}

fn smaller(a: i64, b: i64) -> (r: i64)
    ensures
        r == least(a as int, b as int),
{
    if a < b {
        a
    } else {
        b
    }
}

fn larger(a: i64, b: i64) -> (r: i64)
    ensures
        r == most(a as int, b as int),
{
    if a > b {
        a
    } else {
        b
    }
}

fn distance(a: i64) -> (r: i64)
    requires
        -0x1_0000_0000 <= a <= 0x1_0000_0000,
    ensures
        r == magnitude_of(a as int),
{
    if a < 0 {
        -a
    } else {
        a
    }
}

/// Rotate an image clockwise by `degree`; a negative angle turns it counter
/// clockwise. The canvas is the box around the turned corner pixels of the
/// image, and what the image does not cover of it gets the background color.
/// A turn by no angle leaves the image as it is, and a quarter turn makes
/// its width its height and its height its width.
///
/// Fails with `PixelOutOfBounds(i32::MAX, i32::MAX)` where the canvas would
/// be wider or higher than an image can be; the image is then left as it is.
pub fn rotate(src: &mut Image, degree: i32, bg: Color) -> (r: RasterResult<()>)
    requires
        old(src).wf(),
    ensures
        final(src).wf(),
        if rotation_fits(old(src)@, degree as int) {
            r == Ok::<(), RasterError>(()) && final(src)@ == rotated(old(src)@, degree as int, bg)
        } else {
            r == Err::<(), RasterError>(RasterError::PixelOutOfBounds(i32::MAX, i32::MAX)) && *final(src) == *old(
                src,
            )
        },
        degree == 0 ==> r == Ok::<(), RasterError>(()) && final(src)@ == old(src)@,
        degree == 90 ==> r == Ok::<(), RasterError>(()) && final(src).width == old(src).height && final(src).height == old(src).width,
{
    proof {
        if degree == 0 || degree == 90 {
            lemma_rotate_right_angle(src@, degree as int, bg);
        }
        if degree == 0 {
            lemma_rotate_zero(src@, bg);
        }
    }
    let w1: i64 = src.width as i64;
    let h1: i64 = src.height as i64;
    let cos = cosine_of(degree as i64);
    let sin = sine_of(degree as i64);
    if w1 == 0 || h1 == 0 {
        assert(src@.width * src@.height == 0 && src@.height * src@.width == 0) by (nonlinear_arith)
            requires
                src@.width == 0 || src@.height == 0,
        ;
        assert(src.bytes@.len() == 0);
        if distance(sin) > distance(cos) {
            let width = src.width;
            src.width = src.height;
            src.height = width;
        }
        assert(src@.pixels =~= Seq::<Color>::empty());
        return Ok(());
    }
    let back_cos = cosine_of(-(degree as i64));
    let back_sin = sine_of(-(degree as i64));
    let a = turn(w1 - 1, 0, cos, sin, Ghost(degree as int));
    let b = turn(w1 - 1, h1 - 1, cos, sin, Ghost(degree as int));
    let c = turn(0, h1 - 1, cos, sin, Ghost(degree as int));
    let min_x = smaller(smaller(smaller(0, a.0), b.0), c.0);
    let max_x = larger(larger(larger(0, a.0), b.0), c.0);
    let min_y = smaller(smaller(smaller(0, a.1), b.1), c.1);
    let max_y = larger(larger(larger(0, a.1), b.1), c.1);
    let ghost around = TurnedBox::around(src@.width, src@.height, degree as int);
    assert(around == (TurnedBox { min_x: min_x as int, max_x: max_x as int, min_y: min_y as int, max_y: max_y as int }));
    if max_x - min_x + 1 > i32::MAX as i64 || max_y - min_y + 1 > i32::MAX as i64 {
        return Err(RasterError::PixelOutOfBounds(i32::MAX, i32::MAX));
    }
    let w2: i32 = (max_x - min_x + 1) as i32;
    let h2: i32 = (max_y - min_y + 1) as i32;
    let ghost target = rotated(src@, degree as int, bg);
    proof {
        lemma_build_wf(w2 as int, h2 as int, |x: int, y: int| rotated_color(src@, degree as int, bg, x, y));
    }
    let mut bytes: Vec<u8> = Vec::new();
    let mut y: i32 = 0;
    while y < h2
        invariant
            0 <= y <= h2,
            0 <= w2,
            src.wf(),
            back_cos == cosine(-(degree as int)),
            back_sin == sine(-(degree as int)),
            around == TurnedBox::around(src@.width, src@.height, degree as int),
            around.min_x == min_x,
            around.min_y == min_y,
            -0x8000_0000 <= min_x <= 0,
            -0x8000_0000 <= min_y <= 0,
            min_x + w2 <= 0x8000_0000,
            min_y + h2 <= 0x8000_0000,
            target.width == w2,
            target.height == h2,
            target == rotated(src@, degree as int, bg),
            has_pixels(src@),
            bytes@.len() == 4 * (y * w2),
            pixels_of(bytes@) =~= target.pixels.take(y * w2),
        decreases h2 - y,
    {
        let mut x: i32 = 0;
        while x < w2
            invariant
                0 <= y < h2,
                0 <= x <= w2,
                src.wf(),
                back_cos == cosine(-(degree as int)),
                back_sin == sine(-(degree as int)),
                around == TurnedBox::around(src@.width, src@.height, degree as int),
                around.min_x == min_x,
                around.min_y == min_y,
                -0x8000_0000 <= min_x <= 0,
                -0x8000_0000 <= min_y <= 0,
                min_x + w2 <= 0x8000_0000,
                min_y + h2 <= 0x8000_0000,
                target.width == w2,
                target.height == h2,
                target == rotated(src@, degree as int, bg),
                has_pixels(src@),
                bytes@.len() == 4 * (y * w2 + x),
                pixels_of(bytes@) =~= target.pixels.take(y * w2 + x),
            decreases w2 - x,
        {
            proof {
                lemma_index_inside(w2 as int, h2 as int, x as int, y as int);
                lemma_index_split(w2 as int, x as int, y as int);
            }
            let from = turn(min_x + x as i64, min_y + y as i64, back_cos, back_sin, Ghost(-(degree as int)));
            let color = if 0 <= from.0 && from.0 < src.width as i64 && 0 <= from.1 && from.1 < src.height as i64 {
                src.color_at(from.0 as i32, from.1 as i32)
            } else {
                bg
            };
            assert(color == rotated_color(src@, degree as int, bg, x as int, y as int));
            assert(target.pixels[y * w2 + x] == color);
            push_pixel(&mut bytes, &color);
            x = x + 1;
        }
        proof {
            lemma_next_row(w2 as int, y as int);
        }
        y = y + 1;
    }
    let dest = Image::assemble(w2, h2, bytes, Ghost(target));
    src.width = dest.width;
    src.height = dest.height;
    src.bytes = dest.bytes;
    Ok(())
}

/// The canvas of a turned image is no wider and no higher than an image can
/// be where the image is at most 536,870,911 pixels wide and high.
pub proof fn lemma_rotation_fits(src: Raster, degree: int)
    requires
        0 <= src.width <= 0x1fff_ffff,
        0 <= src.height <= 0x1fff_ffff,
    ensures
        rotation_fits(src, degree),
{
    if has_pixels(src) {
        lemma_turned_bounds(src.width - 1, 0, degree, 0x1fff_ffff);
        lemma_turned_bounds(src.width - 1, src.height - 1, degree, 0x1fff_ffff);
        lemma_turned_bounds(0, src.height - 1, degree, 0x1fff_ffff);
    }
}

/// A turn by a right angle keeps the two extents of an image, and makes
/// each the other where the turn is by a quarter or by three quarters. Its
/// canvas is never too large, and no pixel of it is left to the background.
pub proof fn lemma_rotate_right_angle(src: Raster, degree: int, bg: Color)
    requires
        src.wf(),
        degree % 90 == 0,
        src.width <= i32::MAX,
        src.height <= i32::MAX,
    ensures
        rotation_fits(src, degree),
        rotated(src, degree, bg).wf(),
        degree % 180 == 0 ==> rotated(src, degree, bg).width == src.width && rotated(src, degree, bg).height
            == src.height,
        degree % 180 != 0 ==> rotated(src, degree, bg).width == src.height && rotated(src, degree, bg).height
            == src.width,
{
    lemma_turned_right_angle(src.width - 1, 0, degree);
    lemma_turned_right_angle(src.width - 1, src.height - 1, degree);
    lemma_turned_right_angle(0, src.height - 1, degree);
    let around = TurnedBox::around(src.width, src.height, degree);
    if has_pixels(src) {
        lemma_build_wf(around.width(), around.height(), |x: int, y: int| rotated_color(src, degree, bg, x, y));
        assert(src.width * src.height == src.height * src.width) by (nonlinear_arith);
    } else {
        assert(src.width * src.height == 0 && src.height * src.width == 0) by (nonlinear_arith)
            requires
                src.width == 0 || src.height == 0,
        ;
    }
}

/// Rotating by no angle leaves the image as it is: the canvas has the size
/// of the image, and every pixel is at its place.
pub proof fn lemma_rotate_zero(src: Raster, bg: Color)
    requires
        src.wf(),
    ensures
        rotated(src, 0, bg) == src,
{
    let out = rotated(src, 0, bg);
    lemma_turned_right_angle(src.width - 1, 0, 0);
    lemma_turned_right_angle(src.width - 1, src.height - 1, 0);
    lemma_turned_right_angle(0, src.height - 1, 0);
    if has_pixels(src) {
        lemma_build_wf(src.width, src.height, |x: int, y: int| rotated_color(src, 0, bg, x, y));
        assert forall|x: int, y: int| out.inside(x, y) implies out.at(x, y) == src.at(x, y) by {
            lemma_turned_right_angle(x, y, 0);
            lemma_build_at(src.width, src.height, |x: int, y: int| rotated_color(src, 0, bg, x, y), x, y);
        }
        lemma_same_pixels(out, src);
    } else {
        lemma_turned_right_angle(0, 0, 0);
        assert(src.width * src.height == 0) by (nonlinear_arith)
            requires
                src.width == 0 || src.height == 0,
        ;
        assert(out.pixels =~= src.pixels);
    }
}

/// Rotating by a quarter turn swaps the dimensions exactly: the canvas is as
/// wide as the image is high and as high as the image is wide, and the pixel
/// `(x, y)` of the image goes to `(height - 1 - y, x)`.
pub proof fn lemma_rotate_quarter(src: Raster, bg: Color, x: int, y: int)
    requires
        src.wf(),
        src.inside(x, y),
    ensures
        rotated(src, 90, bg).wf(),
        rotated(src, 90, bg).width == src.height,
        rotated(src, 90, bg).height == src.width,
        rotated(src, 90, bg).at(src.height - 1 - y, x) == src.at(x, y),
{
    lemma_turned_right_angle(src.width - 1, 0, 90);
    lemma_turned_right_angle(src.width - 1, src.height - 1, 90);
    lemma_turned_right_angle(0, src.height - 1, 90);
    lemma_turned_right_angle(-y, x, -90);
    assert((-90int) % 360 == 270);
    lemma_build_at(
        src.height,
        src.width,
        |x: int, y: int| rotated_color(src, 90, bg, x, y),
        src.height - 1 - y,
        x,
    );
}

/// A quotient rounded to the nearest whole number, halves upwards, and at
/// most the largest dimension that an image can have.
pub open spec fn rounded_ratio(n: int, d: int) -> int {
    if (2 * n + d) / (2 * d) > i32::MAX {
        i32::MAX as int
    } else {
        (2 * n + d) / (2 * d)
    }
}

/// A quotient rounded down, and at most the largest dimension that an image
/// can have.
pub open spec fn lower_ratio(n: int, d: int) -> int {
    if n / d > i32::MAX {
        i32::MAX as int
    } else {
        n / d
    }
}

/// The size of an image brought to the width `w` with its aspect ratio kept:
/// the height is `w * height / width`, rounded to the nearest whole number.
pub open spec fn exact_width_size(src: Raster, w: int) -> (int, int) {
    (w, rounded_ratio(w * src.height, src.width))
}

/// The size of an image brought to the height `h` with its aspect ratio kept:
/// the width is `h * width / height`, rounded down.
pub open spec fn exact_height_size(src: Raster, h: int) -> (int, int) {
    (lower_ratio(h * src.width, src.height), h)
}

/// The size of an image that is made to fit into `w * h` with its aspect
/// ratio kept: the width is `w`, unless the height would then exceed `h`; in
/// that case the height is `h`.
pub open spec fn fit_size(src: Raster, w: int, h: int) -> (int, int) {
    if rounded_ratio(w * src.height, src.width) > h {
        (rounded_ratio(h * src.width, src.height), h)
    } else {
        (w, rounded_ratio(w * src.height, src.width))
    }
}

/// The size of an image that is made to fill `w * h` with its aspect ratio
/// kept: the width is `w`, unless the height would then fall short of `h`; in
/// that case the height is `h`.
pub open spec fn fill_size(src: Raster, w: int, h: int) -> (int, int) {
    if rounded_ratio(w * src.height, src.width) < h {
        (lower_ratio(h * src.width, src.height), h)
    } else {
        (w, rounded_ratio(w * src.height, src.width))
    }
}

/// What rounding a quotient to the nearest whole number means: the quotient
/// lies within a half of the result.
proof fn lemma_rounded_quotient(n: int, d: int)
    requires
        0 <= n,
        0 < d,
    ensures
        2 * d * ((2 * n + d) / (2 * d)) <= 2 * n + d < 2 * d * ((2 * n + d) / (2 * d)) + 2 * d,
        0 <= (2 * n + d) / (2 * d),
{
    vstd::arithmetic::div_mod::lemma_fundamental_div_mod(2 * n + d, 2 * d);
    vstd::arithmetic::div_mod::lemma_mod_bound(2 * n + d, 2 * d);
    let q = (2 * n + d) / (2 * d);
    assert(2 * d * q == (2 * d) * q) by (nonlinear_arith);
    assert(0 <= q) by (nonlinear_arith)
        requires
            0 <= 2 * n + d,
            2 * n + d < (2 * d) * q + 2 * d,
            0 < d,
    ;
}

/// What rounding a quotient down means.
proof fn lemma_lower_quotient(n: int, d: int)
    requires
        0 <= n,
        0 < d,
    ensures
        d * (n / d) <= n < d * (n / d) + d,
        0 <= n / d,
{
    vstd::arithmetic::div_mod::lemma_fundamental_div_mod(n, d);
    vstd::arithmetic::div_mod::lemma_mod_bound(n, d);
    let q = n / d;
    assert(0 <= q) by (nonlinear_arith)
        requires
            0 <= n,
            n < d * q + d,
            0 < d,
    ;
}

/// An image that is made to fit into a box does not exceed the box.
pub proof fn lemma_fit_size(src: Raster, w: int, h: int)
    requires
        0 < src.width,
        0 < src.height,
        0 <= w <= i32::MAX,
        0 <= h <= i32::MAX,
    ensures
        0 <= fit_size(src, w, h).0 <= w,
        0 <= fit_size(src, w, h).1 <= h,
{
    let sw = src.width;
    let sh = src.height;
    assert(0 <= w * sh && 0 <= h * sw) by (nonlinear_arith)
        requires
            0 <= w,
            0 <= h,
            0 < sw,
            0 < sh,
    ;
    lemma_rounded_quotient(w * sh, sw);
    lemma_rounded_quotient(h * sw, sh);
    let r = (2 * (w * sh) + sw) / (2 * sw);
    let q = (2 * (h * sw) + sh) / (2 * sh);
    if rounded_ratio(w * sh, sw) > h {
        assert(r >= h + 1);
        // 2 sw (h + 1) <= 2 sw r <= 2 w sh + sw
        assert(2 * sw * (h + 1) <= 2 * sw * r) by (nonlinear_arith)
            requires
                h + 1 <= r,
                0 < sw,
        ;
        assert(2 * sw * (h + 1) == 2 * (h * sw) + 2 * sw) by (nonlinear_arith);
        // 2 sh q <= 2 h sw + sh < 2 w sh + sh
        assert(q <= w) by (nonlinear_arith)
            requires
                2 * sh * q <= 2 * (h * sw) + sh,
                2 * (h * sw) + 2 * sw <= 2 * (w * sh) + sw,
                0 < sw,
                0 < sh,
        ;
    }
}

/// An image that is made to fill a box covers the box, and is cut to it.
pub proof fn lemma_fill_size(src: Raster, w: int, h: int)
    requires
        0 < src.width,
        0 < src.height,
        0 <= w <= i32::MAX,
        0 <= h <= i32::MAX,
    ensures
        w <= fill_size(src, w, h).0 <= i32::MAX,
        h <= fill_size(src, w, h).1 <= i32::MAX,
        cropped(bilinear_resampled(src, fill_size(src, w, h).0, fill_size(src, w, h).1), 0, 0, w, h).width == w,
        cropped(bilinear_resampled(src, fill_size(src, w, h).0, fill_size(src, w, h).1), 0, 0, w, h).height == h,
{
    let sw = src.width;
    let sh = src.height;
    assert(0 <= w * sh && 0 <= h * sw) by (nonlinear_arith)
        requires
            0 <= w,
            0 <= h,
            0 < sw,
            0 < sh,
    ;
    lemma_rounded_quotient(w * sh, sw);
    lemma_lower_quotient(h * sw, sh);
    let r = (2 * (w * sh) + sw) / (2 * sw);
    let p = (h * sw) / sh;
    if rounded_ratio(w * sh, sw) < h {
        assert(r <= h - 1);
        assert(2 * sw * r + 2 * sw <= 2 * sw * h) by (nonlinear_arith)
            requires
                r <= h - 1,
                0 < sw,
        ;
        assert(2 * sw * h == 2 * (h * sw)) by (nonlinear_arith);
        // w sh < h sw < sh (p + 1)
        assert(w <= p) by (nonlinear_arith)
            requires
                2 * (w * sh) + sw < 2 * (h * sw),
                h * sw < sh * p + sh,
                0 < sw,
                0 < sh,
        ;
    }
}

/// Compute `a * b / d`, rounded to the nearest whole number.
fn round_ratio(a: i32, b: i32, d: i32) -> (r: i32)
    requires
        0 <= a,
        0 <= b,
        0 < d,
    ensures
        r == rounded_ratio(a * b, d as int),
        0 <= r,
{
    proof {
        lemma_mul_i32(a as int, b as int);
        lemma_mul_nonneg(a as int, b as int, a as int, b as int);
        assert((2 * (a * b) + d) / (2 * d) >= 0) by (nonlinear_arith)
            requires
                0 <= a * b,
                0 < d,
        ;
    }
    let n: u64 = (a as u64) * (b as u64);
    let q: u64 = (2 * n + d as u64) / (2 * (d as u64));
    if q > i32::MAX as u64 {
        i32::MAX
    } else {
        q as i32
    }
}

/// Compute `a * b / d`, rounded down.
fn floor_ratio(a: i32, b: i32, d: i32) -> (r: i32)
    requires
        0 <= a,
        0 <= b,
        0 < d,
    ensures
        r == lower_ratio(a * b, d as int),
        0 <= r,
{
    proof {
        lemma_mul_i32(a as int, b as int);
        lemma_mul_nonneg(a as int, b as int, a as int, b as int);
        assert((a * b) / (d as int) >= 0) by (nonlinear_arith)
            requires
                0 <= a * b,
                0 < d,
        ;
    }
    let n: u64 = (a as u64) * (b as u64);
    let q: u64 = n / (d as u64);
    if q > i32::MAX as u64 {
        i32::MAX
    } else {
        q as i32
    }
}

/// Resize image to exact dimensions ignoring aspect ratio.
///
/// Fails with `PixelOutOfBounds(0, 0)` where pixels would have to be made
/// from an image that has none; the image is then left as it is.
pub fn resize_exact(src: &mut Image, w: i32, h: i32) -> (r: RasterResult<()>)
    requires
        old(src).wf(),
        0 <= w,
        0 <= h,
    ensures
        final(src).wf(),
        if resample_fails(old(src)@, w as int, h as int, InterpolationMode::Bicubic) {
            r == Err::<(), RasterError>(RasterError::PixelOutOfBounds(0, 0)) && *final(src) == *old(src)
        } else {
            r == Ok::<(), RasterError>(()) && final(src)@ == bilinear_resampled(old(src)@, w as int, h as int)
        },
{
    resample_by(src, w, h, InterpolationMode::Bicubic)
}

/// Resize image to exact height. Width is auto calculated.
///
/// Fails with `PixelOutOfBounds(0, 0)` on an image without pixels, which
/// has no aspect ratio; the image is then left as it is.
pub fn resize_exact_height(src: &mut Image, h: i32) -> (r: RasterResult<()>)
    requires
        old(src).wf(),
        0 <= h,
    ensures
        final(src).wf(),
        if has_pixels(old(src)@) {
            &&& r == Ok::<(), RasterError>(())
            &&& final(src)@ == bilinear_resampled(
                old(src)@,
                exact_height_size(old(src)@, h as int).0,
                exact_height_size(old(src)@, h as int).1,
            )
            &&& final(src).height == h
        } else {
            r == Err::<(), RasterError>(RasterError::PixelOutOfBounds(0, 0)) && *final(src) == *old(src)
        },
{
    if src.width == 0 || src.height == 0 {
        return Err(RasterError::PixelOutOfBounds(0, 0));
    }
    let resize_width = floor_ratio(h, src.width, src.height);
    resample_by(src, resize_width, h, InterpolationMode::Bicubic)
}

/// Resize image to exact width. Height is auto calculated.
///
/// Fails with `PixelOutOfBounds(0, 0)` on an image without pixels, which
/// has no aspect ratio; the image is then left as it is.
pub fn resize_exact_width(src: &mut Image, w: i32) -> (r: RasterResult<()>)
    requires
        old(src).wf(),
        0 <= w,
    ensures
        final(src).wf(),
        if has_pixels(old(src)@) {
            &&& r == Ok::<(), RasterError>(())
            &&& final(src)@ == bilinear_resampled(
                old(src)@,
                exact_width_size(old(src)@, w as int).0,
                exact_width_size(old(src)@, w as int).1,
            )
            &&& final(src).width == w
        } else {
            r == Err::<(), RasterError>(RasterError::PixelOutOfBounds(0, 0)) && *final(src) == *old(src)
        },
{
    if src.width == 0 || src.height == 0 {
        return Err(RasterError::PixelOutOfBounds(0, 0));
    }
    let resize_height = round_ratio(w, src.height, src.width);
    resample_by(src, w, resize_height, InterpolationMode::Bicubic)
}

/// Resize image to fill all the space in the given dimension. What then
/// exceeds the dimension on the right or at the bottom is cut off.
///
/// Fails with `PixelOutOfBounds(0, 0)` on an image without pixels, which
/// has no aspect ratio; the image is then left as it is.
pub fn resize_fill(src: &mut Image, w: i32, h: i32) -> (r: RasterResult<()>)
    requires
        old(src).wf(),
        0 <= w,
        0 <= h,
    ensures
        final(src).wf(),
        if has_pixels(old(src)@) {
            &&& r == Ok::<(), RasterError>(())
            &&& final(src)@ == cropped(
                bilinear_resampled(old(src)@, fill_size(old(src)@, w as int, h as int).0, fill_size(
                    old(src)@,
                    w as int,
                    h as int,
                ).1),
                0,
                0,
                w as int,
                h as int,
            )
            &&& final(src).width == w
            &&& final(src).height == h
        } else {
            r == Err::<(), RasterError>(RasterError::PixelOutOfBounds(0, 0)) && *final(src) == *old(src)
        },
{
    if src.width == 0 || src.height == 0 {
        return Err(RasterError::PixelOutOfBounds(0, 0));
    }
    proof {
        lemma_fill_size(src@, w as int, h as int);
    }
    let mut optimum_width: i32 = w;
    let mut optimum_height: i32 = round_ratio(w, src.height, src.width);
    if optimum_height < h {
        optimum_width = floor_ratio(h, src.width, src.height);
        optimum_height = h;
    }
    let _ = resample_by(src, optimum_width, optimum_height, InterpolationMode::Bicubic);
    crop(src, w, h, PositionMode::TopLeft, 0, 0)
}

/// Resize an image to fit within the given width and height. The re-sized
/// image will not exceed the given dimension. Preserves the aspect ratio.
///
/// Fails with `PixelOutOfBounds(0, 0)` on an image without pixels, which
/// has no aspect ratio; the image is then left as it is.
pub fn resize_fit(src: &mut Image, w: i32, h: i32) -> (r: RasterResult<()>)
    requires
        old(src).wf(),
        0 <= w,
        0 <= h,
    ensures
        final(src).wf(),
        if has_pixels(old(src)@) {
            &&& r == Ok::<(), RasterError>(())
            &&& final(src)@ == bilinear_resampled(
                old(src)@,
                fit_size(old(src)@, w as int, h as int).0,
                fit_size(old(src)@, w as int, h as int).1,
            )
            &&& final(src).width <= w
            &&& final(src).height <= h
        } else {
            r == Err::<(), RasterError>(RasterError::PixelOutOfBounds(0, 0)) && *final(src) == *old(src)
        },
{
    if src.width == 0 || src.height == 0 {
        return Err(RasterError::PixelOutOfBounds(0, 0));
    }
    proof {
        lemma_fit_size(src@, w as int, h as int);
    }
    let mut resize_width: i32 = w;
    let mut resize_height: i32 = round_ratio(w, src.height, src.width);
    if resize_height > h {
        resize_height = h;
        resize_width = round_ratio(h, src.width, src.height);
    }
    resample_by(src, resize_width, resize_height, InterpolationMode::Bicubic)
}

} // verus!
