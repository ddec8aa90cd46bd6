//! Filters: convolution with a 3×3 kernel and what is built on it, and
//! adjustments of single pixels.
use crate::color::{channel, hue, rgb_channel, saturation_of, value_of, Color, FULL};
use crate::error::{RasterError, RasterResult};
use crate::grid::{lemma_index_inside, lemma_index_split, lemma_next_row};
use crate::image::{lemma_build_at, lemma_build_wf, lemma_same_pixels, pixels_of, push_pixel, Image, Raster};
use crate::UNIT;
use vstd::prelude::*;

verus! {

/// The two blurs.
#[derive(Debug, Clone, Copy, PartialEq, Eq, Structural)]
pub enum BlurMode {
    Box,
    Gaussian,
}

/// The direction in which an edge filter looks for edges.
#[derive(Debug, Clone, Copy, PartialEq, Eq, Structural)]
pub enum Orientation {
    Horizontal,
    Vertical,
    DiagonalUp,
    DiagonalDown,
    DiagonalBoth,
    Both,
}

/// The nine weights of a kernel, row by row.
pub open spec fn weights(matrix: [[i32; 3]; 3]) -> Seq<int> {
    Seq::new(9, |t: int| matrix[t / 3][t % 3] as int)
}

/// A coordinate brought onto the image: what lies before the first pixel
/// counts as the first, what lies after the last as the last.
pub open spec fn clamped(v: int, extent: int) -> int {
    if v < 0 {
        0
    } else if v > extent - 1 {
        extent - 1
    } else {
        v
    }
}

/// The pixel that the tap `t` of a kernel centered on `(x, y)` reads: tap 0
/// is up left of the center, tap 4 is the center, tap 8 is down right.
pub open spec fn tap_pixel(src: Raster, x: int, y: int, t: int) -> Color {
    src.at(clamped(x - 1 + t % 3, src.width), clamped(y - 1 + t / 3, src.height))
}

/// The sum over the first `n` taps of weight times channel value.
pub open spec fn tap_sum(src: Raster, kernel: Seq<int>, x: int, y: int, k: int, n: int) -> int
    decreases n,
{
    if n <= 0 {
        0
    } else {
        tap_sum(src, kernel, x, y, k, n - 1) + kernel[n - 1] * channel(tap_pixel(src, x, y, n - 1), k)
    }
}

/// A weighted sum divided by the divisor, rounded towards zero, and brought
/// into the range of a channel.
pub open spec fn settled(sum: int, divisor: int) -> u8 {
    if sum == 0 || (sum > 0) != (divisor > 0) {
        0
    } else {
        let quotient = (if sum > 0 { sum } else { -sum }) / (if divisor > 0 { divisor } else { -divisor });
        if quotient > 255 {
            255
        } else {
            quotient as u8
        }
    }
}

/// The color that a convolution gives to the pixel `(x, y)`.
pub open spec fn convolved_color(src: Raster, kernel: Seq<int>, divisor: int, x: int, y: int) -> Color {
    Color {
        r: settled(tap_sum(src, kernel, x, y, 0, 9), divisor),
        g: settled(tap_sum(src, kernel, x, y, 1, 9), divisor),
        b: settled(tap_sum(src, kernel, x, y, 2, 9), divisor),
        a: settled(tap_sum(src, kernel, x, y, 3, 9), divisor),
    }
}

/// The image convolved with a kernel: every channel of every pixel is the
/// weighted sum over the pixel's 3×3 neighbourhood, divided by the divisor
/// and brought into the range of a channel. The neighbourhood of a pixel on
/// the border is completed with the nearest pixels of the image.
pub open spec fn convolved(src: Raster, kernel: Seq<int>, divisor: int) -> Raster {
    Raster::build(src.width, src.height, |x: int, y: int| convolved_color(src, kernel, divisor, x, y))
}

/// Divide a weighted sum and bring it into the range of a channel.
fn settle(sum: i64, divisor: i32) -> (r: u8)
    requires
        divisor != 0,
    ensures
        r == settled(sum as int, divisor as int),
{
    if sum == 0 || (sum > 0) != (divisor > 0) {
        0
    } else {
        let n: u64 = if sum > 0 {
            sum as u64
        } else {
            (-(sum + 1)) as u64 + 1
        };
        let d: u64 = if divisor > 0 {
            divisor as u64
        } else {
            (-(divisor as i64)) as u64
        };
        let quotient: u64 = n / d;
        if quotient > 255 {
            255
        } else {
            quotient as u8
        }
    }
}

/// A coordinate brought onto an axis of positive extent.
fn clamp_to(v: i64, extent: i32) -> (r: i32)
    requires
        extent > 0,
    ensures
        r == clamped(v as int, extent as int),
        0 <= r < extent,
{
    if v < 0 {
        0
    } else if v > (extent - 1) as i64 {
        extent - 1
    } else {
        v as i32
    }
}

/// The bound that keeps the sums of a convolution in range.
proof fn lemma_tap_bound(weight: int, value: int)
    by (nonlinear_arith)
    requires
        -0x8000_0000 <= weight < 0x8000_0000,
        0 <= value <= 255,
    ensures
        -547_608_330_240 <= weight * value <= 547_608_330_240,
{
}

/// Apply a convolution matrix to the image. The divisor is applied to each
/// weighted sum as the last step before it is brought into range.
pub fn convolve(src: &mut Image, matrix: [[i32; 3]; 3], divisor: i32) -> (r: RasterResult<()>)
    requires
        old(src).wf(),
        divisor != 0,
    ensures
        r == Ok::<(), RasterError>(()),
        final(src).wf(),
        final(src)@ == convolved(old(src)@, weights(matrix), divisor as int),
{
    let w: i32 = src.width;
    let h: i32 = src.height;
    let ghost kernel = weights(matrix);
    let ghost target = convolved(src@, kernel, divisor as int);
    proof {
        lemma_build_wf(w as int, h as int, |x: int, y: int| convolved_color(src@, kernel, divisor as int, x, y));
    }
    let mut bytes: Vec<u8> = Vec::new();
    let mut y: i32 = 0;
    while y < h
        invariant
            0 <= y <= h,
            0 <= w,
            w == src.width,
            h == src.height,
            src.wf(),
            divisor != 0,
            kernel == weights(matrix),
            target == convolved(src@, kernel, divisor as int),
            bytes@.len() == 4 * (y * w),
            pixels_of(bytes@) =~= target.pixels.take(y * w),
        decreases h - y,
    {
        let mut x: i32 = 0;
        while x < w
            invariant
                0 <= y < h,
                0 <= x <= w,
                w == src.width,
                h == src.height,
                src.wf(),
                divisor != 0,
                kernel == weights(matrix),
                target == convolved(src@, kernel, divisor as int),
                bytes@.len() == 4 * (y * w + x),
                pixels_of(bytes@) =~= target.pixels.take(y * w + x),
            decreases w - x,
        {
            let mut red: i64 = 0;
            let mut green: i64 = 0;
            let mut blue: i64 = 0;
            let mut alpha: i64 = 0;
            let mut t: usize = 0;
            while t < 9
                invariant
                    0 <= t <= 9,
                    0 <= y < h,
                    0 <= x < w,
                    w == src.width,
                    h == src.height,
                    src.wf(),
                    kernel == weights(matrix),
                    red == tap_sum(src@, kernel, x as int, y as int, 0, t as int),
                    green == tap_sum(src@, kernel, x as int, y as int, 1, t as int),
                    blue == tap_sum(src@, kernel, x as int, y as int, 2, t as int),
                    alpha == tap_sum(src@, kernel, x as int, y as int, 3, t as int),
                    -547_608_330_240 * (t as int) <= red as int <= 547_608_330_240 * (t as int),
                    -547_608_330_240 * (t as int) <= green as int <= 547_608_330_240 * (t as int),
                    -547_608_330_240 * (t as int) <= blue as int <= 547_608_330_240 * (t as int),
                    -547_608_330_240 * (t as int) <= alpha as int <= 547_608_330_240 * (t as int),
                decreases 9 - t,
            {
                let sample_x = clamp_to(x as i64 - 1 + (t % 3) as i64, w);
                let sample_y = clamp_to(y as i64 - 1 + (t / 3) as i64, h);
                let pixel = src.color_at(sample_x, sample_y);
                let weight: i64 = matrix[t / 3][t % 3] as i64;
                assert(pixel == tap_pixel(src@, x as int, y as int, t as int));
                assert(weight == kernel[t as int]);
                proof {
                    lemma_tap_bound(weight as int, pixel.r as int);
                    lemma_tap_bound(weight as int, pixel.g as int);
                    lemma_tap_bound(weight as int, pixel.b as int);
                    lemma_tap_bound(weight as int, pixel.a as int);
                }
                red = red + weight * (pixel.r as i64);
                green = green + weight * (pixel.g as i64);
                blue = blue + weight * (pixel.b as i64);
                alpha = alpha + weight * (pixel.a as i64);
                t = t + 1;
            }
            let color = Color {
                r: settle(red, divisor),
                g: settle(green, divisor),
                b: settle(blue, divisor),
                a: settle(alpha, divisor),
            };
            proof {
                lemma_index_inside(w as int, h as int, x as int, y as int);
                lemma_index_split(w as int, x as int, y as int);
            }
            assert(target.pixels[y * w + x] == color);
            push_pixel(&mut bytes, &color);
            x = x + 1;
        }
        proof {
            lemma_next_row(w as int, y as int);
        }
        y = y + 1;
    }
    let dest = Image::assemble(w, h, bytes, Ghost(target));
    src.bytes = dest.bytes;
    Ok(())
}

/// The kernel that leaves an image as it is: weight one on the center.
pub open spec fn identity_kernel() -> Seq<int> {
    seq![0int, 0, 0, 0, 1, 0, 0, 0, 0]
}

/// Box blur: the mean of the neighbourhood (divisor 9).
pub open spec fn box_kernel() -> Seq<int> {
    seq![1int, 1, 1, 1, 1, 1, 1, 1, 1]
}

/// Gaussian blur (divisor 16).
pub open spec fn gaussian_kernel() -> Seq<int> {
    seq![1int, 2, 1, 2, 4, 2, 1, 2, 1]
}

pub open spec fn sharpen_kernel() -> Seq<int> {
    seq![0int, -1, 0, -1, 5, -1, 0, -1, 0]
}

pub open spec fn emboss_kernel() -> Seq<int> {
    seq![-2int, -1, 0, -1, 1, 1, 0, 1, 2]
}

/// The Sobel kernel that responds to changes along a row.
pub open spec fn sobel_horizontal() -> Seq<int> {
    seq![-1int, 0, 1, -2, 0, 2, -1, 0, 1]
}

/// The Sobel kernel that responds to changes along a column.
pub open spec fn sobel_vertical() -> Seq<int> {
    seq![-1int, -2, -1, 0, 0, 0, 1, 2, 1]
}

/// The Sobel kernel that responds to changes from the lower left to the upper right.
pub open spec fn sobel_diagonal_up() -> Seq<int> {
    seq![0int, -1, -2, 1, 0, -1, 2, 1, 0]
}

/// The Sobel kernel that responds to changes from the upper left to the lower right.
pub open spec fn sobel_diagonal_down() -> Seq<int> {
    seq![-2int, -1, 0, -1, 0, 1, 0, 1, 2]
}

/// Convolution with the identity kernel and divisor 1 changes no pixel.
pub proof fn lemma_convolve_identity(src: Raster)
    requires
        src.wf(),
    ensures
        convolved(src, identity_kernel(), 1) == src,
{
    let kernel = identity_kernel();
    let out = convolved(src, kernel, 1);
    lemma_build_wf(src.width, src.height, |x: int, y: int| convolved_color(src, kernel, 1, x, y));
    assert forall|x: int, y: int| out.inside(x, y) implies out.at(x, y) == src.at(x, y) by {
        lemma_build_at(src.width, src.height, |x: int, y: int| convolved_color(src, kernel, 1, x, y), x, y);
        let center = src.at(x, y);
        assert(tap_pixel(src, x, y, 4) == center);
        assert forall|k: int| 0 <= k <= 3 implies #[trigger] tap_sum(src, kernel, x, y, k, 9) == channel(
            center,
            k,
        ) by {
            lemma_identity_taps(src, x, y, k);
        }
        assert(tap_sum(src, kernel, x, y, 0, 9) == center.r);
        assert(tap_sum(src, kernel, x, y, 1, 9) == center.g);
        assert(tap_sum(src, kernel, x, y, 2, 9) == center.b);
        assert(tap_sum(src, kernel, x, y, 3, 9) == center.a);
        lemma_settled_by_one(center.r);
        lemma_settled_by_one(center.g);
        lemma_settled_by_one(center.b);
        lemma_settled_by_one(center.a);
    }
    lemma_same_pixels(out, src);
}

/// Under the identity kernel the sum over all taps is the channel of the
/// center pixel.
proof fn lemma_identity_taps(src: Raster, x: int, y: int, k: int)
    ensures
        tap_sum(src, identity_kernel(), x, y, k, 9) == channel(tap_pixel(src, x, y, 4), k),
{
    let kernel = identity_kernel();
    assert(kernel[0] == 0 && kernel[1] == 0 && kernel[2] == 0 && kernel[3] == 0 && kernel[4] == 1);
    assert(kernel[5] == 0 && kernel[6] == 0 && kernel[7] == 0 && kernel[8] == 0);
    assert(tap_sum(src, kernel, x, y, k, 0) == 0);
    lemma_tap_step(src, kernel, x, y, k, 1);
    lemma_tap_step(src, kernel, x, y, k, 2);
    lemma_tap_step(src, kernel, x, y, k, 3);
    lemma_tap_step(src, kernel, x, y, k, 4);
    lemma_tap_step(src, kernel, x, y, k, 5);
    lemma_tap_step(src, kernel, x, y, k, 6);
    lemma_tap_step(src, kernel, x, y, k, 7);
    lemma_tap_step(src, kernel, x, y, k, 8);
    lemma_tap_step(src, kernel, x, y, k, 9);
}

/// One more tap adds its weight times its channel; a weight of zero adds
/// nothing and a weight of one adds the channel.
proof fn lemma_tap_step(src: Raster, kernel: Seq<int>, x: int, y: int, k: int, n: int)
    requires
        n > 0,
    ensures
        kernel[n - 1] == 0 ==> tap_sum(src, kernel, x, y, k, n) == tap_sum(src, kernel, x, y, k, n - 1),
        kernel[n - 1] == 1 ==> tap_sum(src, kernel, x, y, k, n) == tap_sum(src, kernel, x, y, k, n - 1) + channel(
            tap_pixel(src, x, y, n - 1),
            k,
        ),
{
    let v = channel(tap_pixel(src, x, y, n - 1), k);
    let w = kernel[n - 1];
    assert(w == 0 ==> w * v == 0) by (nonlinear_arith);
    assert(w == 1 ==> w * v == v) by (nonlinear_arith);
}

/// Dividing a channel value by one leaves it as it is.
proof fn lemma_settled_by_one(v: u8)
    ensures
        settled(v as int, 1) == v,
{
}

/// Apply the kernel of a named filter.
fn convolve_with(src: &mut Image, matrix: [[i32; 3]; 3], divisor: i32, Ghost(kernel): Ghost<Seq<int>>) -> (r:
    RasterResult<()>)
    requires
        old(src).wf(),
        divisor != 0,
        kernel.len() == 9,
        forall|t: int| 0 <= t < 9 ==> kernel[t] == #[trigger] matrix[t / 3][t % 3],
    ensures
        r == Ok::<(), RasterError>(()),
        final(src).wf(),
        final(src)@ == convolved(old(src)@, kernel, divisor as int),
{
    assert(weights(matrix) =~= kernel);
    convolve(src, matrix, divisor)
}

/// Apply box or Gaussian blur.
pub fn blur(src: &mut Image, mode: BlurMode) -> (r: RasterResult<()>)
    requires
        old(src).wf(),
    ensures
        r == Ok::<(), RasterError>(()),
        final(src).wf(),
        final(src)@ == (match mode {
            BlurMode::Box => convolved(old(src)@, box_kernel(), 9),
            BlurMode::Gaussian => convolved(old(src)@, gaussian_kernel(), 16),
        }),
{
    match mode {
        BlurMode::Box => blur_box(src),
        BlurMode::Gaussian => blur_gaussian(src),
    }
}

fn blur_box(src: &mut Image) -> (r: RasterResult<()>)
    requires
        old(src).wf(),
    ensures
        r == Ok::<(), RasterError>(()),
        final(src).wf(),
        final(src)@ == convolved(old(src)@, box_kernel(), 9),
{
    let matrix: [[i32; 3]; 3] = [[1, 1, 1], [1, 1, 1], [1, 1, 1]];
    convolve_with(src, matrix, 9, Ghost(box_kernel()))
}

fn blur_gaussian(src: &mut Image) -> (r: RasterResult<()>)
    requires
        old(src).wf(),
    ensures
        r == Ok::<(), RasterError>(()),
        final(src).wf(),
        final(src)@ == convolved(old(src)@, gaussian_kernel(), 16),
{
    let matrix: [[i32; 3]; 3] = [[1, 2, 1], [2, 4, 2], [1, 2, 1]];
    convolve_with(src, matrix, 16, Ghost(gaussian_kernel()))
}

/// Apply emboss.
pub fn emboss(src: &mut Image) -> (r: RasterResult<()>)
    requires
        old(src).wf(),
    ensures
        r == Ok::<(), RasterError>(()),
        final(src).wf(),
        final(src)@ == convolved(old(src)@, emboss_kernel(), 1),
{
    let matrix: [[i32; 3]; 3] = [[-2, -1, 0], [-1, 1, 1], [0, 1, 2]];
    convolve_with(src, matrix, 1, Ghost(emboss_kernel()))
}

/// Apply sharpen.
pub fn sharpen(src: &mut Image) -> (r: RasterResult<()>)
    requires
        old(src).wf(),
    ensures
        r == Ok::<(), RasterError>(()),
        final(src).wf(),
        final(src)@ == convolved(old(src)@, sharpen_kernel(), 1),
{
    let matrix: [[i32; 3]; 3] = [[0, -1, 0], [-1, 5, -1], [0, -1, 0]];
    convolve_with(src, matrix, 1, Ghost(sharpen_kernel()))
}

/// The smallest accepted gamma: 0.01.
pub const GAMMA_MIN: i32 = 100;

/// The largest accepted gamma: 9.99.
pub const GAMMA_MAX: i32 = 99_900;

/// The gray of a color: `0.3 R + 0.59 G + 0.11 B`, rounded down, on the three
/// color channels. The alpha channel stays.
pub open spec fn gray_of(c: Color) -> Color {
    let gray = ((30 * c.r + 59 * c.g + 11 * c.b) / 100) as u8;
    Color { r: gray, g: gray, b: gray, a: c.a }
}

/// A channel value times a fixed-point factor, rounded towards zero and
/// brought into the range of a channel.
pub open spec fn scaled(v: u8, factor: int) -> u8 {
    if factor <= 0 {
        0
    } else if (v * factor) / (UNIT as int) > 255 {
        255
    } else {
        ((v * factor) / (UNIT as int)) as u8
    }
}

/// A color with each of its four channels times a factor.
pub open spec fn brightened(c: Color, factor: int) -> Color {
    Color { r: scaled(c.r, factor), g: scaled(c.g, factor), b: scaled(c.b, factor), a: scaled(c.a, factor) }
}

/// A color with each color channel replaced by its entry in a table of 256
/// entries. The alpha channel stays.
pub open spec fn curved(c: Color, curve: Seq<u8>) -> Color {
    Color { r: curve[c.r as int], g: curve[c.g as int], b: curve[c.b as int], a: c.a }
}

/// A saturation, in fixed-point percent, moved by a fixed-point factor: for
/// a factor that is not negative by that part of what is left to 100 %, for
/// a negative factor by that part of the saturation itself. The part is
/// rounded towards zero and the result brought into 0 % to 100 %.
pub open spec fn moved_saturation(s: int, sat: int) -> int {
    let moved = if sat >= 0 {
        s + ((FULL - s) * sat) / (UNIT as int)
    } else {
        s - (s * (-sat)) / (UNIT as int)
    };
    if moved > FULL {
        FULL as int
    } else if moved < 0 {
        0
    } else {
        moved
    }
}

/// A color with its saturation moved: converted to HSV, the saturation
/// moved, and converted back. The alpha channel stays.
pub open spec fn saturated(c: Color, sat: int) -> Color {
    let h = hue(c.r as int, c.g as int, c.b as int);
    let s = moved_saturation(saturation_of(c.r as int, c.g as int, c.b as int), sat);
    let v = value_of(c.r as int, c.g as int, c.b as int);
    Color {
        r: rgb_channel(h, s, v, 0) as u8,
        g: rgb_channel(h, s, v, 1) as u8,
        b: rgb_channel(h, s, v, 2) as u8,
        a: c.a,
    }
}

/// A change that is made to each pixel by itself.
enum Adjustment {
    Gray,
    Brightness(i32),
    Curve([u8; 256]),
    Saturation(i32),
}

impl Adjustment {
    spec fn of(self, c: Color) -> Color {
        match self {
            Adjustment::Gray => gray_of(c),
            Adjustment::Brightness(factor) => brightened(c, factor as int),
            Adjustment::Curve(curve) => curved(c, curve@),
            Adjustment::Saturation(sat) => saturated(c, sat as int),
        }
    }

    fn apply(&self, c: Color) -> (r: Color)
        ensures
            r == self.of(c),
    {
        match self {
            Adjustment::Gray => {
                let gray: u8 = ((30 * (c.r as u32) + 59 * (c.g as u32) + 11 * (c.b as u32)) / 100) as u8;
                Color { r: gray, g: gray, b: gray, a: c.a }
            },
            Adjustment::Brightness(factor) => Color {
                r: scale(c.r, *factor),
                g: scale(c.g, *factor),
                b: scale(c.b, *factor),
                a: scale(c.a, *factor),
            },
            Adjustment::Curve(curve) => Color {
                r: curve[c.r as usize],
                g: curve[c.g as usize],
                b: curve[c.b as usize],
                a: c.a,
            },
            Adjustment::Saturation(sat) => {
                let (h, s, v) = Color::to_hsv(c.r, c.g, c.b);
                let s = move_saturation(s, *sat);
                let (r, g, b) = Color::to_rgb(h, s, v);
                Color { r, g, b, a: c.a }
            },
        }
    }
}

/// Multiply a channel by a factor.
fn scale(v: u8, factor: i32) -> (r: u8)
    ensures
        r == scaled(v, factor as int),
{
    if factor <= 0 {
        0
    } else {
        assert(0 <= v * factor <= 255 * 0x8000_0000) by (nonlinear_arith)
            requires
                0 <= v <= 255,
                0 < factor < 0x8000_0000,
        ;
        let q: i64 = ((v as i64) * (factor as i64)) / (UNIT as i64);
        if q > 255 {
            255
        } else {
            q as u8
        }
    }
}

/// Move a saturation by a factor.
fn move_saturation(s: u32, sat: i32) -> (r: u32)
    requires
        s <= FULL,
    ensures
        r == moved_saturation(s as int, sat as int),
        r <= FULL,
{
    let full: i64 = FULL as i64;
    let s: i64 = s as i64;
    let moved: i64 = if sat >= 0 {
        assert(0 <= (full - s) * sat <= 1_000_000 * 0x8000_0000) by (nonlinear_arith)
            requires
                0 <= full - s <= 1_000_000,
                0 <= sat < 0x8000_0000,
        ;
        s + ((full - s) * (sat as i64)) / (UNIT as i64)
    } else {
        assert(0 <= s * (-sat) <= 1_000_000 * 0x8000_0000) by (nonlinear_arith)
            requires
                0 <= s <= 1_000_000,
                0 < -sat <= 0x8000_0000,
        ;
        s - (s * (-(sat as i64))) / (UNIT as i64)
    };
    if moved > full {
        FULL
    } else if moved < 0 {
        0
    } else {
        moved as u32
    }
}

/// Make the same change to every pixel.
fn adjust(src: &mut Image, adjustment: &Adjustment)
    requires
        old(src).wf(),
    ensures
        final(src).wf(),
        final(src)@ == old(src)@.map(|c: Color| adjustment.of(c)),
{
    let w: i32 = src.width;
    let h: i32 = src.height;
    let ghost target = src@.map(|c: Color| adjustment.of(c));
    let mut bytes: Vec<u8> = Vec::new();
    let mut y: i32 = 0;
    while y < h
        invariant
            0 <= y <= h,
            0 <= w,
            w == src.width,
            h == src.height,
            src.wf(),
            target == src@.map(|c: Color| adjustment.of(c)),
            bytes@.len() == 4 * (y * w),
            pixels_of(bytes@) =~= target.pixels.take(y * w),
        decreases h - y,
    {
        let mut x: i32 = 0;
        while x < w
            invariant
                0 <= y < h,
                0 <= x <= w,
                w == src.width,
                h == src.height,
                src.wf(),
                target == src@.map(|c: Color| adjustment.of(c)),
                bytes@.len() == 4 * (y * w + x),
                pixels_of(bytes@) =~= target.pixels.take(y * w + x),
            decreases w - x,
        {
            proof {
                lemma_index_inside(w as int, h as int, x as int, y as int);
            }
            let color = adjustment.apply(src.color_at(x, y));
            assert(target.pixels[y * w + x] == color);
            push_pixel(&mut bytes, &color);
            x = x + 1;
        }
        proof {
            lemma_next_row(w as int, y as int);
        }
        y = y + 1;
    }
    let dest = Image::assemble(w, h, bytes, Ghost(target));
    src.bytes = dest.bytes;
}

/// Turn into grayscale image.
pub fn grayscale(src: &mut Image) -> (r: RasterResult<()>)
    requires
        old(src).wf(),
    ensures
        r == Ok::<(), RasterError>(()),
        final(src).wf(),
        final(src)@ == old(src)@.map(|c: Color| gray_of(c)),
{
    let adjustment = Adjustment::Gray;
    adjust(src, &adjustment);
    assert(src@.pixels =~= old(src)@.map(|c: Color| gray_of(c)).pixels);
    Ok(())
}

/// Apply brightness: every channel of every pixel, alpha too, is multiplied
/// by the factor, a fixed-point number. A factor below `UNIT` darkens the
/// image and a factor above it lightens it.
pub fn brightness(src: &mut Image, factor: i32) -> (r: RasterResult<()>)
    requires
        old(src).wf(),
    ensures
        r == Ok::<(), RasterError>(()),
        final(src).wf(),
        final(src)@ == old(src)@.map(|c: Color| brightened(c, factor as int)),
{
    let adjustment = Adjustment::Brightness(factor);
    adjust(src, &adjustment);
    assert(src@.pixels =~= old(src)@.map(|c: Color| brightened(c, factor as int)).pixels);
    Ok(())
}

/// Apply a gamma correction.
///
/// `value` is the gamma, a fixed-point number from 0.01 to 9.99. `curve` is the
/// transfer curve of that gamma: its entry `v` holds what the channel value
/// `v` becomes, `255 * (v / 255) ^ (1 / gamma)`. The three color channels of
/// every pixel are sent through the curve.
///
/// Fails with `InvalidGamma` on a gamma outside of that range; the image is
/// then left as it is.
pub fn gamma(src: &mut Image, value: i32, curve: &[u8; 256]) -> (r: RasterResult<()>)
    requires
        old(src).wf(),
    ensures
        final(src).wf(),
        if value < GAMMA_MIN || value > GAMMA_MAX {
            r == Err::<(), RasterError>(RasterError::InvalidGamma(value)) && *final(src) == *old(src)
        } else {
            r == Ok::<(), RasterError>(()) && final(src)@ == old(src)@.map(|c: Color| curved(c, curve@))
        },
{
    if value < GAMMA_MIN || value > GAMMA_MAX {
        return Err(RasterError::InvalidGamma(value));
    }
    let adjustment = Adjustment::Curve(*curve);
    adjust(src, &adjustment);
    assert(src@.pixels =~= old(src)@.map(|c: Color| curved(c, curve@)).pixels);
    Ok(())
}

/// Change saturation. `sat` is a fixed-point number: above zero it raises
/// the saturation, below zero it lowers it; `UNIT / 2` raises it by half of
/// what is left to full saturation.
pub fn saturation(src: &mut Image, sat: i32) -> (r: RasterResult<()>)
    requires
        old(src).wf(),
    ensures
        r == Ok::<(), RasterError>(()),
        final(src).wf(),
        final(src)@ == old(src)@.map(|c: Color| saturated(c, sat as int)),
{
    let adjustment = Adjustment::Saturation(sat);
    adjust(src, &adjustment);
    assert(src@.pixels =~= old(src)@.map(|c: Color| saturated(c, sat as int)).pixels);
    Ok(())
}

/// The square root of a number, rounded down.
pub open spec fn root(n: nat) -> nat
    decreases n,
{
    if n == 0 {
        0
    } else {
        let r = root((n - 1) as nat);
        if (r + 1) * (r + 1) <= n {
            r + 1
        } else {
            r
        }
    }
}

/// The root is the one number whose square is at most `n` while the square
/// of the next number is more.
pub proof fn lemma_root(n: nat)
    ensures
        root(n) * root(n) <= n < (root(n) + 1) * (root(n) + 1),
    decreases n,
{
    if n > 0 {
        lemma_root((n - 1) as nat);
        let r = root((n - 1) as nat);
        let s = root(n);
        if (r + 1) * (r + 1) <= n {
            assert(s == r + 1);
            assert(s * s <= n < (s + 1) * (s + 1)) by (nonlinear_arith)
                requires
                    s == r + 1,
                    (r + 1) * (r + 1) <= n,
                    n - 1 < (r + 1) * (r + 1),
            ;
        } else {
            assert(s == r);
        }
    } else {
        let s = root(n);
        assert(s * s <= n < (s + 1) * (s + 1)) by (nonlinear_arith)
            requires
                s == 0,
                n == 0,
        ;
    }
}

/// There is only one such number.
pub proof fn lemma_root_unique(n: nat, r: nat)
    requires
        r * r <= n < (r + 1) * (r + 1),
    ensures
        r == root(n),
{
    lemma_root(n);
    let s = root(n);
    if r < s {
        assert((r + 1) * (r + 1) <= s * s) by (nonlinear_arith)
            requires
                r + 1 <= s,
        ;
    } else if s < r {
        assert((s + 1) * (s + 1) <= r * r) by (nonlinear_arith)
            requires
                s + 1 <= r,
        ;
    }
}

/// The strength of an edge from the responses of two kernels: the root of
/// the sum of their squares, at most 255.
pub open spec fn edge_value(a: u8, b: u8) -> u8 {
    if root((a * a + b * b) as nat) > 255 {
        255
    } else {
        root((a * a + b * b) as nat) as u8
    }
}

/// The pixel of an edge image: the strength of the edge, taken from the red
/// channels of the two responses, on the three color channels, and the alpha
/// of the first response.
pub open spec fn edge_color(p: Color, q: Color) -> Color {
    Color { r: edge_value(p.r, q.r), g: edge_value(p.r, q.r), b: edge_value(p.r, q.r), a: p.a }
}

/// Two responses combined pixel by pixel.
pub open spec fn magnitudes(a: Raster, b: Raster) -> Raster {
    Raster::build(a.width, a.height, |x: int, y: int| edge_color(a.at(x, y), b.at(x, y)))
}

/// The edges of an image: its grayscale convolved with the Sobel kernel of
/// the orientation, or, for both orientations of a pair, the responses of the
/// two kernels combined.
pub open spec fn edges(src: Raster, mode: Orientation) -> Raster {
    let gray = src.map(|c: Color| gray_of(c));
    match mode {
        Orientation::Horizontal => convolved(gray, sobel_horizontal(), 1),
        Orientation::Vertical => convolved(gray, sobel_vertical(), 1),
        Orientation::DiagonalUp => convolved(gray, sobel_diagonal_up(), 1),
        Orientation::DiagonalDown => convolved(gray, sobel_diagonal_down(), 1),
        Orientation::Both => magnitudes(
            convolved(gray, sobel_horizontal(), 1),
            convolved(gray, sobel_vertical(), 1),
        ),
        Orientation::DiagonalBoth => magnitudes(
            convolved(gray, sobel_diagonal_up(), 1),
            convolved(gray, sobel_diagonal_down(), 1),
        ),
    }
}

/// The strength of an edge.
fn edge(a: u8, b: u8) -> (r: u8)
    ensures
        r == edge_value(a, b),
{
    assert(0 <= a * a + b * b <= 130050) by (nonlinear_arith)
        requires
            0 <= a <= 255,
            0 <= b <= 255,
    ;
    let n: u32 = (a as u32) * (a as u32) + (b as u32) * (b as u32);
    let mut low: u32 = 0;
    let mut high: u32 = 361;
    while high - low > 1
        invariant
            0 <= low < high <= 361,
            low * low <= n < high * high,
            n <= 130050,
        decreases high - low,
    {
        let mid: u32 = (low + high) / 2;
        assert(mid * mid <= 361 * 361) by (nonlinear_arith)
            requires
                0 <= mid <= 361,
        ;
        if mid * mid <= n {
            low = mid;
        } else {
            high = mid;
        }
    }
    proof {
        lemma_root_unique(n as nat, low as nat);
    }
    if low > 255 {
        255
    } else {
        low as u8
    }
}

/// Apply Sobel edge detection: the image is turned into grayscale and then
/// convolved with the kernel, or the two kernels, of the orientation.
pub fn sobel(src: &mut Image, mode: Orientation) -> (r: RasterResult<()>)
    requires
        old(src).wf(),
    ensures
        r == Ok::<(), RasterError>(()),
        final(src).wf(),
        final(src)@ == edges(old(src)@, mode),
{
    let _ = grayscale(src);
    match mode {
        Orientation::Horizontal => {
            let matrix: [[i32; 3]; 3] = [[-1, 0, 1], [-2, 0, 2], [-1, 0, 1]];
            convolve_with(src, matrix, 1, Ghost(sobel_horizontal()))
        },
        Orientation::Vertical => {
            let matrix: [[i32; 3]; 3] = [[-1, -2, -1], [0, 0, 0], [1, 2, 1]];
            convolve_with(src, matrix, 1, Ghost(sobel_vertical()))
        },
        Orientation::DiagonalUp => {
            let matrix: [[i32; 3]; 3] = [[0, -1, -2], [1, 0, -1], [2, 1, 0]];
            convolve_with(src, matrix, 1, Ghost(sobel_diagonal_up()))
        },
        Orientation::DiagonalDown => {
            let matrix: [[i32; 3]; 3] = [[-2, -1, 0], [-1, 0, 1], [0, 1, 2]];
            convolve_with(src, matrix, 1, Ghost(sobel_diagonal_down()))
        },
        Orientation::Both => {
            let one: [[i32; 3]; 3] = [[-1, 0, 1], [-2, 0, 2], [-1, 0, 1]];
            let two: [[i32; 3]; 3] = [[-1, -2, -1], [0, 0, 0], [1, 2, 1]];
            sobel_both(src, one, two, Ghost(sobel_horizontal()), Ghost(sobel_vertical()))
        },
        Orientation::DiagonalBoth => {
            let one: [[i32; 3]; 3] = [[0, -1, -2], [1, 0, -1], [2, 1, 0]];
            let two: [[i32; 3]; 3] = [[-2, -1, 0], [-1, 0, 1], [0, 1, 2]];
            sobel_both(src, one, two, Ghost(sobel_diagonal_up()), Ghost(sobel_diagonal_down()))
        },
    }
}

/// Convolve with two kernels and combine the two responses.
fn sobel_both(
    src: &mut Image,
    matrix_one: [[i32; 3]; 3],
    matrix_two: [[i32; 3]; 3],
    Ghost(one): Ghost<Seq<int>>,
    Ghost(two): Ghost<Seq<int>>,
) -> (r: RasterResult<()>)
    requires
        old(src).wf(),
        one.len() == 9,
        two.len() == 9,
        forall|t: int| 0 <= t < 9 ==> one[t] == #[trigger] matrix_one[t / 3][t % 3],
        forall|t: int| 0 <= t < 9 ==> two[t] == #[trigger] matrix_two[t / 3][t % 3],
    ensures
        r == Ok::<(), RasterError>(()),
        final(src).wf(),
        final(src)@ == magnitudes(convolved(old(src)@, one, 1), convolved(old(src)@, two, 1)),
{
    let mut image_x = src.clone();
    let mut image_y = src.clone();
    let _ = convolve_with(&mut image_x, matrix_one, 1, Ghost(one));
    let _ = convolve_with(&mut image_y, matrix_two, 1, Ghost(two));
    let w: i32 = src.width;
    let h: i32 = src.height;
    let ghost target = magnitudes(image_x@, image_y@);
    proof {
        lemma_build_wf(w as int, h as int, |x: int, y: int| convolved_color(src@, one, 1, x, y));
        lemma_build_wf(w as int, h as int, |x: int, y: int| convolved_color(src@, two, 1, x, y));
        lemma_build_wf(w as int, h as int, |x: int, y: int| edge_color(image_x@.at(x, y), image_y@.at(x, y)));
    }
    let mut bytes: Vec<u8> = Vec::new();
    let mut y: i32 = 0;
    while y < h
        invariant
            0 <= y <= h,
            0 <= w,
            image_x.wf(),
            image_y.wf(),
            image_x.width == w,
            image_x.height == h,
            image_y.width == w,
            image_y.height == h,
            target == magnitudes(image_x@, image_y@),
            bytes@.len() == 4 * (y * w),
            pixels_of(bytes@) =~= target.pixels.take(y * w),
        decreases h - y,
    {
        let mut x: i32 = 0;
        while x < w
            invariant
                0 <= y < h,
                0 <= x <= w,
                image_x.wf(),
                image_y.wf(),
                image_x.width == w,
                image_x.height == h,
                image_y.width == w,
                image_y.height == h,
                target == magnitudes(image_x@, image_y@),
                bytes@.len() == 4 * (y * w + x),
                pixels_of(bytes@) =~= target.pixels.take(y * w + x),
            decreases w - x,
        {
            proof {
                lemma_index_inside(w as int, h as int, x as int, y as int);
                lemma_index_split(w as int, x as int, y as int);
            }
            let p = image_x.color_at(x, y);
            let q = image_y.color_at(x, y);
            let strength = edge(p.r, q.r);
            let color = Color { r: strength, g: strength, b: strength, a: p.a };
            assert(target.pixels[y * w + x] == color);
            push_pixel(&mut bytes, &color);
            x = x + 1;
        }
        proof {
            lemma_next_row(w as int, y as int);
        }
        y = y + 1;
    }
    let dest = Image::assemble(w, h, bytes, Ghost(target));
    src.bytes = dest.bytes;
    Ok(())
}

} // verus!
