//! The pixel buffer and its mathematical view.
use crate::color::{channel, Color};
use crate::error::{RasterError, RasterResult};
use crate::grid::{lemma_index_inside, lemma_index_split, lemma_index_unsplit, lemma_mul_i32, lemma_next_row};
use std::collections::HashMap;
use vstd::prelude::*;

verus! {

/// The raster formats that images are stored in.
#[derive(Debug, Clone, Copy, PartialEq, Eq, Structural)]
pub enum ImageFormat {
    Gif,
    Jpeg,
    Png,
}

/// A raster image: `width * height` pixels in row-major order from the top
/// left, four bytes (red, green, blue, alpha) per pixel.
#[derive(Debug)]
pub struct Image {
    /// Width in pixels.
    pub width: i32,
    /// Height in pixels.
    pub height: i32,
    /// The pixels, four bytes each.
    pub bytes: Vec<u8>,
}

/// Holds histogram information: for each of the four channels (red, green,
/// blue, alpha) the number of pixels by channel value. A value that no pixel
/// has is not in the map.
pub type Histogram = (HashMap<u8, u32>, HashMap<u8, u32>, HashMap<u8, u32>, HashMap<u8, u32>);

/// What an image is, mathematically: its dimensions and its pixels in
/// row-major order.
pub ghost struct Raster {
    pub width: int,
    pub height: int,
    pub pixels: Seq<Color>,
}

/// The colors that a byte buffer holds, four bytes per color. Bytes after the
/// last full group of four belong to no color.
pub open spec fn pixels_of(bytes: Seq<u8>) -> Seq<Color> {
    Seq::new(
        (bytes.len() / 4) as nat,
        |i: int| Color { r: bytes[4 * i], g: bytes[4 * i + 1], b: bytes[4 * i + 2], a: bytes[4 * i + 3] },
    )
}

impl Raster {
    /// The dimensions are not negative and there is one color per pixel.
    pub open spec fn wf(self) -> bool {
        &&& 0 <= self.width
        &&& 0 <= self.height
        &&& self.pixels.len() == self.width * self.height
    }

    /// Whether `(x, y)` is a pixel of the image.
    pub open spec fn inside(self, x: int, y: int) -> bool {
        0 <= x < self.width && 0 <= y < self.height
    }

    /// The place of `(x, y)` in the pixel sequence.
    pub open spec fn index(self, x: int, y: int) -> int {
        y * self.width + x
    }

    /// The color of the pixel `(x, y)`.
    pub open spec fn at(self, x: int, y: int) -> Color {
        self.pixels[self.index(x, y)]
    }

    /// The image of the given size whose pixel `(x, y)` is `f(x, y)`.
    pub open spec fn build(width: int, height: int, f: spec_fn(int, int) -> Color) -> Raster {
        Raster {
            width,
            height,
            pixels: Seq::new((width * height) as nat, |i: int| f(i % width, i / width)),
        }
    }

    /// The image with `f` applied to the color of each pixel.
    pub open spec fn map(self, f: spec_fn(Color) -> Color) -> Raster {
        Raster { pixels: Seq::new(self.pixels.len(), |i: int| f(self.pixels[i])), ..self }
    }

    /// The image of the given size whose pixels all have one color.
    pub open spec fn filled(width: int, height: int, color: Color) -> Raster {
        Raster::build(width, height, |x: int, y: int| color)
    }

    /// The byte index that a failed write reports: four times the pixel
    /// index, or `i32::MIN` where that is out of the range of `i32`.
    pub open spec fn start_index(self, x: int, y: int) -> i32 {
        if 4 * self.index(x, y) < i32::MIN {
            i32::MIN
        } else {
            (4 * self.index(x, y)) as i32
        }
    }

    /// Writing `color` to `(x, y)`: refused right of or below the image, and
    /// where the place in the pixel sequence would be negative; otherwise the
    /// image with the color at that place replaced.
    pub open spec fn set(self, x: int, y: int, color: Color) -> RasterResult<Raster> {
        if x >= self.width || y >= self.height {
            Err(RasterError::PixelOutOfBounds(x as i32, y as i32))
        } else if self.index(x, y) < 0 {
            Err(RasterError::InvalidStartIndex(self.start_index(x, y)))
        } else {
            Ok(Raster { pixels: self.pixels.update(self.index(x, y), color), ..self })
        }
    }

    /// Whether `(x, y)` lies outside of the image while its place in the pixel
    /// sequence exists: a position right of a row but the last, or left of a
    /// row but the first, whose place belongs to a pixel of a neighbouring row.
    pub open spec fn aliases(self, x: int, y: int) -> bool {
        !self.inside(x, y) && 0 <= self.index(x, y) < self.pixels.len()
    }

    /// Reading `(x, y)`: the color at its place in the pixel sequence, and an
    /// error where that place is outside of the sequence.
    pub open spec fn get(self, x: int, y: int) -> RasterResult<Color> {
        if 0 <= self.index(x, y) < self.pixels.len() {
            Ok(self.at(x, y))
        } else {
            Err(RasterError::PixelOutOfBounds(x as i32, y as i32))
        }
    }
}

impl View for Image {
    type V = Raster;

    open spec fn view(&self) -> Raster {
        Raster { width: self.width as int, height: self.height as int, pixels: pixels_of(self.bytes@) }
    }
}

impl Image {
    /// The buffer holds exactly `width * height` pixels.
    pub open spec fn wf(&self) -> bool {
        &&& self@.wf()
        &&& self.bytes@.len() == 4 * self@.pixels.len()
    }

    /// Create a blank image: every pixel is opaque black.
    pub fn blank(w: i32, h: i32) -> (image: Image)
        requires
            0 <= w,
            0 <= h,
        ensures
            image.wf(),
            image@ == Raster::filled(w as int, h as int, Color::opaque_black()),
    {
        let mut bytes: Vec<u8> = Vec::new();
        let black = Color::black();
        let mut y: i32 = 0;
        while y < h
            invariant
                0 <= y <= h,
                0 <= w,
                black == Color::opaque_black(),
                bytes@.len() == 4 * (y * w),
                pixels_of(bytes@) =~= Seq::new((y * w) as nat, |i: int| black),
            decreases h - y,
        {
            let mut x: i32 = 0;
            while x < w
                invariant
                    0 <= y < h,
                    0 <= x <= w,
                    black == Color::opaque_black(),
                    bytes@.len() == 4 * (y * w + x),
                    pixels_of(bytes@) =~= Seq::new((y * w + x) as nat, |i: int| black),
                decreases w - x,
            {
                proof {
                    lemma_index_inside(w as int, h as int, x as int, y as int);
                }
                push_pixel(&mut bytes, &black);
                x = x + 1;
            }
            proof {
                lemma_next_row(w as int, y as int);
            }
            y = y + 1;
        }
        proof {
            vstd::arithmetic::mul::lemma_mul_is_commutative(w as int, h as int);
        }
        let image = Image { width: w, height: h, bytes };
        assert(image@.pixels =~= Raster::filled(w as int, h as int, black).pixels);
        image
    }

    /// Check whether `(x, y)` is on the image or on its right or lower
    /// border line: both `x == width` and `y == height` are accepted.
    pub fn check_pixel(&self, x: i32, y: i32) -> (r: bool)
        ensures
            r == (0 <= x <= self.width && 0 <= y <= self.height),
    {
        if y < 0 || y > self.height {
            false
        } else {
            !(x < 0 || x > self.width)
        }
    }

    /// Get the color of the pixel at `(x, y)`.
    ///
    /// The pixel is found by its place `y * width + x` in the buffer, so a
    /// position left or right of the image reads a pixel of a neighbouring
    /// row as long as that place exists.
    pub fn get_pixel(&self, x: i32, y: i32) -> (r: RasterResult<Color>)
        ensures
            r == self@.get(x as int, y as int),
    {
        proof {
            lemma_mul_i32(y as int, self.width as int);
        }
        let index: i64 = (y as i64) * (self.width as i64) + (x as i64);
        let count: usize = self.bytes.len() / 4;
        if index < 0 || index >= count as i64 {
            Err(RasterError::PixelOutOfBounds(x, y))
        } else {
            let start: usize = (index as usize) * 4;
            Ok(
                Color {
                    r: self.bytes[start],
                    g: self.bytes[start + 1],
                    b: self.bytes[start + 2],
                    a: self.bytes[start + 3],
                },
            )
        }
    }
}

impl Clone for Image {
    /// A deep copy: the same dimensions and the same bytes.
    fn clone(&self) -> (copy: Image)
        ensures
            copy.width == self.width,
            copy.height == self.height,
            copy.bytes@ == self.bytes@,
            copy@ == self@,
    {
        Image { width: self.width, height: self.height, bytes: self.bytes.clone() }
    }
}

/// A pixel that was written inside the image reads back as written.
pub proof fn lemma_set_then_get(image: Raster, x: int, y: int, color: Color)
    requires
        image.wf(),
        image.inside(x, y),
    ensures
        image.set(x, y, color) matches Ok(after) && after.wf() && after.get(x, y) == Ok::<Color, RasterError>(
            color,
        ),
{
    lemma_index_inside(image.width, image.height, x, y);
}

/// Writing a pixel inside the image leaves every other pixel as it was.
pub proof fn lemma_set_keeps_others(image: Raster, x: int, y: int, color: Color, other_x: int, other_y: int)
    requires
        image.wf(),
        image.inside(x, y),
        image.inside(other_x, other_y),
        other_x != x || other_y != y,
    ensures
        image.set(x, y, color) matches Ok(after) && after.get(other_x, other_y) == image.get(other_x, other_y),
{
    lemma_index_inside(image.width, image.height, x, y);
    lemma_index_inside(image.width, image.height, other_x, other_y);
    lemma_index_split(image.width, x, y);
    lemma_index_split(image.width, other_x, other_y);
}

/// Writing right of or below the image fails, whatever the other coordinate.
pub proof fn lemma_set_outside(image: Raster, x: i32, y: i32, color: Color)
    requires
        x >= image.width || y >= image.height,
    ensures
        image.set(x as int, y as int, color) == Err::<Raster, RasterError>(RasterError::PixelOutOfBounds(x, y)),
{
}

/// Reading right of or below the image fails, unless the position is taken
/// for a pixel of a neighbouring row.
pub proof fn lemma_get_outside(image: Raster, x: i32, y: i32)
    requires
        image.wf(),
        x >= image.width || y >= image.height,
        !image.aliases(x as int, y as int),
    ensures
        image.get(x as int, y as int) == Err::<Color, RasterError>(RasterError::PixelOutOfBounds(x, y)),
{
}

/// A position below the image is taken for no pixel when it is not left of
/// the image, and a position right of the image is taken for none in the
/// last row and below.
pub proof fn lemma_aliases(image: Raster, x: int, y: int)
    requires
        image.wf(),
        (x >= 0 && y >= image.height) || (x >= image.width && y >= image.height - 1),
    ensures
        !image.aliases(x, y),
{
    let w = image.width;
    let h = image.height;
    assert(y * w + x >= w * h) by (nonlinear_arith)
        requires
            0 <= w,
            0 <= h,
            (x >= 0 && y >= h) || (x >= w && y >= h - 1),
    ;
}

/// Inside the image, `build` puts `f(x, y)` at `(x, y)`.
pub proof fn lemma_build_at(width: int, height: int, f: spec_fn(int, int) -> Color, x: int, y: int)
    requires
        0 <= x < width,
        0 <= y < height,
    ensures
        Raster::build(width, height, f).wf(),
        Raster::build(width, height, f).inside(x, y),
        Raster::build(width, height, f).at(x, y) == f(x, y),
{
    lemma_index_inside(width, height, x, y);
    lemma_index_split(width, x, y);
    assert(width * height >= 0) by (nonlinear_arith)
        requires
            0 <= width,
            0 <= height,
    ;
}

/// An image built by `build` is well-formed.
pub proof fn lemma_build_wf(width: int, height: int, f: spec_fn(int, int) -> Color)
    requires
        0 <= width,
        0 <= height,
    ensures
        Raster::build(width, height, f).wf(),
{
    assert(width * height >= 0) by (nonlinear_arith)
        requires
            0 <= width,
            0 <= height,
    ;
}

/// Two well-formed images of the same size with the same color at every
/// pixel are the same image.
pub proof fn lemma_same_pixels(a: Raster, b: Raster)
    requires
        a.wf(),
        b.wf(),
        a.width == b.width,
        a.height == b.height,
        forall|x: int, y: int| a.inside(x, y) ==> a.at(x, y) == b.at(x, y),
    ensures
        a == b,
{
    assert forall|i: int| 0 <= i < a.pixels.len() implies a.pixels[i] == b.pixels[i] by {
        lemma_index_unsplit(a.width, a.height, i);
        assert(a.inside(i % a.width, i / a.width));
        assert(a.at(i % a.width, i / a.width) == a.pixels[i]);
        assert(b.at(i % a.width, i / a.width) == b.pixels[i]);
    }
    assert(a.pixels =~= b.pixels);
}

impl Image {
    /// The color of a pixel inside the image.
    pub(crate) fn color_at(&self, x: i32, y: i32) -> (c: Color)
        requires
            self.wf(),
            self@.inside(x as int, y as int),
        ensures
            c == self@.at(x as int, y as int),
    {
        proof {
            lemma_mul_i32(y as int, self.width as int);
            lemma_index_inside(self.width as int, self.height as int, x as int, y as int);
        }
        let index: i64 = (y as i64) * (self.width as i64) + (x as i64);
        let len: usize = self.bytes.len();
        let start: usize = (index as usize) * 4;
        Color {
            r: self.bytes[start],
            g: self.bytes[start + 1],
            b: self.bytes[start + 2],
            a: self.bytes[start + 3],
        }
    }

    /// Make an image of a buffer that was filled pixel by pixel.
    pub(crate) fn assemble(width: i32, height: i32, bytes: Vec<u8>, Ghost(target): Ghost<Raster>) -> (image:
        Image)
        requires
            target.wf(),
            target.width == width,
            target.height == height,
            bytes@.len() == 4 * (height * width),
            pixels_of(bytes@) =~= target.pixels.take(height * width),
        ensures
            image.wf(),
            image@ == target,
            image.width == width,
            image.height == height,
    {
        proof {
            vstd::arithmetic::mul::lemma_mul_is_commutative(width as int, height as int);
        }
        let image = Image { width, height, bytes };
        assert(image@.pixels =~= target.pixels);
        image
    }

    /// Set the color of the pixel at `(x, y)`.
    ///
    /// Fails with `PixelOutOfBounds` right of or below the image, and with
    /// `InvalidStartIndex` where the place `y * width + x` in the buffer
    /// would be negative. A failed call changes nothing.
    pub fn set_pixel(&mut self, x: i32, y: i32, color: &Color) -> (r: RasterResult<()>)
        requires
            old(self).wf(),
        ensures
            final(self).wf(),
            match old(self)@.set(x as int, y as int, *color) {
                Ok(raster) => r == Ok::<(), RasterError>(()) && final(self)@ == raster,
                Err(e) => r == Err::<(), RasterError>(e) && *final(self) == *old(self),
            },
    {
        proof {
            lemma_mul_i32(y as int, self.width as int);
        }
        let index: i64 = (y as i64) * (self.width as i64) + (x as i64);
        if x >= self.width || y >= self.height {
            Err(RasterError::PixelOutOfBounds(x, y))
        } else if index < 0 {
            let start: i32 = if index < -0x2000_0000 {
                i32::MIN
            } else {
                (index * 4) as i32
            };
            Err(RasterError::InvalidStartIndex(start))
        } else {
            proof {
                lemma_set_index_fits(self@, x as int, y as int);
            }
            let len: usize = self.bytes.len();
            assert(index * 4 + 3 < len);
            let start: usize = (index as usize) * 4;
            self.bytes.set(start, color.r);
            self.bytes.set(start + 1, color.g);
            self.bytes.set(start + 2, color.b);
            self.bytes.set(start + 3, color.a);
            assert(pixels_of(self.bytes@) =~= old(self)@.pixels.update(index as int, *color));
            Ok(())
        }
    }
}

/// How many of the first `n` colors have the value `v` in the channel `k`.
pub open spec fn occurrences(pixels: Seq<Color>, k: int, v: u8, n: int) -> int
    decreases n,
{
    if n <= 0 {
        0
    } else {
        occurrences(pixels, k, v, n - 1) + if channel(pixels[n - 1], k) == v { 1int } else { 0 }
    }
}

/// Whether a map counts the first `n` colors by their value in the channel
/// `k`: it holds each value that occurs, with the number of its occurrences,
/// and no other value.
pub open spec fn counts(bin: Map<u8, u32>, pixels: Seq<Color>, k: int, n: int) -> bool {
    forall|v: u8|
        {
            &&& bin.contains_key(v) <==> #[trigger] occurrences(pixels, k, v, n) > 0
            &&& bin.contains_key(v) ==> bin[v] == occurrences(pixels, k, v, n)
        }
}

/// No value occurs more often than there are colors.
pub proof fn lemma_occurrences_bound(pixels: Seq<Color>, k: int, v: u8, n: int)
    requires
        0 <= n,
    ensures
        0 <= occurrences(pixels, k, v, n) <= n,
    decreases n,
{
    if n > 0 {
        lemma_occurrences_bound(pixels, k, v, n - 1);
    }
}

/// Count one more color.
fn count_value(bin: &mut HashMap<u8, u32>, value: u8, Ghost(pixels): Ghost<Seq<Color>>, Ghost(k): Ghost<int>, Ghost(n): Ghost<int>)
    requires
        0 <= n < u32::MAX,
        counts(old(bin)@, pixels, k, n),
        channel(pixels[n], k) == value,
    ensures
        counts(final(bin)@, pixels, k, n + 1),
{
    proof {
        lemma_occurrences_bound(pixels, k, value, n);
    }
    let before: u32 = match bin.get(&value) {
        Some(count) => *count,
        None => 0,
    };
    assert(before == occurrences(pixels, k, value, n));
    bin.insert(value, before + 1);
    assert forall|v: u8|
        {
            &&& bin@.contains_key(v) <==> #[trigger] occurrences(pixels, k, v, n + 1) > 0
            &&& bin@.contains_key(v) ==> bin@[v] == occurrences(pixels, k, v, n + 1)
        } by {
        lemma_occurrences_bound(pixels, k, v, n);
        assert(occurrences(pixels, k, v, n) > 0 <==> old(bin)@.contains_key(v));
    }
}

impl Image {
    /// Get the histogram of the image: how often each value occurs in each
    /// of the four channels. The image may have at most `u32::MAX` pixels,
    /// the most that a count can hold.
    pub fn histogram(&self) -> (r: RasterResult<Histogram>)
        requires
            self.wf(),
            self@.pixels.len() <= u32::MAX,
        ensures
            r matches Ok(bins) && counts(bins.0@, self@.pixels, 0, self@.pixels.len() as int) && counts(
                bins.1@,
                self@.pixels,
                1,
                self@.pixels.len() as int,
            ) && counts(bins.2@, self@.pixels, 2, self@.pixels.len() as int) && counts(
                bins.3@,
                self@.pixels,
                3,
                self@.pixels.len() as int,
            ),
    {
        let w: i32 = self.width;
        let h: i32 = self.height;
        let mut r_bin: HashMap<u8, u32> = HashMap::new();
        let mut g_bin: HashMap<u8, u32> = HashMap::new();
        let mut b_bin: HashMap<u8, u32> = HashMap::new();
        let mut a_bin: HashMap<u8, u32> = HashMap::new();
        let ghost pixels = self@.pixels;
        let mut y: i32 = 0;
        while y < h
            invariant
                0 <= y <= h,
                0 <= w,
                w == self.width,
                h == self.height,
                self.wf(),
                pixels == self@.pixels,
                pixels.len() <= u32::MAX,
                counts(r_bin@, pixels, 0, y * w),
                counts(g_bin@, pixels, 1, y * w),
                counts(b_bin@, pixels, 2, y * w),
                counts(a_bin@, pixels, 3, y * w),
            decreases h - y,
        {
            let mut x: i32 = 0;
            while x < w
                invariant
                    0 <= y < h,
                    0 <= x <= w,
                    w == self.width,
                    h == self.height,
                    self.wf(),
                    pixels == self@.pixels,
                    pixels.len() <= u32::MAX,
                    counts(r_bin@, pixels, 0, y * w + x),
                    counts(g_bin@, pixels, 1, y * w + x),
                    counts(b_bin@, pixels, 2, y * w + x),
                    counts(a_bin@, pixels, 3, y * w + x),
                decreases w - x,
            {
                proof {
                    lemma_index_inside(w as int, h as int, x as int, y as int);
                }
                let pixel = self.color_at(x, y);
                count_value(&mut r_bin, pixel.r, Ghost(pixels), Ghost(0), Ghost(y * w + x));
                count_value(&mut g_bin, pixel.g, Ghost(pixels), Ghost(1), Ghost(y * w + x));
                count_value(&mut b_bin, pixel.b, Ghost(pixels), Ghost(2), Ghost(y * w + x));
                count_value(&mut a_bin, pixel.a, Ghost(pixels), Ghost(3), Ghost(y * w + x));
                x = x + 1;
            }
            proof {
                lemma_next_row(w as int, y as int);
            }
            y = y + 1;
        }
        proof {
            vstd::arithmetic::mul::lemma_mul_is_commutative(w as int, h as int);
        }
        Ok((r_bin, g_bin, b_bin, a_bin))
    }
}

/// Where a write is accepted, its place is inside the pixel sequence.
proof fn lemma_set_index_fits(raster: Raster, x: int, y: int)
    requires
        raster.wf(),
        x < raster.width,
        y < raster.height,
        0 <= raster.index(x, y),
    ensures
        raster.index(x, y) < raster.pixels.len(),
{
    let w = raster.width;
    let h = raster.height;
    assert(y * w + x < w * h) by (nonlinear_arith)
        requires
            x < w,
            y < h,
            0 <= w,
            0 <= h,
            0 <= y * w + x,
    ;
}

/// Append one pixel to a buffer of whole pixels.
pub(crate) fn push_pixel(bytes: &mut Vec<u8>, color: &Color)
    requires
        old(bytes)@.len() % 4 == 0,
    ensures
        final(bytes)@.len() == old(bytes)@.len() + 4,
        pixels_of(final(bytes)@) == pixels_of(old(bytes)@).push(*color),
{
    bytes.push(color.r);
    bytes.push(color.g);
    bytes.push(color.b);
    bytes.push(color.a);
    assert(pixels_of(bytes@) =~= pixels_of(old(bytes)@).push(*color));
}

} // verus!
