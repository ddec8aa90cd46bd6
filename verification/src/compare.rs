//! Comparing images: exact equality of the colors, and likeness by a
//! difference hash.
use crate::color::Color;
use crate::editor::{resize, ResizeMode};
use crate::error::{RasterError, RasterResult};
use crate::grid::{lemma_index_inside, lemma_next_row};
use crate::image::{Image, Raster};
use crate::interpolate::{bilinear_resampled, lemma_resampled_wf};
use vstd::prelude::*;

verus! {

/// Whether two colors have the same red, green and blue. Alpha is not
/// compared.
pub open spec fn same_rgb(a: Color, b: Color) -> bool {
    a.r == b.r && a.g == b.g && a.b == b.b
}

/// Whether two images have the same dimensions and the same red, green and
/// blue at every pixel.
pub open spec fn same_image(a: Raster, b: Raster) -> bool {
    &&& a.width == b.width
    &&& a.height == b.height
    &&& forall|i: int| 0 <= i < a.pixels.len() ==> same_rgb(#[trigger] a.pixels[i], b.pixels[i])
}

/// Compare if two images are equal: of the same width and height, and with
/// the same red, green and blue at every pixel.
pub fn equal(image1: &Image, image2: &Image) -> (r: RasterResult<bool>)
    requires
        image1.wf(),
        image2.wf(),
    ensures
        r == Ok::<bool, RasterError>(same_image(image1@, image2@)),
{
    if image1.width != image2.width || image1.height != image2.height {
        return Ok(false);
    }
    let w: i32 = image1.width;
    let h: i32 = image1.height;
    let mut y: i32 = 0;
    while y < h
        invariant
            0 <= y <= h,
            0 <= w,
            image1.wf(),
            image2.wf(),
            image1.width == w,
            image1.height == h,
            image2.width == w,
            image2.height == h,
            forall|i: int| 0 <= i < y * w ==> same_rgb(#[trigger] image1@.pixels[i], image2@.pixels[i]),
        decreases h - y,
    {
        let mut x: i32 = 0;
        while x < w
            invariant
                0 <= y < h,
                0 <= x <= w,
                image1.wf(),
                image2.wf(),
                image1.width == w,
                image1.height == h,
                image2.width == w,
                image2.height == h,
                forall|i: int| 0 <= i < y * w + x ==> same_rgb(#[trigger] image1@.pixels[i], image2@.pixels[i]),
            decreases w - x,
        {
            proof {
                lemma_index_inside(w as int, h as int, x as int, y as int);
            }
            let pixel1 = image1.color_at(x, y);
            let pixel2 = image2.color_at(x, y);
            if pixel1.r != pixel2.r || pixel1.g != pixel2.g || pixel1.b != pixel2.b {
                assert(!same_rgb(image1@.pixels[y * w + x], image2@.pixels[y * w + x]));
                return Ok(false);
            }
            x = x + 1;
        }
        proof {
            lemma_next_row(w as int, y as int);
        }
        y = y + 1;
    }
    proof {
        vstd::arithmetic::mul::lemma_mul_is_commutative(w as int, h as int);
    }
    Ok(true)
}

/// An image is equal to itself, and so to a copy of itself.
pub proof fn lemma_equal_to_itself(image: Raster)
    ensures
        same_image(image, image),
{
}

/// Images of different dimensions are not equal.
pub proof fn lemma_equal_needs_same_size(a: Raster, b: Raster)
    requires
        a.width != b.width || a.height != b.height,
    ensures
        !same_image(a, b),
{
}

/// The brightness that the hash compares: the mean of red, green and blue,
/// rounded down.
pub open spec fn mean_of(c: Color) -> int {
    (c.r + c.g + c.b) / 3
}

/// One bit of the hash of an image of 9 × 8 pixels: 1 where the pixel is
/// brighter than its right neighbour.
pub open spec fn hash_bit(small: Raster, i: int) -> u8 {
    if mean_of(small.at(i % 8, i / 8)) > mean_of(small.at(i % 8 + 1, i / 8)) {
        1
    } else {
        0
    }
}

/// The difference hash of an image: the image is brought to 9 × 8 pixels by
/// linear interpolation; each of the 8 rows gives 8 bits, one for each pixel
/// but the last.
pub open spec fn hash_of(image: Raster) -> Seq<u8> {
    Seq::new(64, |i: int| hash_bit(bilinear_resampled(image, 9, 8), i))
}

/// The number of places among the first `n` in which two sequences differ.
pub open spec fn distance(a: Seq<u8>, b: Seq<u8>, n: int) -> int
    decreases n,
{
    if n <= 0 {
        0
    } else {
        distance(a, b, n - 1) + if a[n - 1] != b[n - 1] { 1int } else { 0 }
    }
}

/// Whether an image has no pixel, so that no hash can be made of it.
pub open spec fn hash_fails(image: Raster) -> bool {
    image.width == 0 || image.height == 0
}

/// The difference hash of an image: 64 bits, each in a byte of its own.
///
/// Fails with `PixelOutOfBounds(0, 0)` on an image without pixels.
pub fn diff_hash(image: &Image) -> (r: RasterResult<Vec<u8>>)
    requires
        image.wf(),
    ensures
        if hash_fails(image@) {
            r == Err::<Vec<u8>, RasterError>(RasterError::PixelOutOfBounds(0, 0))
        } else {
            r matches Ok(hash) && hash@ == hash_of(image@)
        },
{
    let mut small = image.clone();
    match resize(&mut small, 9, 8, ResizeMode::Exact) {
        Err(e) => {
            return Err(e);
        },
        Ok(()) => {},
    }
    proof {
        lemma_resampled_wf(image@, 9, 8);
    }
    let mut hash: Vec<u8> = Vec::new();
    let mut y: i32 = 0;
    while y < 8
        invariant
            0 <= y <= 8,
            small.wf(),
            small.width == 9,
            small.height == 8,
            small@ == bilinear_resampled(image@, 9, 8),
            hash@.len() == 8 * y,
            forall|i: int| 0 <= i < 8 * y ==> hash@[i] == hash_bit(small@, i),
        decreases 8 - y,
    {
        let pixel = small.color_at(0, y);
        let mut left: u16 = (pixel.r as u16 + pixel.g as u16 + pixel.b as u16) / 3;
        let mut x: i32 = 1;
        while x < 9
            invariant
                0 <= y < 8,
                1 <= x <= 9,
                small.wf(),
                small.width == 9,
                small.height == 8,
                left == mean_of(small@.at(x - 1, y as int)),
                hash@.len() == 8 * y + x - 1,
                forall|i: int| 0 <= i < 8 * y + x - 1 ==> hash@[i] == hash_bit(small@, i),
            decreases 9 - x,
        {
            let pixel = small.color_at(x, y);
            let right: u16 = (pixel.r as u16 + pixel.g as u16 + pixel.b as u16) / 3;
            let bit: u8 = if left > right {
                1
            } else {
                0
            };
            assert(bit == hash_bit(small@, 8 * y + x - 1));
            hash.push(bit);
            left = right;
            x = x + 1;
        }
        y = y + 1;
    }
    assert(hash@ =~= hash_of(image@));
    Ok(hash)
}

/// Compare two images and returns a hamming distance: the number of bits in
/// which their difference hashes differ. A value of 0 indicates a likely
/// similar picture; a value above 10 is likely a different image.
///
/// Fails with `PixelOutOfBounds(0, 0)` where one of the images has no pixel.
pub fn similar(image1: &Image, image2: &Image) -> (r: RasterResult<u8>)
    requires
        image1.wf(),
        image2.wf(),
    ensures
        if hash_fails(image1@) || hash_fails(image2@) {
            r == Err::<u8, RasterError>(RasterError::PixelOutOfBounds(0, 0))
        } else {
            r matches Ok(d) && d == distance(hash_of(image1@), hash_of(image2@), 64)
        },
{
    let bin1 = match diff_hash(image1) {
        Ok(hash) => hash,
        Err(e) => {
            return Err(e);
        },
    };
    let bin2 = match diff_hash(image2) {
        Ok(hash) => hash,
        Err(e) => {
            return Err(e);
        },
    };
    let mut d: u8 = 0;
    let mut index: usize = 0;
    while index < 64
        invariant
            0 <= index <= 64,
            bin1@.len() == 64,
            bin2@.len() == 64,
            d == distance(bin1@, bin2@, index as int),
            d <= index,
        decreases 64 - index,
    {
        if bin1[index] != bin2[index] {
            d = d + 1;
        }
        index = index + 1;
    }
    Ok(d)
}

/// A sequence is at distance zero from itself.
pub proof fn lemma_distance_to_itself(a: Seq<u8>, n: int)
    ensures
        distance(a, a, n) == 0,
    decreases n,
{
    if n > 0 {
        lemma_distance_to_itself(a, n - 1);
    }
}

/// The distance does not depend on the order of the two sequences.
pub proof fn lemma_distance_symmetric(a: Seq<u8>, b: Seq<u8>, n: int)
    ensures
        distance(a, b, n) == distance(b, a, n),
    decreases n,
{
    if n > 0 {
        lemma_distance_symmetric(a, b, n - 1);
    }
}

/// An image is at distance zero from itself, and the distance between two
/// images is the same in both directions.
pub proof fn lemma_similar_laws(image1: Raster, image2: Raster)
    ensures
        distance(hash_of(image1), hash_of(image1), 64) == 0,
        distance(hash_of(image1), hash_of(image2), 64) == distance(hash_of(image2), hash_of(image1), 64),
{
    lemma_distance_to_itself(hash_of(image1), 64);
    lemma_distance_symmetric(hash_of(image1), hash_of(image2), 64);
}

} // verus!
