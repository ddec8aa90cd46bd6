//! Decoding and encoding of images in memory.
//!
//! The bytes of a GIF or a PNG file are decoded and encoded by the crates
//! `gif` and `png`. What they hand over is checked here before it becomes an
//! image: an image holds four bytes per pixel, and nothing else. The samples
//! of a PNG are brought to that layout here: gray goes on the three color
//! channels, a missing alpha is 255, packed samples are unpacked, indices are
//! looked up in the palette, and samples of 16 bits keep their upper byte.
use crate::error::{RasterError, RasterResult};
use crate::image::{pixels_of, Image, ImageFormat, Raster};
use vstd::prelude::*;

verus! {

/// The error of the PNG decoder. Nothing is known of what it holds.
#[verifier::external_type_specification]
#[verifier::external_body]
pub struct ExPngDecodingError(png::DecodingError);

/// The error of the PNG encoder. Nothing is known of what it holds.
#[verifier::external_type_specification]
#[verifier::external_body]
pub struct ExPngEncodingError(png::EncodingError);

/// The error of the GIF decoder. Nothing is known of what it holds.
#[verifier::external_type_specification]
#[verifier::external_body]
pub struct ExGifDecodingError(gif::DecodingError);

/// The error of the GIF encoder. Nothing is known of what it holds.
#[verifier::external_type_specification]
#[verifier::external_body]
pub struct ExGifEncodingError(gif::EncodingError);

/// Why a decoder or an encoder failed.
#[derive(Debug)]
pub enum Failure {
    /// Reading or writing failed.
    Io(std::io::Error),
    /// The data is not what the format asks for. Holds the message.
    Format(String),
    /// The decoder or encoder was not used as it has to be.
    Parameter,
    /// A limit of the decoder or encoder was exceeded.
    Limits,
}

/// What the PNG decoder hands over: the dimensions of the image, the PNG
/// codes of the color type and the bit depth of the samples, and the samples
/// row by row, as they stand in the file: a sample of 16 bits has its upper
/// byte first.
pub struct PngFrame {
    pub width: u32,
    pub height: u32,
    /// 0 for grayscale, 2 for RGB, 3 for indexed, 4 for grayscale with alpha,
    /// 6 for RGBA.
    pub color_type: u8,
    /// The bits of a sample: 1, 2, 4, 8 or 16.
    pub bit_depth: u8,
    pub bytes: Vec<u8>,
    /// The palette of the file, if it has one: three bytes for each color.
    pub palette: Option<Vec<u8>>,
    /// The transparency that the file gives: for a palette, an alpha for each
    /// of its first colors. For gray and RGB it is one color that counts as
    /// transparent; that is not applied, and every such pixel is opaque.
    pub transparency: Option<Vec<u8>>,
}

/// What a byte buffer that may be missing holds.
pub open spec fn held(bytes: Option<Vec<u8>>) -> Option<Seq<u8>> {
    match bytes {
        Some(b) => Some(b@),
        None => None,
    }
}

/// What the GIF decoder says of the first frame of a file: the dimensions
/// of the image, and those of the frame.
pub struct GifHeader {
    pub width: u16,
    pub height: u16,
    pub frame_width: u16,
    pub frame_height: u16,
}

/// The PNG color type of one gray sample per pixel.
pub const PNG_GRAY: u8 = 0;

/// The PNG color type of a gray sample and an alpha sample per pixel.
pub const PNG_GRAY_ALPHA: u8 = 4;

/// The PNG color type of one index into a palette per pixel.
pub const PNG_INDEXED: u8 = 3;

/// The PNG color type of three samples per pixel.
pub const PNG_RGB: u8 = 2;

/// The PNG color type of four samples per pixel.
pub const PNG_RGBA: u8 = 6;

/// What the `png` crate decodes from the bytes of a file, if it decodes
/// them: width, height, color type, bit depth, samples, palette and
/// transparency.
pub uninterp spec fn png_decoded(data: Seq<u8>) -> Option<
    (u32, u32, u8, u8, Seq<u8>, Option<Seq<u8>>, Option<Seq<u8>>),
>;

/// The bytes of the PNG file that the `png` crate encodes from RGBA samples
/// of 8 bits, if it encodes them.
pub uninterp spec fn png_encoded(width: u32, height: u32, bytes: Seq<u8>) -> Option<Seq<u8>>;

/// What the `gif` crate finds at the start of the bytes of a file, if it can
/// read them: the header of the first frame, or that there is no frame.
pub uninterp spec fn gif_header(data: Seq<u8>) -> Option<Option<(u16, u16, u16, u16)>>;

/// The RGBA samples of the first frame that the `gif` crate decodes from the
/// bytes of a file into a buffer of `size` bytes, if it decodes them.
pub uninterp spec fn gif_frame(data: Seq<u8>, size: usize) -> Option<Seq<u8>>;

/// The bytes of the GIF file that the `gif` crate encodes from RGBA samples,
/// if it encodes them.
pub uninterp spec fn gif_encoded(width: u16, height: u16, bytes: Seq<u8>) -> Option<Seq<u8>>;

/// Calls `png::Decoder::new`, `read_info`, `Reader::output_buffer_size`,
/// `next_frame` and `info` on the bytes of a file, and copies what the
/// fields of the `Info` hold. The contract claims only that what comes back
/// depends on the bytes alone; it gives that a name.
#[verifier::external_body]
fn png_read(data: &[u8]) -> (r: Result<PngFrame, png::DecodingError>)
    ensures
        png_decoded(data@) == (match r {
            Ok(frame) => Some(
                (
                    frame.width,
                    frame.height,
                    frame.color_type,
                    frame.bit_depth,
                    frame.bytes@,
                    held(frame.palette),
                    held(frame.transparency),
                ),
            ),
            Err(_) => None,
        }),
{
    let mut reader = png::Decoder::new(data).read_info()?;
    let mut bytes = vec![0; reader.output_buffer_size()];
    reader.next_frame(&mut bytes)?;
    let info = reader.info();
    let (color_type, bit_depth) = (info.color_type as u8, info.bit_depth as u8);
    let palette = info.palette.as_ref().map(|p| p.to_vec());
    let transparency = info.trns.as_ref().map(|t| t.to_vec());
    Ok(PngFrame { width: info.width, height: info.height, color_type, bit_depth, bytes, palette, transparency })
}

/// Tells the variants of `png::DecodingError` apart. Nothing is claimed of
/// the result.
#[verifier::external_body]
fn png_decode_failure(error: png::DecodingError) -> Failure {
    match error {
        png::DecodingError::IoError(e) => Failure::Io(e),
        png::DecodingError::Format(e) => Failure::Format(e.to_string()),
        png::DecodingError::Parameter(_) => Failure::Parameter,
        png::DecodingError::LimitsExceeded => Failure::Limits,
    }
}

/// Calls `png::Encoder::new`, `set_color`, `set_depth`, `write_header` and
/// `Writer::write_image_data` to encode RGBA samples of 8 bits into memory.
/// `write_image_data` multiplies the length of a row by the height without
/// a check; with four bytes for each pixel the product is the length of the
/// buffer. The contract claims only that what comes back depends on the
/// arguments alone; it gives that a name.
#[verifier::external_body]
fn png_write(width: u32, height: u32, bytes: &[u8]) -> (r: Result<Vec<u8>, png::EncodingError>)
    requires
        bytes@.len() == 4 * width * height,
    ensures
        png_encoded(width, height, bytes@) == (match r {
            Ok(data) => Some(data@),
            Err(_) => None,
        }),
{
    let mut data = Vec::new();
    let mut encoder = png::Encoder::new(&mut data, width, height);
    encoder.set_color(png::ColorType::Rgba);
    encoder.set_depth(png::BitDepth::Eight);
    let mut writer = encoder.write_header()?;
    writer.write_image_data(bytes)?;
    drop(writer);
    Ok(data)
}

/// Tells the variants of `png::EncodingError` apart. Nothing is claimed of
/// the result.
#[verifier::external_body]
fn png_encode_failure(error: png::EncodingError) -> Failure {
    match error {
        png::EncodingError::IoError(e) => Failure::Io(e),
        png::EncodingError::Format(e) => Failure::Format(e.to_string()),
        png::EncodingError::Parameter(_) => Failure::Parameter,
        png::EncodingError::LimitsExceeded => Failure::Limits,
    }
}

/// Calls `gif::DecodeOptions::new`, `set_color_output`, `read_info`,
/// `Decoder::width`, `height` and `next_frame_info` on the bytes of a file.
/// The contract claims only that what comes back depends on the bytes alone;
/// it gives that a name.
#[verifier::external_body]
fn gif_read_header(data: &[u8]) -> (r: Result<Option<GifHeader>, gif::DecodingError>)
    ensures
        gif_header(data@) == (match r {
            Ok(Some(h)) => Some(Some((h.width, h.height, h.frame_width, h.frame_height))),
            Ok(None) => Some(None),
            Err(_) => None,
        }),
{
    let mut options = gif::DecodeOptions::new();
    options.set_color_output(gif::ColorOutput::RGBA);
    let mut reader = options.read_info(data)?;
    let (width, height) = (reader.width(), reader.height());
    let frame = reader.next_frame_info()?;
    Ok(frame.map(|f| GifHeader { width, height, frame_width: f.width, frame_height: f.height }))
}

/// Calls `gif::DecodeOptions::new`, `set_color_output`, `read_info`,
/// `Decoder::next_frame_info` and `read_into_buffer` on the bytes of a file,
/// with a buffer of `size` bytes. The contract claims that what comes back
/// depends on the arguments alone, and gives that a name; and that the
/// buffer comes back at its size.
#[verifier::external_body]
fn gif_read_frame(data: &[u8], size: usize) -> (r: Result<Vec<u8>, gif::DecodingError>)
    ensures
        gif_frame(data@, size) == (match r {
            Ok(bytes) => Some(bytes@),
            Err(_) => None,
        }),
        r matches Ok(bytes) ==> bytes@.len() == size,
{
    let mut options = gif::DecodeOptions::new();
    options.set_color_output(gif::ColorOutput::RGBA);
    let mut reader = options.read_info(data)?;
    reader.next_frame_info()?;
    let mut bytes = vec![0; size];
    reader.read_into_buffer(&mut bytes)?;
    Ok(bytes)
}

/// Tells the variants of `gif::DecodingError` apart. Nothing is claimed of
/// the result.
#[verifier::external_body]
fn gif_decode_failure(error: gif::DecodingError) -> Failure {
    match error {
        gif::DecodingError::Format(e) => Failure::Format(e.to_string()),
        gif::DecodingError::Io(e) => Failure::Io(e),
    }
}

/// Calls `gif::Frame::from_rgba`, `gif::Encoder::new` and `write_frame` to
/// encode RGBA samples into memory. `from_rgba` panics unless there are four
/// bytes for each pixel. The contract claims only that what comes back
/// depends on the arguments alone; it gives that a name.
#[verifier::external_body]
fn gif_write(width: u16, height: u16, bytes: &[u8]) -> (r: Result<Vec<u8>, gif::EncodingError>)
    requires
        bytes@.len() == 4 * width * height,
    ensures
        gif_encoded(width, height, bytes@) == (match r {
            Ok(data) => Some(data@),
            Err(_) => None,
        }),
{
    let mut pixels = bytes.to_vec();
    let frame = gif::Frame::from_rgba(width, height, &mut pixels);
    let mut data = Vec::new();
    let mut encoder = gif::Encoder::new(&mut data, frame.width, frame.height, &[])?;
    encoder.write_frame(&frame)?;
    drop(encoder);
    Ok(data)
}

/// The message of a `gif::EncodingError`, by its `to_string`. Nothing is
/// claimed of the result.
#[verifier::external_body]
fn gif_encode_message(error: gif::EncodingError) -> String {
    error.to_string()
}

/// The image that RGBA bytes of the given dimensions make, if they make one:
/// the dimensions have to be those of an image, and there have to be four
/// bytes for each pixel.
pub open spec fn framed(width: u32, height: u32, bytes: Seq<u8>) -> Option<Raster> {
    if width <= i32::MAX && height <= i32::MAX && bytes.len() == 4 * width * height {
        Some(Raster { width: width as int, height: height as int, pixels: pixels_of(bytes) })
    } else {
        None
    }
}

/// RGB bytes with an alpha of 255 put after every three of them. Bytes after
/// the last three are left out.
pub open spec fn widened(rgb: Seq<u8>) -> Seq<u8> {
    Seq::new(
        ((rgb.len() / 3) * 4) as nat,
        |i: int|
            if i % 4 == 3 {
                255u8
            } else {
                rgb[(i / 4) * 3 + i % 4]
            },
    )
}

/// Widened bytes hold the colors of the RGB bytes, each fully opaque.
pub proof fn lemma_widened_pixels(rgb: Seq<u8>, i: int)
    requires
        0 <= i < rgb.len() / 3,
    ensures
        widened(rgb).len() == 4 * (rgb.len() / 3),
        pixels_of(widened(rgb)).len() == rgb.len() / 3,
        pixels_of(widened(rgb))[i] == (crate::color::Color {
            r: rgb[3 * i],
            g: rgb[3 * i + 1],
            b: rgb[3 * i + 2],
            a: 255,
        }),
{
}

/// Gray bytes as RGBA bytes: each gray on the three color channels, with an
/// alpha of 255.
pub open spec fn gray_widened(gray: Seq<u8>) -> Seq<u8> {
    Seq::new(
        (gray.len() * 4) as nat,
        |i: int|
            if i % 4 == 3 {
                255u8
            } else {
                gray[i / 4]
            },
    )
}

/// Pairs of a gray and an alpha byte as RGBA bytes: each gray on the three
/// color channels, with its alpha. A byte after the last pair is left out.
pub open spec fn gray_alpha_widened(pairs: Seq<u8>) -> Seq<u8> {
    Seq::new(
        ((pairs.len() / 2) * 4) as nat,
        |i: int|
            if i % 4 == 3 {
                pairs[(i / 4) * 2 + 1]
            } else {
                pairs[(i / 4) * 2]
            },
    )
}

/// How many samples a pixel has in a PNG color type: one for gray, two for
/// gray with alpha, three for RGB and four for RGBA. A pixel of the color type
/// with a palette has no samples of its own.
pub open spec fn png_samples(color_type: u8) -> Option<int> {
    if color_type == PNG_GRAY {
        Some(1)
    } else if color_type == PNG_GRAY_ALPHA {
        Some(2)
    } else if color_type == PNG_RGB {
        Some(3)
    } else if color_type == PNG_RGBA {
        Some(4)
    } else {
        None
    }
}

/// Samples of 16 bits brought to 8 bits: the upper byte of each. A byte
/// after the last pair is left out.
pub open spec fn stripped(bytes: Seq<u8>) -> Seq<u8> {
    Seq::new((bytes.len() / 2) as nat, |i: int| bytes[2 * i])
}

/// Samples of 8 bits in a PNG color type as RGBA bytes: gray goes on the
/// three color channels, and a missing alpha is 255.
pub open spec fn png_widened(color_type: u8, bytes: Seq<u8>) -> Seq<u8> {
    if color_type == PNG_GRAY {
        gray_widened(bytes)
    } else if color_type == PNG_GRAY_ALPHA {
        gray_alpha_widened(bytes)
    } else if color_type == PNG_RGB {
        widened(bytes)
    } else {
        bytes
    }
}

/// Two to the power of `k`, for the powers that a byte has.
pub open spec fn two_to(k: int) -> int {
    if k <= 0 {
        1
    } else if k == 1 {
        2
    } else if k == 2 {
        4
    } else if k == 3 {
        8
    } else if k == 4 {
        16
    } else if k == 5 {
        32
    } else if k == 6 {
        64
    } else if k == 7 {
        128
    } else {
        256
    }
}

/// Whether samples of `depth` bits are packed, several to a byte or one.
pub open spec fn packs(depth: u8) -> bool {
    depth == 1 || depth == 2 || depth == 4 || depth == 8
}

/// The bytes of a row of `w` packed samples: a row starts on a new byte.
pub open spec fn row_bytes(w: int, depth: int) -> int {
    (w * depth + 7) / 8
}

/// The sample `x` of the row `y` of packed samples: the first sample of a
/// byte is in its upper bits.
pub open spec fn packed_sample(bytes: Seq<u8>, w: int, depth: int, x: int, y: int) -> int {
    let byte = bytes[y * row_bytes(w, depth) + (x * depth) / 8] as int;
    (byte / two_to(8 - depth - (x * depth) % 8)) % two_to(depth)
}

/// Packed samples one to a byte, row by row.
pub open spec fn unpacked(bytes: Seq<u8>, w: int, h: int, depth: int) -> Seq<u8> {
    Seq::new((w * h) as nat, |i: int| packed_sample(bytes, w, depth, i % w, i / w) as u8)
}

/// Gray samples of `depth` bits on the scale of 8 bits: the largest sample
/// becomes 255.
pub open spec fn gray_scaled(samples: Seq<u8>, depth: int) -> Seq<u8> {
    Seq::new(samples.len(), |i: int| (samples[i] * (255int / (two_to(depth) - 1))) as u8)
}

/// One channel of the color that an index stands for in a palette. An index
/// beyond the palette stands for black. The alpha is that which the
/// transparency gives to the index, and 255 where it gives none; a
/// transparency of more entries than the palette has colors counts for
/// nothing.
pub open spec fn palette_channel(palette: Seq<u8>, transparency: Seq<u8>, index: int, k: int) -> u8 {
    if k < 3 {
        if 3 * index + 3 <= palette.len() {
            palette[3 * index + k]
        } else {
            0
        }
    } else if transparency.len() <= palette.len() / 3 && index < transparency.len() {
        transparency[index]
    } else {
        255
    }
}

/// Indices into a palette as RGBA bytes.
pub open spec fn palette_colors(indices: Seq<u8>, palette: Seq<u8>, transparency: Seq<u8>) -> Seq<u8> {
    Seq::new(
        (4 * indices.len()) as nat,
        |i: int| palette_channel(palette, transparency, indices[i / 4] as int, i % 4),
    )
}

/// What a buffer that may be missing holds, and nothing where it is missing.
pub open spec fn or_empty(bytes: Option<Seq<u8>>) -> Seq<u8> {
    match bytes {
        Some(b) => b,
        None => Seq::empty(),
    }
}

/// The image that a decoded PNG makes, if it makes one. Its samples have to
/// be as many as the dimensions ask for. They are brought to RGBA of 8 bits:
///
/// - gray, gray with alpha, RGB or RGBA of 8 bits is widened, and of 16 bits
///   brought to 8 bits first;
/// - gray of 1, 2 or 4 bits is unpacked and brought to the scale of 8 bits;
/// - indices of 1, 2, 4 or 8 bits are unpacked and looked up in the palette,
///   which has to be there.
pub open spec fn png_framed(
    width: u32,
    height: u32,
    color_type: u8,
    bit_depth: u8,
    bytes: Seq<u8>,
    palette: Option<Seq<u8>>,
    transparency: Option<Seq<u8>>,
) -> Option<Raster> {
    let count = width * height;
    if width > i32::MAX || height > i32::MAX {
        None
    } else if color_type == PNG_INDEXED {
        if packs(bit_depth) && palette is Some && bytes.len() == row_bytes(width as int, bit_depth as int)
            * height {
            framed(
                width,
                height,
                palette_colors(
                    unpacked(bytes, width as int, height as int, bit_depth as int),
                    or_empty(palette),
                    or_empty(transparency),
                ),
            )
        } else {
            None
        }
    } else if color_type == PNG_GRAY && packs(bit_depth) && bit_depth < 8 {
        if bytes.len() == row_bytes(width as int, bit_depth as int) * height {
            framed(
                width,
                height,
                gray_widened(
                    gray_scaled(unpacked(bytes, width as int, height as int, bit_depth as int), bit_depth as int),
                ),
            )
        } else {
            None
        }
    } else {
        match png_samples(color_type) {
            Some(n) => if bit_depth == 8 && bytes.len() == n * count {
                framed(width, height, png_widened(color_type, bytes))
            } else if bit_depth == 16 && bytes.len() == 2 * (n * count) {
                framed(width, height, png_widened(color_type, stripped(bytes)))
            } else {
                None
            },
            None => None,
        }
    }
}

/// Make an image of RGBA bytes.
///
/// Fails with `Decode`, which then holds the format and `Layout`, unless the
/// dimensions are those of an image and there are four bytes for each pixel.
pub fn rgba_image(format: ImageFormat, width: u32, height: u32, bytes: Vec<u8>) -> (r: RasterResult<Image>)
    ensures
        match framed(width, height, bytes@) {
            Some(raster) => r matches Ok(image) && image.wf() && image@ == raster && image.bytes@ == bytes@,
            None => r matches Err(RasterError::Decode(f, message)) && f == format && message@ == "Layout"@,
        },
{
    if width > i32::MAX as u32 || height > i32::MAX as u32 {
        return Err(RasterError::Decode(format, "Layout".to_owned()));
    }
    assert(0 <= width * height <= 0x7fff_ffff * 0x7fff_ffff) by (nonlinear_arith)
        requires
            0 <= width <= 0x7fff_ffff,
            0 <= height <= 0x7fff_ffff,
    ;
    assert(4 * width * height == 4 * (width * height)) by (nonlinear_arith);
    let count: u64 = (width as u64) * (height as u64);
    if bytes.len() as u64 != 4 * count {
        return Err(RasterError::Decode(format, "Layout".to_owned()));
    }
    Ok(Image { width: width as i32, height: height as i32, bytes })
}

/// Put an alpha of 255 after every three bytes.
pub fn widen_rgb(rgb: &Vec<u8>) -> (rgba: Vec<u8>)
    ensures
        rgba@ == widened(rgb@),
{
    let count: usize = rgb.len() / 3;
    let mut rgba: Vec<u8> = Vec::new();
    let mut i: usize = 0;
    while i < count
        invariant
            0 <= i <= count,
            count == rgb@.len() / 3,
            rgb@.len() <= usize::MAX,
            rgba@.len() == 4 * i,
            rgba@ =~= widened(rgb@).take(4 * i),
        decreases count - i,
    {
        rgba.push(rgb[3 * i]);
        rgba.push(rgb[3 * i + 1]);
        rgba.push(rgb[3 * i + 2]);
        rgba.push(255);
        i = i + 1;
    }
    rgba
}

/// Put each gray byte on three color channels, with an alpha of 255.
pub fn widen_gray(gray: &Vec<u8>) -> (rgba: Vec<u8>)
    ensures
        rgba@ == gray_widened(gray@),
{
    let count: usize = gray.len();
    let mut rgba: Vec<u8> = Vec::new();
    let mut i: usize = 0;
    while i < count
        invariant
            0 <= i <= count,
            count == gray@.len(),
            rgba@.len() == 4 * i,
            rgba@ =~= gray_widened(gray@).take(4 * i),
        decreases count - i,
    {
        rgba.push(gray[i]);
        rgba.push(gray[i]);
        rgba.push(gray[i]);
        rgba.push(255);
        i = i + 1;
    }
    rgba
}

/// Put the gray byte of each pair on three color channels, with the alpha
/// byte of the pair.
pub fn widen_gray_alpha(pairs: &Vec<u8>) -> (rgba: Vec<u8>)
    ensures
        rgba@ == gray_alpha_widened(pairs@),
{
    let count: usize = pairs.len() / 2;
    let mut rgba: Vec<u8> = Vec::new();
    let mut i: usize = 0;
    while i < count
        invariant
            0 <= i <= count,
            count == pairs@.len() / 2,
            pairs@.len() <= usize::MAX,
            rgba@.len() == 4 * i,
            rgba@ =~= gray_alpha_widened(pairs@).take(4 * i),
        decreases count - i,
    {
        rgba.push(pairs[2 * i]);
        rgba.push(pairs[2 * i]);
        rgba.push(pairs[2 * i]);
        rgba.push(pairs[2 * i + 1]);
        i = i + 1;
    }
    rgba
}

/// Two to the power of `k`.
fn power_of_two(k: u8) -> (p: u16)
    requires
        k <= 8,
    ensures
        p == two_to(k as int),
        1 <= p <= 256,
{
    if k == 0 {
        1
    } else if k == 1 {
        2
    } else if k == 2 {
        4
    } else if k == 3 {
        8
    } else if k == 4 {
        16
    } else if k == 5 {
        32
    } else if k == 6 {
        64
    } else if k == 7 {
        128
    } else {
        256
    }
}

/// Where the sample `x` of a row of packed samples lies: its byte is in the
/// row, and the row is in the buffer.
proof fn lemma_packed_place(w: int, h: int, depth: int, x: int, y: int)
    requires
        0 <= x < w,
        0 <= y < h,
        depth == 1 || depth == 2 || depth == 4 || depth == 8,
    ensures
        0 <= (x * depth) / 8 < row_bytes(w, depth),
        0 <= y * row_bytes(w, depth) + (x * depth) / 8 < row_bytes(w, depth) * h,
        0 <= (x * depth) % 8 <= 8 - depth,
{
    let row = row_bytes(w, depth);
    assert(0 <= x * depth <= w * depth - depth) by (nonlinear_arith)
        requires
            0 <= x < w,
            1 <= depth,
    ;
    assert(0 <= y * row + row <= row * h) by (nonlinear_arith)
        requires
            0 <= y < h,
            0 <= row,
    ;
}

/// Put packed samples one to a byte.
pub fn unpack_samples(bytes: &Vec<u8>, w: u32, h: u32, depth: u8) -> (samples: Vec<u8>)
    requires
        w <= i32::MAX,
        h <= i32::MAX,
        packs(depth),
        bytes@.len() == row_bytes(w as int, depth as int) * h,
    ensures
        samples@ == unpacked(bytes@, w as int, h as int, depth as int),
        samples@.len() == w * h,
{
    let row: u64 = (w as u64 * depth as u64 + 7) / 8;
    let modulus: u16 = power_of_two(depth);
    let mut samples: Vec<u8> = Vec::new();
    let ghost target = unpacked(bytes@, w as int, h as int, depth as int);
    proof {
        crate::grid::lemma_mul_nonneg(w as int, h as int, w as int, h as int);
    }
    let mut y: u32 = 0;
    while y < h
        invariant
            0 <= y <= h,
            w <= i32::MAX,
            h <= i32::MAX,
            packs(depth),
            row == row_bytes(w as int, depth as int),
            modulus == two_to(depth as int),
            bytes@.len() == row_bytes(w as int, depth as int) * h,
            target == unpacked(bytes@, w as int, h as int, depth as int),
            target.len() == w * h,
            samples@.len() == y * w,
            samples@ =~= target.take(y * w),
        decreases h - y,
    {
        let mut x: u32 = 0;
        while x < w
            invariant
                0 <= y < h,
                0 <= x <= w,
                w <= i32::MAX,
                h <= i32::MAX,
                packs(depth),
                row == row_bytes(w as int, depth as int),
                modulus == two_to(depth as int),
                bytes@.len() == row_bytes(w as int, depth as int) * h,
                target == unpacked(bytes@, w as int, h as int, depth as int),
                target.len() == w * h,
                samples@.len() == y * w + x,
                samples@ =~= target.take(y * w + x),
            decreases w - x,
        {
            proof {
                lemma_packed_place(w as int, h as int, depth as int, x as int, y as int);
                crate::grid::lemma_index_inside(w as int, h as int, x as int, y as int);
                crate::grid::lemma_index_split(w as int, x as int, y as int);
                assert(0 <= y * row <= 0x7fff_ffff * 0x1_0000_0000) by (nonlinear_arith)
                    requires
                        0 <= y <= 0x7fff_ffff,
                        0 <= row <= 0x1_0000_0000,
                ;
            }
            let bit: u64 = x as u64 * depth as u64;
            let len: usize = bytes.len();
            let byte: u8 = bytes[(y as u64 * row + bit / 8) as usize];
            let divisor: u16 = power_of_two(8 - depth - (bit % 8) as u8);
            let sample: u8 = ((byte as u16 / divisor) % modulus) as u8;
            assert(sample == target[y * w + x]);
            samples.push(sample);
            x = x + 1;
        }
        proof {
            crate::grid::lemma_next_row(w as int, y as int);
        }
        y = y + 1;
    }
    proof {
        vstd::arithmetic::mul::lemma_mul_is_commutative(w as int, h as int);
    }
    samples
}

/// Bring gray samples of 1, 2 or 4 bits to the scale of 8 bits.
pub fn scale_gray(samples: &Vec<u8>, depth: u8) -> (gray: Vec<u8>)
    requires
        depth == 1 || depth == 2 || depth == 4,
    ensures
        gray@ == gray_scaled(samples@, depth as int),
{
    let factor: u16 = 255 / (power_of_two(depth) - 1);
    let mut gray: Vec<u8> = Vec::new();
    let mut i: usize = 0;
    while i < samples.len()
        invariant
            0 <= i <= samples@.len(),
            depth == 1 || depth == 2 || depth == 4,
            factor == 255int / (two_to(depth as int) - 1),
            gray@.len() == i,
            gray@ =~= gray_scaled(samples@, depth as int).take(i as int),
        decreases samples@.len() - i,
    {
        assert(0 <= samples[i as int] * factor <= 255 * 255) by (nonlinear_arith)
            requires
                0 <= samples[i as int] <= 255,
                0 <= factor <= 255,
        ;
        let value: u8 = #[verifier::truncate]
        ((samples[i] as u16 * factor) as u8);
        gray.push(value);
        i = i + 1;
    }
    gray
}

/// Look indices up in a palette.
pub fn palette_rgba(indices: &Vec<u8>, palette: &Vec<u8>, transparency: &Vec<u8>) -> (rgba: Vec<u8>)
    ensures
        rgba@ == palette_colors(indices@, palette@, transparency@),
{
    let mut rgba: Vec<u8> = Vec::new();
    let counts: bool = transparency.len() <= palette.len() / 3;
    let mut i: usize = 0;
    while i < indices.len()
        invariant
            0 <= i <= indices@.len(),
            counts == (transparency@.len() <= palette@.len() / 3),
            palette@.len() <= usize::MAX,
            rgba@.len() == 4 * i,
            rgba@ =~= palette_colors(indices@, palette@, transparency@).take(4 * i),
        decreases indices@.len() - i,
    {
        let index: usize = indices[i] as usize;
        let known: bool = 3 * index + 3 <= palette.len();
        rgba.push(if known { palette[3 * index] } else { 0 });
        rgba.push(if known { palette[3 * index + 1] } else { 0 });
        rgba.push(if known { palette[3 * index + 2] } else { 0 });
        rgba.push(if counts && index < transparency.len() { transparency[index] } else { 255 });
        i = i + 1;
    }
    rgba
}

/// Bring samples of 16 bits to 8 bits: keep the upper byte of each.
pub fn strip_16(bytes: &Vec<u8>) -> (upper: Vec<u8>)
    ensures
        upper@ == stripped(bytes@),
{
    let count: usize = bytes.len() / 2;
    let mut upper: Vec<u8> = Vec::new();
    let mut i: usize = 0;
    while i < count
        invariant
            0 <= i <= count,
            count == bytes@.len() / 2,
            bytes@.len() <= usize::MAX,
            upper@.len() == i,
            upper@ =~= stripped(bytes@).take(i as int),
        decreases count - i,
    {
        upper.push(bytes[2 * i]);
        i = i + 1;
    }
    upper
}

/// The error of every PNG that makes no image.
fn no_image() -> (r: RasterResult<Image>)
    ensures
        r matches Err(RasterError::Decode(ImageFormat::Png, message)) && message@ == "Format"@,
{
    Err(RasterError::Decode(ImageFormat::Png, "Format".to_owned()))
}

/// Make an image of what the PNG decoder hands over: bring its samples to
/// RGBA of 8 bits.
///
/// Fails with `Decode`, which then holds `Png` and `Format`, on samples that
/// are not as many as the dimensions ask for, on a combination of color type
/// and bit depth that PNG does not have, and on indices without a palette.
pub fn png_image(frame: PngFrame) -> (r: RasterResult<Image>)
    ensures
        match png_framed(
            frame.width,
            frame.height,
            frame.color_type,
            frame.bit_depth,
            frame.bytes@,
            held(frame.palette),
            held(frame.transparency),
        ) {
            Some(raster) => r matches Ok(image) && image.wf() && image@ == raster,
            None => r matches Err(RasterError::Decode(ImageFormat::Png, message)) && message@ == "Format"@,
        },
{
    let (w, h, depth) = (frame.width, frame.height, frame.bit_depth);
    if w > i32::MAX as u32 || h > i32::MAX as u32 {
        return no_image();
    }
    assert(0 <= w * h <= 0x7fff_ffff * 0x7fff_ffff) by (nonlinear_arith)
        requires
            0 <= w <= 0x7fff_ffff,
            0 <= h <= 0x7fff_ffff,
    ;
    assert(4 * w * h == 4 * (w * h)) by (nonlinear_arith);
    let count: u64 = (w as u64) * (h as u64);
    let packed: bool = depth == 1 || depth == 2 || depth == 4 || depth == 8;
    if frame.color_type == PNG_INDEXED || (frame.color_type == PNG_GRAY && packed && depth < 8) {
        if !packed {
            return no_image();
        }
        assert(0 <= w * depth <= 0x7fff_ffff * 8) by (nonlinear_arith)
            requires
                0 <= w <= 0x7fff_ffff,
                0 <= depth <= 8,
        ;
        let row: u64 = (w as u64 * depth as u64 + 7) / 8;
        assert(0 <= row * h <= 0x1_0000_0000 * 0x7fff_ffff) by (nonlinear_arith)
            requires
                0 <= row <= 0x1_0000_0000,
                0 <= h <= 0x7fff_ffff,
        ;
        if frame.bytes.len() as u64 != row * (h as u64) {
            return no_image();
        }
        let bytes = if frame.color_type == PNG_INDEXED {
            let palette = match frame.palette {
                Some(palette) => palette,
                None => {
                    return no_image();
                },
            };
            let transparency = match frame.transparency {
                Some(transparency) => transparency,
                None => Vec::new(),
            };
            let indices = unpack_samples(&frame.bytes, w, h, depth);
            palette_rgba(&indices, &palette, &transparency)
        } else {
            let samples = unpack_samples(&frame.bytes, w, h, depth);
            widen_gray(&scale_gray(&samples, depth))
        };
        return match rgba_image(ImageFormat::Png, w, h, bytes) {
            Ok(image) => Ok(image),
            Err(_) => no_image(),
        };
    }
    let samples: u64 = if frame.color_type == PNG_GRAY {
        1
    } else if frame.color_type == PNG_GRAY_ALPHA {
        2
    } else if frame.color_type == PNG_RGB {
        3
    } else if frame.color_type == PNG_RGBA {
        4
    } else {
        return no_image();
    };
    if depth != 8 && depth != 16 {
        return no_image();
    }
    assert(0 <= samples * count <= 4 * (0x7fff_ffff * 0x7fff_ffff)) by (nonlinear_arith)
        requires
            1 <= samples <= 4,
            0 <= count <= 0x7fff_ffff * 0x7fff_ffff,
    ;
    let needed: u128 = if depth == 16 {
        2 * ((samples * count) as u128)
    } else {
        (samples * count) as u128
    };
    if frame.bytes.len() as u128 != needed {
        return no_image();
    }
    let narrow = if depth == 16 {
        strip_16(&frame.bytes)
    } else {
        frame.bytes
    };
    let bytes = if frame.color_type == PNG_GRAY {
        widen_gray(&narrow)
    } else if frame.color_type == PNG_GRAY_ALPHA {
        widen_gray_alpha(&narrow)
    } else if frame.color_type == PNG_RGB {
        widen_rgb(&narrow)
    } else {
        narrow
    };
    match rgba_image(ImageFormat::Png, w, h, bytes) {
        Ok(image) => Ok(image),
        Err(_) => no_image(),
    }
}

/// Whether `error` is what a failed decoding or encoding of a PNG is
/// reported with: an error of reading or writing is handed through, a format
/// error becomes `Decode` or `Encode` with the message `Format`, and the two
/// other failures are unexpected.
pub open spec fn reports_png(failure: Failure, decoding: bool, error: RasterError) -> bool {
    match failure {
        Failure::Io(e) => error == RasterError::Io(e),
        Failure::Format(_) => if decoding {
            error matches RasterError::Decode(ImageFormat::Png, message) && message@ == "Format"@
        } else {
            error matches RasterError::Encode(ImageFormat::Png, message) && message@ == "Format"@
        },
        Failure::Parameter => error == RasterError::Unexpected,
        Failure::Limits => error == RasterError::Unexpected,
    }
}

/// Whether `error` is what a failed decoding of a GIF is reported with: an
/// error of reading is handed through, a format error becomes `Decode` with
/// the message of the decoder, and the two other failures are unexpected.
pub open spec fn reports_gif(failure: Failure, error: RasterError) -> bool {
    match failure {
        Failure::Io(e) => error == RasterError::Io(e),
        Failure::Format(text) => error matches RasterError::Decode(ImageFormat::Gif, message) && message@
            == text@,
        Failure::Parameter => error == RasterError::Unexpected,
        Failure::Limits => error == RasterError::Unexpected,
    }
}

/// The error that a failed decoding or encoding of a PNG is reported with.
pub fn png_error(failure: Failure, decoding: bool) -> (error: RasterError)
    ensures
        reports_png(failure, decoding, error),
{
    match failure {
        Failure::Io(e) => RasterError::Io(e),
        Failure::Format(_) => if decoding {
            RasterError::Decode(ImageFormat::Png, "Format".to_owned())
        } else {
            RasterError::Encode(ImageFormat::Png, "Format".to_owned())
        },
        Failure::Parameter => RasterError::Unexpected,
        Failure::Limits => RasterError::Unexpected,
    }
}

/// The error that a failed decoding of a GIF is reported with.
pub fn gif_error(failure: Failure) -> (error: RasterError)
    ensures
        reports_gif(failure, error),
{
    match failure {
        Failure::Io(e) => RasterError::Io(e),
        Failure::Format(text) => RasterError::Decode(ImageFormat::Gif, text),
        Failure::Parameter => RasterError::Unexpected,
        Failure::Limits => RasterError::Unexpected,
    }
}

/// Decode the bytes of a PNG file.
///
/// Where the decoder decodes the bytes, the result is that of `png_image` on
/// what it hands over. Where it does not, the call fails with the error that
/// `png_error` makes of the failure of the decoder.
pub fn decode_png(data: &[u8]) -> (r: RasterResult<Image>)
    ensures
        match png_decoded(data@) {
            Some(frame) => match png_framed(frame.0, frame.1, frame.2, frame.3, frame.4, frame.5, frame.6) {
                Some(raster) => r matches Ok(image) && image.wf() && image@ == raster,
                None => r matches Err(RasterError::Decode(ImageFormat::Png, message)) && message@
                    == "Format"@,
            },
            None => r matches Err(error) && exists|failure: Failure| reports_png(failure, true, error),
        },
{
    match png_read(data) {
        Ok(frame) => png_image(frame),
        Err(e) => {
            let failure = png_decode_failure(e);
            let error = png_error(failure, true);
            assert(reports_png(failure, true, error));
            Err(error)
        },
    }
}

/// Encode an image as the bytes of a PNG file, with four samples of 8 bits
/// per pixel.
///
/// Where the encoder encodes the image, the result is what it hands over.
/// Where it does not, as for an image without pixels, the call fails with the
/// error that `png_error` makes of the failure of the encoder.
pub fn encode_png(image: &Image) -> (r: RasterResult<Vec<u8>>)
    requires
        image.wf(),
    ensures
        match png_encoded(image.width as u32, image.height as u32, image.bytes@) {
            Some(data) => r matches Ok(bytes) && bytes@ == data,
            None => r matches Err(error) && exists|failure: Failure| reports_png(failure, false, error),
        },
{
    assert(4 * image.width * image.height == 4 * (image.width * image.height)) by (nonlinear_arith);
    match png_write(image.width as u32, image.height as u32, image.bytes.as_slice()) {
        Ok(data) => Ok(data),
        Err(e) => {
            let failure = png_encode_failure(e);
            let error = png_error(failure, false);
            assert(reports_png(failure, false, error));
            Err(error)
        },
    }
}

/// The number of bytes of the RGBA samples of a frame.
pub open spec fn frame_size(header: (u16, u16, u16, u16)) -> int {
    4 * header.2 * header.3
}

/// Make an image of the first frame of a GIF: the RGBA samples of the frame
/// with the dimensions of the image.
///
/// Fails with `Decode`, which then holds `Gif` and `Layout`, where the frame
/// does not hold four bytes for each pixel of the image.
pub fn gif_image(header: GifHeader, bytes: Vec<u8>) -> (r: RasterResult<Image>)
    ensures
        match framed(header.width as u32, header.height as u32, bytes@) {
            Some(raster) => r matches Ok(image) && image.wf() && image@ == raster && image.bytes@ == bytes@,
            None => r matches Err(RasterError::Decode(ImageFormat::Gif, message)) && message@ == "Layout"@,
        },
{
    rgba_image(ImageFormat::Gif, header.width as u32, header.height as u32, bytes)
}

/// Decode the first frame of the bytes of a GIF file.
///
/// Fails with `Decode`, which then holds `Gif` and the message
/// `Error getting frame info`, where the file has no frame, and with the
/// message `Layout` where the frame is too large for the memory of the
/// machine. Where the decoder
/// decodes the frame, the result is that of `gif_image` on what it hands
/// over. Where it does not, the call fails with the error that `gif_error`
/// makes of the failure of the decoder.
pub fn decode_gif(data: &[u8]) -> (r: RasterResult<Image>)
    ensures
        match gif_header(data@) {
            Some(Some(header)) => if frame_size(header) > usize::MAX {
                r matches Err(RasterError::Decode(ImageFormat::Gif, message)) && message@ == "Layout"@
            } else {
                match gif_frame(data@, frame_size(header) as usize) {
                    Some(bytes) => match framed(header.0 as u32, header.1 as u32, bytes) {
                        Some(raster) => r matches Ok(image) && image.wf() && image@ == raster,
                        None => r matches Err(RasterError::Decode(ImageFormat::Gif, message)) && message@
                            == "Layout"@,
                    },
                    None => r matches Err(error) && exists|failure: Failure| reports_gif(failure, error),
                }
            },
            Some(None) => r matches Err(RasterError::Decode(ImageFormat::Gif, message)) && message@
                == "Error getting frame info"@,
            None => r matches Err(error) && exists|failure: Failure| reports_gif(failure, error),
        },
{
    let header = match gif_read_header(data) {
        Ok(Some(header)) => header,
        Ok(None) => {
            return Err(RasterError::Decode(ImageFormat::Gif, "Error getting frame info".to_owned()));
        },
        Err(e) => {
            let failure = gif_decode_failure(e);
            let error = gif_error(failure);
            assert(reports_gif(failure, error));
            return Err(error);
        },
    };
    assert(0 <= header.frame_width * header.frame_height <= 0xffff * 0xffff) by (nonlinear_arith)
        requires
            0 <= header.frame_width <= 0xffff,
            0 <= header.frame_height <= 0xffff,
    ;
    assert(4 * header.frame_width * header.frame_height == 4 * (header.frame_width * header.frame_height))
        by (nonlinear_arith);
    let size: u64 = 4 * ((header.frame_width as u64) * (header.frame_height as u64));
    if size > usize::MAX as u64 {
        return Err(RasterError::Decode(ImageFormat::Gif, "Layout".to_owned()));
    }
    match gif_read_frame(data, size as usize) {
        Ok(bytes) => gif_image(header, bytes),
        Err(e) => {
            let failure = gif_decode_failure(e);
            let error = gif_error(failure);
            assert(reports_gif(failure, error));
            Err(error)
        },
    }
}

/// Encode an image as the bytes of a GIF file with one frame.
///
/// Fails with `Encode`, which then holds `Gif`: with the message
/// `Dimensions` where the width or the height is above 65535, the most that
/// a GIF can hold, and with the message of the encoder where the encoder
/// fails. Where the encoder encodes the image, the result is what it hands
/// over.
pub fn encode_gif(image: &Image) -> (r: RasterResult<Vec<u8>>)
    requires
        image.wf(),
    ensures
        if image.width > u16::MAX || image.height > u16::MAX {
            r matches Err(RasterError::Encode(ImageFormat::Gif, message)) && message@ == "Dimensions"@
        } else {
            match gif_encoded(image.width as u16, image.height as u16, image.bytes@) {
                Some(data) => r matches Ok(bytes) && bytes@ == data,
                None => r matches Err(RasterError::Encode(ImageFormat::Gif, _)),
            }
        },
{
    if image.width > u16::MAX as i32 || image.height > u16::MAX as i32 {
        return Err(RasterError::Encode(ImageFormat::Gif, "Dimensions".to_owned()));
    }
    assert(4 * image.width * image.height == 4 * (image.width * image.height)) by (nonlinear_arith);
    match gif_write(image.width as u16, image.height as u16, image.bytes.as_slice()) {
        Ok(data) => Ok(data),
        Err(e) => Err(RasterError::Encode(ImageFormat::Gif, gif_encode_message(e))),
    }
}

/// Why a decoder or an encoder of another format failed, in the terms of
/// the `image` crate: what a caller of that crate makes of its error.
#[derive(Debug)]
pub enum ImageFailure {
    /// The decoder or encoder was not used as it has to be.
    Parameter,
    /// Reading or writing failed.
    Io(std::io::Error),
    /// The image is larger than the limits that were set: the width and the
    /// height that are allowed, where both are set.
    LimitUnsupported(Option<u32>, Option<u32>),
    /// Another limit was exceeded.
    Limit,
    /// Decoding failed. Holds the format, where it is one of this crate, and
    /// the message.
    Decoding(Option<ImageFormat>, String),
    /// Encoding failed. Holds the format, where it is one of this crate, and
    /// the message.
    Encoding(Option<ImageFormat>, String),
    /// The format, or a feature of it, is not supported.
    Unsupported,
}

/// Whether `error` is what a failure of the `image` crate is reported with:
/// an error of reading or writing is handed through; a failed decoding or
/// encoding of a format of this crate becomes `Decode` or `Encode` with the
/// message; an image beyond a limit on both dimensions is out of bounds at
/// these dimensions; every other failure is unexpected.
pub open spec fn reports_image(failure: ImageFailure, error: RasterError) -> bool {
    match failure {
        ImageFailure::Io(e) => error == RasterError::Io(e),
        ImageFailure::LimitUnsupported(Some(w), Some(h)) => error == RasterError::PixelOutOfBounds(
            w as i32,
            h as i32,
        ),
        ImageFailure::Decoding(Some(format), text) => error matches RasterError::Decode(f, message) && f
            == format && message@ == text@,
        ImageFailure::Encoding(Some(format), text) => error matches RasterError::Encode(f, message) && f
            == format && message@ == text@,
        _ => error == RasterError::Unexpected,
    }
}

/// The error that a failure of the `image` crate is reported with.
pub fn image_error(failure: ImageFailure) -> (error: RasterError)
    ensures
        reports_image(failure, error),
{
    match failure {
        ImageFailure::Parameter => RasterError::Unexpected,
        ImageFailure::Io(e) => RasterError::Io(e),
        ImageFailure::LimitUnsupported(width, height) => match (width, height) {
            (Some(w), Some(h)) => RasterError::PixelOutOfBounds(
                #[verifier::truncate]
                (w as i32),
                #[verifier::truncate]
                (h as i32),
            ),
            _ => RasterError::Unexpected,
        },
        ImageFailure::Limit => RasterError::Unexpected,
        ImageFailure::Decoding(format, text) => match format {
            Some(format) => RasterError::Decode(format, text),
            None => RasterError::Unexpected,
        },
        ImageFailure::Encoding(format, text) => match format {
            Some(format) => RasterError::Encode(format, text),
            None => RasterError::Unexpected,
        },
        ImageFailure::Unsupported => RasterError::Unexpected,
    }
}

/// A character in lower case, if it is an upper case letter of ASCII, and
/// the character itself if it is not.
pub open spec fn lowered(c: char) -> char {
    if 'A' <= c && c <= 'Z' {
        ((c as u8) + 32) as char
    } else {
        c
    }
}

/// `str::to_ascii_lowercase` of std: a copy of the text in which each upper
/// case letter of ASCII is replaced by its lower case letter, and nothing
/// else is changed.
pub assume_specification[ str::to_ascii_lowercase ](text: &str) -> (lower: String)
    ensures
        lower@.len() == text@.len(),
        forall|i: int| 0 <= i < text@.len() ==> lower@[i] == lowered(#[trigger] text@[i]),
;

impl ImageFormat {
    /// The format that a file extension in lower case stands for.
    pub open spec fn of_extension(extension: Seq<char>) -> Option<ImageFormat> {
        if extension == "gif"@ {
            Some(ImageFormat::Gif)
        } else if extension == "jpg"@ || extension == "jpeg"@ {
            Some(ImageFormat::Jpeg)
        } else if extension == "png"@ {
            Some(ImageFormat::Png)
        } else {
            None
        }
    }

    /// The format of a file by the extension of its name, whatever the case
    /// of the letters: `gif`, `jpg` or `jpeg`, or `png`.
    ///
    /// Fails with `UnsupportedFormat`, which then holds the extension in lower
    /// case, on any other extension.
    pub fn from_extension(extension: &str) -> (r: RasterResult<ImageFormat>)
        ensures
            match ImageFormat::of_extension(extension@.map_values(|c: char| lowered(c))) {
                Some(format) => r == Ok::<ImageFormat, RasterError>(format),
                None => r matches Err(RasterError::UnsupportedFormat(text)) && text@ == extension@.map_values(
                    |c: char| lowered(c),
                ),
            },
    {
        let lower = extension.to_ascii_lowercase();
        assert(lower@ =~= extension@.map_values(|c: char| lowered(c)));
        if lower == "gif".to_owned() {
            Ok(ImageFormat::Gif)
        } else if lower == "jpg".to_owned() || lower == "jpeg".to_owned() {
            Ok(ImageFormat::Jpeg)
        } else if lower == "png".to_owned() {
            Ok(ImageFormat::Png)
        } else {
            Err(RasterError::UnsupportedFormat(lower))
        }
    }
}

} // verus!
