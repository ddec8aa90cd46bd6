//! Colors with four 8-bit channels, their hex notation, and the conversion
//! between RGB and HSV.
//!
//! In HSV the hue is a whole number of degrees; saturation and value are
//! percentages in fixed-point units, so that `FULL` stands for 100 %.
use crate::error::{RasterError, RasterResult};
use vstd::prelude::*;
use vstd::string::StringSliceAdditionalSpecFns;

verus! {

/// A color: red, green, blue and alpha, each from 0 to 255.
#[derive(Debug, Clone, Copy, PartialEq, Eq, Structural)]
pub struct Color {
    pub r: u8,
    pub g: u8,
    pub b: u8,
    pub a: u8,
}

/// One of the four channels of a color: 0 is red, 1 green, 2 blue, 3 alpha.
pub open spec fn channel(color: Color, k: int) -> int {
    if k == 0 {
        color.r as int
    } else if k == 1 {
        color.g as int
    } else if k == 2 {
        color.b as int
    } else {
        color.a as int
    }
}

/// 100 % in the fixed-point units of saturation and value.
pub const FULL: u32 = 1_000_000;

/// The value of a hex digit, upper or lower case.
pub open spec fn hex_digit(byte: u8) -> Option<int> {
    if 0x30 <= byte <= 0x39 {
        Some(byte - 0x30)
    } else if 0x41 <= byte <= 0x46 {
        Some(byte - 0x41 + 10)
    } else if 0x61 <= byte <= 0x66 {
        Some(byte - 0x61 + 10)
    } else {
        None
    }
}

/// The value of two hex digits.
pub open spec fn hex_pair(high: u8, low: u8) -> Option<u8> {
    match (hex_digit(high), hex_digit(low)) {
        (Some(h), Some(l)) => Some((16 * h + l) as u8),
        _ => None,
    }
}

/// The color that a hex notation stands for: `#RRGGBB`, which is opaque, or
/// `#RRGGBBAA`. Anything of another length, or without the `#`, is not a
/// hex notation; one with something else than hex digits does not parse.
pub open spec fn parsed_hex(text: Seq<u8>) -> RasterResult<Color> {
    if !((text.len() == 9 || text.len() == 7) && text[0] == 0x23) {
        Err(RasterError::InvalidHex)
    } else {
        let alpha = if text.len() == 9 {
            hex_pair(text[7], text[8])
        } else {
            Some(255u8)
        };
        match (hex_pair(text[1], text[2]), hex_pair(text[3], text[4]), hex_pair(text[5], text[6]), alpha) {
            (Some(r), Some(g), Some(b), Some(a)) => Ok(Color { r, g, b, a }),
            _ => Err(RasterError::HexParse),
        }
    }
}

/// The largest of three numbers.
pub open spec fn max3(r: int, g: int, b: int) -> int {
    let m = if g > r { g } else { r };
    if b > m { b } else { m }
}

/// The smallest of three numbers.
pub open spec fn min3(r: int, g: int, b: int) -> int {
    let m = if g < r { g } else { r };
    if b < m { b } else { m }
}

/// The hue of a color as a numerator over its chroma `max - min`, in
/// degrees: by which channel is the largest, `60 * (g - b) / chroma` (plus
/// 360 where negative), `60 * ((b - r) / chroma + 2)` or
/// `60 * ((r - g) / chroma + 4)`.
pub open spec fn hue_numerator(r: int, g: int, b: int) -> int {
    let max = max3(r, g, b);
    let chroma = max - min3(r, g, b);
    if max == r {
        if g >= b {
            60 * (g - b)
        } else {
            60 * (g - b) + 360 * chroma
        }
    } else if max == g {
        60 * (b - r) + 120 * chroma
    } else {
        60 * (r - g) + 240 * chroma
    }
}

/// The hue of a color in whole degrees, from 0 to 359: zero for a gray;
/// otherwise the hue rounded to the nearest degree, where a hue above 359
/// counts as its distance from 360.
pub open spec fn hue(r: int, g: int, b: int) -> int {
    let chroma = max3(r, g, b) - min3(r, g, b);
    let n = hue_numerator(r, g, b);
    if chroma == 0 {
        0
    } else if n > 359 * chroma {
        (2 * (360 * chroma - n) + chroma) / (2 * chroma)
    } else {
        (2 * n + chroma) / (2 * chroma)
    }
}

/// The saturation of a color in fixed-point percent: `chroma / max`, and
/// zero for black, rounded to the nearest unit.
pub open spec fn saturation_of(r: int, g: int, b: int) -> int {
    let max = max3(r, g, b);
    let chroma = max - min3(r, g, b);
    if max == 0 {
        0
    } else {
        (2 * FULL * chroma + max) / (2 * max)
    }
}

/// The value (brightness) of a color in fixed-point percent: `max / 255`,
/// rounded to the nearest unit.
pub open spec fn value_of(r: int, g: int, b: int) -> int {
    (2 * FULL * max3(r, g, b) + 255) / 510
}

/// The share of the chroma that the middle channel of a hue gets, in 60ths:
/// `60 * (1 - |(h / 60) mod 2 - 1|)`.
pub open spec fn hue_share(h: int) -> int {
    let m = h % 120;
    if m >= 60 {
        120 - m
    } else {
        m
    }
}

/// What a channel gets of the chroma, in 60ths: all of it (60), the share of
/// the middle channel, or nothing, by the sextant of the hue. `k` is 0 for
/// red, 1 for green, 2 for blue. A hue of 360 or more gives nothing to any
/// channel.
pub open spec fn chroma_share(h: int, k: int) -> int {
    let x = hue_share(h);
    if h < 60 {
        if k == 0 { 60 } else if k == 1 { x } else { 0 }
    } else if h < 120 {
        if k == 0 { x } else if k == 1 { 60 } else { 0 }
    } else if h < 180 {
        if k == 0 { 0 } else if k == 1 { 60 } else { x }
    } else if h < 240 {
        if k == 0 { 0 } else if k == 1 { x } else { 60 }
    } else if h < 300 {
        if k == 0 { x } else if k == 1 { 0 } else { 60 }
    } else if h < 360 {
        if k == 0 { 60 } else if k == 1 { 0 } else { x }
    } else {
        0
    }
}

/// A channel of the RGB color of a saturation and a value, for the share of
/// the chroma that the channel gets: with `chroma = v * s` and
/// `m = v - chroma` (both as fractions of one), `255 * (share * chroma + m)`
/// rounded to the nearest whole number and brought into the range of a
/// channel.
pub open spec fn channel_value(s: int, v: int, share: int) -> int {
    let n = 255 * (v * s * share + 60 * (v * (FULL - s)));
    let d = 60 * (FULL * FULL);
    if n <= 0 {
        0
    } else if (2 * n + d) / (2 * d) > 255 {
        255
    } else {
        (2 * n + d) / (2 * d)
    }
}

/// A channel of the RGB color of a hue, a saturation and a value. `k` is 0
/// for red, 1 for green, 2 for blue.
pub open spec fn rgb_channel(h: int, s: int, v: int, k: int) -> int {
    channel_value(s, v, chroma_share(h, k))
}

impl Color {
    /// The color of a blank image: black, fully opaque.
    pub open spec fn opaque_black() -> Color {
        Color { r: 0, g: 0, b: 0, a: 255 }
    }

    /// Returns a black Color.
    pub fn black() -> (c: Color)
        ensures
            c == Color::opaque_black(),
    {
        Color { r: 0, g: 0, b: 0, a: 255 }
    }

    /// Returns a blue Color.
    pub fn blue() -> (c: Color)
        ensures
            c == (Color { r: 0, g: 0, b: 255, a: 255 }),
    {
        Color { r: 0, g: 0, b: 255, a: 255 }
    }

    /// Returns a green Color.
    pub fn green() -> (c: Color)
        ensures
            c == (Color { r: 0, g: 255, b: 0, a: 255 }),
    {
        Color { r: 0, g: 255, b: 0, a: 255 }
    }

    /// Returns a red Color.
    pub fn red() -> (c: Color)
        ensures
            c == (Color { r: 255, g: 0, b: 0, a: 255 }),
    {
        Color { r: 255, g: 0, b: 0, a: 255 }
    }

    /// Returns a white Color.
    pub fn white() -> (c: Color)
        ensures
            c == (Color { r: 255, g: 255, b: 255, a: 255 }),
    {
        Color { r: 255, g: 255, b: 255, a: 255 }
    }

    /// Create a RGB color. Alpha defaults to opaque (255).
    pub fn rgb(r: u8, g: u8, b: u8) -> (c: Color)
        ensures
            c == (Color { r, g, b, a: 255 }),
    {
        Color { r, g, b, a: 255 }
    }

    /// Create a RGBA color.
    pub fn rgba(r: u8, g: u8, b: u8, a: u8) -> (c: Color)
        ensures
            c == (Color { r, g, b, a }),
    {
        Color { r, g, b, a }
    }

    /// Create a color from hexadecimal value.
    ///
    /// Example of valid formats: #FFFFFF, #ffeecc, #00ff007f
    ///
    /// Fails with `InvalidHex` where the text does not begin with `#` or has
    /// not 7 or 9 bytes, and with `HexParse` where one of the bytes after the
    /// `#` is no hex digit.
    pub fn hex(hex: &str) -> (r: RasterResult<Color>)
        ensures
            r == parsed_hex(hex.spec_bytes()),
    {
        let text = hex.as_bytes();
        let len: usize = text.len();
        if !((len == 9 || len == 7) && text[0] == 0x23) {
            return Err(RasterError::InvalidHex);
        }
        let alpha: Option<u8> = if len == 9 {
            pair(text[7], text[8])
        } else {
            Some(255)
        };
        match (pair(text[1], text[2]), pair(text[3], text[4]), pair(text[5], text[6]), alpha) {
            (Some(r), Some(g), Some(b), Some(a)) => Ok(Color { r, g, b, a }),
            _ => Err(RasterError::HexParse),
        }
    }

    /// Convert RGB to HSV/HSB (Hue, Saturation, Brightness): the hue in whole
    /// degrees, saturation and brightness in fixed-point percent.
    pub fn to_hsv(r: u8, g: u8, b: u8) -> (hsv: (u16, u32, u32))
        ensures
            hsv.0 == hue(r as int, g as int, b as int),
            hsv.1 == saturation_of(r as int, g as int, b as int),
            hsv.2 == value_of(r as int, g as int, b as int),
            hsv.0 <= 359,
            hsv.1 <= FULL,
            hsv.2 <= FULL,
    {
        let max: u8 = largest(r, g, b);
        let min: u8 = smallest(r, g, b);
        let chroma: i64 = (max - min) as i64;
        let (ri, gi, bi): (i64, i64, i64) = (r as i64, g as i64, b as i64);
        let h: i64 = if chroma == 0 {
            0
        } else {
            let n: i64 = if max == r {
                if g >= b {
                    60 * (gi - bi)
                } else {
                    60 * (gi - bi) + 360 * chroma
                }
            } else if max == g {
                60 * (bi - ri) + 120 * chroma
            } else {
                60 * (ri - gi) + 240 * chroma
            };
            let n: i64 = if n > 359 * chroma {
                360 * chroma - n
            } else {
                n
            };
            proof {
                lemma_rounds_below(n as int, chroma as int, 359);
            }
            (2 * n + chroma) / (2 * chroma)
        };
        assert(FULL == 1_000_000);
        let s: i64 = if max == 0 {
            0
        } else {
            proof {
                lemma_rounds_below(1_000_000 * chroma, max as int, 1_000_000);
            }
            (2_000_000 * chroma + max as i64) / (2 * (max as i64))
        };
        let v: i64 = (2_000_000 * (max as i64) + 255) / 510;
        (h as u16, s as u32, v as u32)
    }

    /// Convert HSV/HSB (Hue, Saturation, Brightness) to RGB. A channel that
    /// comes out below 0 or above 255, as it can with a saturation or a
    /// brightness above 100 %, is set to the nearest of the two.
    pub fn to_rgb(h: u16, s: u32, v: u32) -> (rgb: (u8, u8, u8))
        ensures
            rgb.0 == rgb_channel(h as int, s as int, v as int, 0),
            rgb.1 == rgb_channel(h as int, s as int, v as int, 1),
            rgb.2 == rgb_channel(h as int, s as int, v as int, 2),
    {
        let m: u16 = h % 120;
        let x: u8 = if m >= 60 {
            (120 - m) as u8
        } else {
            m as u8
        };
        let (share_r, share_g, share_b): (u8, u8, u8) = if h < 60 {
            (60, x, 0)
        } else if h < 120 {
            (x, 60, 0)
        } else if h < 180 {
            (0, 60, x)
        } else if h < 240 {
            (0, x, 60)
        } else if h < 300 {
            (x, 0, 60)
        } else if h < 360 {
            (60, 0, x)
        } else {
            (0, 0, 0)
        };
        (channel_of(s, v, share_r), channel_of(s, v, share_g), channel_of(s, v, share_b))
    }
}

/// A quotient rounded to the nearest whole number stays at or below a whole
/// bound of the quotient.
proof fn lemma_rounds_below(n: int, d: int, bound: int)
    by (nonlinear_arith)
    requires
        0 < d,
        0 <= n <= bound * d,
    ensures
        0 <= (2 * n + d) / (2 * d) <= bound,
{
}

fn largest(r: u8, g: u8, b: u8) -> (m: u8)
    ensures
        m == max3(r as int, g as int, b as int),
{
    let m = if g > r { g } else { r };
    if b > m { b } else { m }
}

fn smallest(r: u8, g: u8, b: u8) -> (m: u8)
    ensures
        m == min3(r as int, g as int, b as int),
{
    let m = if g < r { g } else { r };
    if b < m { b } else { m }
}

/// The value of a hex digit.
fn digit(byte: u8) -> (r: Option<u8>)
    ensures
        match hex_digit(byte) {
            Some(v) => r == Some(v as u8) && 0 <= v < 16,
            None => r.is_none(),
        },
{
    if 0x30 <= byte && byte <= 0x39 {
        Some(byte - 0x30)
    } else if 0x41 <= byte && byte <= 0x46 {
        Some(byte - 0x41 + 10)
    } else if 0x61 <= byte && byte <= 0x66 {
        Some(byte - 0x61 + 10)
    } else {
        None
    }
}

/// The value of two hex digits.
fn pair(high: u8, low: u8) -> (r: Option<u8>)
    ensures
        r == hex_pair(high, low),
{
    match (digit(high), digit(low)) {
        (Some(h), Some(l)) => Some(16 * h + l),
        _ => None,
    }
}

/// One channel of the RGB color of a saturation and a value, for the share
/// of the chroma that the channel gets.
fn channel_of(s: u32, v: u32, share: u8) -> (r: u8)
    requires
        share <= 60,
    ensures
        r == channel_value(s as int, v as int, share as int),
{
    let full: i128 = FULL as i128;
    proof {
        assert(0 <= v * s <= 0x1_0000_0000 * 0x1_0000_0000) by (nonlinear_arith)
            requires
                0 <= v < 0x1_0000_0000,
                0 <= s < 0x1_0000_0000,
        ;
        assert(0 <= (v * s) * share <= 0x1_0000_0000 * 0x1_0000_0000 * 60) by (nonlinear_arith)
            requires
                0 <= v * s <= 0x1_0000_0000 * 0x1_0000_0000,
                0 <= share <= 60,
        ;
        assert(-0x1_0000_0000 * 0x1_0000_0000 <= v * (FULL - s) <= 0x1_0000_0000 * 1_000_000)
            by (nonlinear_arith)
            requires
                0 <= v < 0x1_0000_0000,
                0 <= s < 0x1_0000_0000,
                FULL == 1_000_000,
        ;
    }
    let product: i128 = (v as i128) * (s as i128);
    let n: i128 = 255 * (product * (share as i128) + 60 * ((v as i128) * (full - s as i128)));
    let d: i128 = 60 * (full * full);
    if n <= 0 {
        0
    } else {
        let q: i128 = (2 * n + d) / (2 * d);
        if q > 255 {
            255
        } else {
            q as u8
        }
    }
}

} // verus!
