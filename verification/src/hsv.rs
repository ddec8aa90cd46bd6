//! What a color keeps on its way from RGB to HSV and back.
//!
//! The hue is kept in whole degrees, so the way back cannot always find the
//! channel between the largest and the smallest again. The largest and the
//! smallest channel always come back as they were, and the third comes back
//! too where the hue is a whole number of degrees.
use crate::color::{
    channel_value, chroma_share, hue, hue_numerator, hue_share, max3, min3, rgb_channel, saturation_of, value_of,
    FULL,
};
use vstd::prelude::*;

verus! {

/// The value is `max / 255` to within half a unit.
proof fn lemma_value_error(r: int, g: int, b: int)
    requires
        0 <= r <= 255,
        0 <= g <= 255,
        0 <= b <= 255,
    ensures
        -127 <= 255 * value_of(r, g, b) - 1_000_000 * max3(r, g, b) <= 127,
        0 <= value_of(r, g, b) <= 1_000_000,
{
    let max = max3(r, g, b);
    assert(FULL == 1_000_000);
    assert(2 * FULL * max == 2_000_000 * max);
    assert(value_of(r, g, b) == (2_000_000 * max + 255) / 510);
}

/// The saturation is `chroma / max` to within half a unit.
proof fn lemma_saturation_error(r: int, g: int, b: int)
    requires
        0 <= r <= 255,
        0 <= g <= 255,
        0 <= b <= 255,
        max3(r, g, b) > 0,
    ensures
        -max3(r, g, b) <= 2 * (max3(r, g, b) * saturation_of(r, g, b) - 1_000_000 * (max3(r, g, b) - min3(
            r,
            g,
            b,
        ))) <= max3(r, g, b),
        0 <= saturation_of(r, g, b) <= 1_000_000,
{
    let max = max3(r, g, b);
    let chroma = max - min3(r, g, b);
    let n = 2_000_000 * chroma + max;
    let s = saturation_of(r, g, b);
    assert(FULL == 1_000_000);
    assert(2 * FULL * chroma == 2_000_000 * chroma);
    assert(s == n / (2 * max));
    vstd::arithmetic::div_mod::lemma_fundamental_div_mod(n, 2 * max);
    vstd::arithmetic::div_mod::lemma_mod_bound(n, 2 * max);
    let rest = n % (2 * max);
    assert(n == (2 * max) * s + rest);
    assert((2 * max) * s == 2 * (max * s)) by (nonlinear_arith);
    assert(0 <= s <= 1_000_000) by (nonlinear_arith)
        requires
            2 * (max * s) + rest == 2_000_000 * chroma + max,
            0 <= rest < 2 * max,
            0 <= chroma <= max,
            0 < max,
    ;
    assert(2 * (max * s - 1_000_000 * chroma) == max - rest);
}

/// The error of a channel on the way back, before it is rounded: with the
/// value and the saturation within half a unit of what they stand for, a
/// channel whose share of the chroma is that of `val` comes to within a
/// small part of one of `val`.
proof fn lemma_channel_error(max: int, min: int, val: int, share: int, v: int, s: int, e1: int, e2: int, n: int)
    requires
        0 <= min <= val <= max <= 255,
        0 < max,
        0 <= share <= 60,
        (max - min) * share == 60 * (val - min),
        255 * v == 1_000_000 * max + e1,
        -127 <= e1 <= 127,
        max * s == 1_000_000 * (max - min) + e2,
        -max <= 2 * e2 <= max,
        n == 255 * (v * s * share + 60 * (v * (1_000_000 - s))),
    ensures
        -30_000_000_000_000 < n - 60_000_000_000_000 * val < 30_000_000_000_000,
{
    let c = max - min;
    let a = 255 * v;
    let b = max * s;
    assert(max * n == a * b * share + 60 * (a * (max * 1_000_000 - b))) by (nonlinear_arith)
        requires
            n == 255 * (v * s * share + 60 * (v * (1_000_000 - s))),
            a == 255 * v,
            b == max * s,
    ;
    // b share + 60 (1000000 max - b) = 60000000 val + e2 (share - 60)
    let slack = e2 * (share - 60);
    let whole = 60_000_000 * val;
    let inner = whole + slack;
    assert(b * share + 60 * (max * 1_000_000 - b) == inner) by (nonlinear_arith)
        requires
            b == 1_000_000 * c + e2,
            c == max - min,
            c * share == 60 * (val - min),
            inner == 60_000_000 * val + e2 * (share - 60),
    ;
    assert(a * b * share + 60 * (a * (max * 1_000_000 - b)) == a * (b * share + 60 * (max * 1_000_000 - b)))
        by (nonlinear_arith);
    assert(max * n == a * inner);
    assert(-30 * max <= slack <= 30 * max) by (nonlinear_arith)
        requires
            slack == e2 * (share - 60),
            -max <= 2 * e2 <= max,
            -60 <= share - 60 <= 0,
    ;
    // a inner = (1000000 max + e1) (whole + slack)
    let p = 1_000_000 * max;
    assert(a * inner == p * whole + p * slack + e1 * whole + e1 * slack) by (nonlinear_arith)
        requires
            a == p + e1,
            inner == whole + slack,
    ;
    assert(p * whole == 60_000_000_000_000 * (max * val)) by (nonlinear_arith)
        requires
            p == 1_000_000 * max,
            whole == 60_000_000 * val,
    ;
    assert(-(30_000_000 * (max * max)) <= p * slack <= 30_000_000 * (max * max)) by (nonlinear_arith)
        requires
            p == 1_000_000 * max,
            -30 * max <= slack <= 30 * max,
            0 < max,
    ;
    assert(max * max <= 255 * max) by (nonlinear_arith)
        requires
            0 < max <= 255,
    ;
    assert(-(7_620_000_000 * max) <= e1 * whole <= 7_620_000_000 * max) by (nonlinear_arith)
        requires
            -127 <= e1 <= 127,
            whole == 60_000_000 * val,
            0 <= val <= max,
    ;
    assert(-(3_810 * max) <= e1 * slack <= 3_810 * max) by (nonlinear_arith)
        requires
            -127 <= e1 <= 127,
            -30 * max <= slack <= 30 * max,
            0 < max,
    ;
    let error = p * slack + e1 * whole + e1 * slack;
    // |error| <= (7650000000 + 7620000000 + 3810) max < 30000000000000 max
    assert(-(30_000_000_000_000 * max) < error < 30_000_000_000_000 * max);
    let d = n - 60_000_000_000_000 * val;
    assert(max * d == error) by (nonlinear_arith)
        requires
            max * n == 60_000_000_000_000 * (max * val) + error,
            d == n - 60_000_000_000_000 * val,
    ;
    assert(-30_000_000_000_000 < d < 30_000_000_000_000) by (nonlinear_arith)
        requires
            max * d == error,
            -(30_000_000_000_000 * max) < error < 30_000_000_000_000 * max,
            0 < max,
    ;
}

/// On the way back, a channel whose share of the chroma is that of `val`
/// comes out as `val`: `share / 60` has to be `(val - min) / (max - min)`.
pub proof fn lemma_channel_comes_back(r: int, g: int, b: int, val: int, share: int)
    requires
        0 <= r <= 255,
        0 <= g <= 255,
        0 <= b <= 255,
        min3(r, g, b) <= val <= max3(r, g, b),
        0 <= share <= 60,
        (max3(r, g, b) - min3(r, g, b)) * share == 60 * (val - min3(r, g, b)),
    ensures
        channel_value(saturation_of(r, g, b), value_of(r, g, b), share) == val,
{
    let max = max3(r, g, b);
    let min = min3(r, g, b);
    let v = value_of(r, g, b);
    let s = saturation_of(r, g, b);
    let n = 255 * (v * s * share + 60 * (v * (FULL - s)));
    lemma_value_error(r, g, b);
    assert(FULL == 1_000_000);
    if max == 0 {
        assert(v == 0);
        assert(v * s * share == 0) by (nonlinear_arith)
            requires
                v == 0,
        ;
        assert(v * (FULL - s) == 0) by (nonlinear_arith)
            requires
                v == 0,
        ;
    } else {
        lemma_saturation_error(r, g, b);
        let e1 = 255 * v - 1_000_000 * max;
        let e2 = max * s - 1_000_000 * (max - min);
        lemma_channel_error(max, min, val, share, v, s, e1, e2, n);
        assert(60 * (FULL * FULL) == 60_000_000_000_000);
    }
}

/// The shares of the chroma by the hue: each channel gets between nothing
/// and all of it; below 360 degrees one channel gets all and one nothing.
pub proof fn lemma_shares(h: int)
    requires
        0 <= h,
    ensures
        0 <= chroma_share(h, 0) <= 60,
        0 <= chroma_share(h, 1) <= 60,
        0 <= chroma_share(h, 2) <= 60,
        h < 360 ==> chroma_share(h, 0) == 60 || chroma_share(h, 1) == 60 || chroma_share(h, 2) == 60,
        h < 360 ==> chroma_share(h, 0) == 0 || chroma_share(h, 1) == 0 || chroma_share(h, 2) == 0,
{
}

/// A channel does not fall when its share of the chroma grows.
pub proof fn lemma_channel_grows(s: int, v: int, low: int, high: int)
    requires
        0 <= s,
        0 <= v,
        low <= high,
    ensures
        channel_value(s, v, low) <= channel_value(s, v, high),
{
    let n_low = 255 * (v * s * low + 60 * (v * (FULL - s)));
    let n_high = 255 * (v * s * high + 60 * (v * (FULL - s)));
    let d = 60 * (FULL * FULL);
    assert(v * s * low <= v * s * high) by (nonlinear_arith)
        requires
            0 <= s,
            0 <= v,
            low <= high,
    ;
    assert(d == 60_000_000_000_000);
    vstd::arithmetic::div_mod::lemma_div_is_ordered(2 * n_low + d, 2 * n_high + d, 2 * d);
    if n_low > 0 {
        assert((2 * n_low + d) / (2 * d) >= 0);
    }
}

/// The hue of a color is an angle from 0 to 359 degrees.
pub proof fn lemma_hue_range(r: int, g: int, b: int)
    requires
        0 <= r <= 255,
        0 <= g <= 255,
        0 <= b <= 255,
    ensures
        0 <= hue(r, g, b) <= 359,
{
    let chroma = max3(r, g, b) - min3(r, g, b);
    let n = hue_numerator(r, g, b);
    if chroma > 0 {
        let m = if n > 359 * chroma {
            360 * chroma - n
        } else {
            n
        };
        assert(0 <= (2 * m + chroma) / (2 * chroma) <= 359) by (nonlinear_arith)
            requires
                0 < chroma,
                0 <= m <= 359 * chroma,
        ;
    }
}

/// From RGB to HSV and back, the largest and the smallest channel come back
/// as they were: the largest of the three channels that come back is the
/// largest that went in, and so is the smallest. A gray comes back as it was.
pub proof fn lemma_round_trip_extremes(r: u8, g: u8, b: u8)
    ensures
        ({
            let h = hue(r as int, g as int, b as int);
            let s = saturation_of(r as int, g as int, b as int);
            let v = value_of(r as int, g as int, b as int);
            &&& max3(rgb_channel(h, s, v, 0), rgb_channel(h, s, v, 1), rgb_channel(h, s, v, 2)) == max3(
                r as int,
                g as int,
                b as int,
            )
            &&& min3(rgb_channel(h, s, v, 0), rgb_channel(h, s, v, 1), rgb_channel(h, s, v, 2)) == min3(
                r as int,
                g as int,
                b as int,
            )
        }),
{
    let (ri, gi, bi) = (r as int, g as int, b as int);
    let h = hue(ri, gi, bi);
    let s = saturation_of(ri, gi, bi);
    let v = value_of(ri, gi, bi);
    let max = max3(ri, gi, bi);
    let min = min3(ri, gi, bi);
    lemma_hue_range(ri, gi, bi);
    lemma_shares(h);
    lemma_value_error(ri, gi, bi);
    if max > 0 {
        lemma_saturation_error(ri, gi, bi);
    }
    if max == min {
        lemma_channel_comes_back(ri, gi, bi, max, chroma_share(h, 0));
        lemma_channel_comes_back(ri, gi, bi, max, chroma_share(h, 1));
        lemma_channel_comes_back(ri, gi, bi, max, chroma_share(h, 2));
    } else {
        lemma_channel_comes_back(ri, gi, bi, max, 60);
        lemma_channel_comes_back(ri, gi, bi, min, 0);
        lemma_channel_grows(s, v, 0, chroma_share(h, 0));
        lemma_channel_grows(s, v, 0, chroma_share(h, 1));
        lemma_channel_grows(s, v, 0, chroma_share(h, 2));
        lemma_channel_grows(s, v, chroma_share(h, 0), 60);
        lemma_channel_grows(s, v, chroma_share(h, 1), 60);
        lemma_channel_grows(s, v, chroma_share(h, 2), 60);
    }
}

/// The chroma times the share of the middle channel, by the third of the
/// circle that the hue lies in.
proof fn lemma_share_product(c: int, h: int)
    requires
        0 <= h < 360,
    ensures
        h < 60 ==> c * hue_share(h) == c * h,
        60 <= h < 120 ==> c * hue_share(h) == 120 * c - c * h,
        120 <= h < 180 ==> c * hue_share(h) == c * h - 120 * c,
        180 <= h < 240 ==> c * hue_share(h) == 240 * c - c * h,
        240 <= h < 300 ==> c * hue_share(h) == c * h - 240 * c,
        300 <= h < 360 ==> c * hue_share(h) == 360 * c - c * h,
{
    let x = hue_share(h);
    if h < 60 {
        assert(x == h);
    } else if h < 120 {
        assert(x == 120 - h);
        assert(c * (120 - h) == 120 * c - c * h) by (nonlinear_arith);
    } else if h < 180 {
        assert(x == h - 120);
        assert(c * (h - 120) == c * h - 120 * c) by (nonlinear_arith);
    } else if h < 240 {
        assert(x == 240 - h);
        assert(c * (240 - h) == 240 * c - c * h) by (nonlinear_arith);
    } else if h < 300 {
        assert(x == h - 240);
        assert(c * (h - 240) == c * h - 240 * c) by (nonlinear_arith);
    } else {
        assert(x == 360 - h);
        assert(c * (360 - h) == 360 * c - c * h) by (nonlinear_arith);
    }
}

/// Whether the hue of a color is a whole number of degrees before it is
/// rounded. The hue of a gray is.
pub open spec fn whole_hue(r: int, g: int, b: int) -> bool {
    let chroma = max3(r, g, b) - min3(r, g, b);
    chroma == 0 || hue_numerator(r, g, b) % chroma == 0
}

/// From RGB to HSV and back, a color whose hue is a whole number of degrees
/// comes back as it was.
pub proof fn lemma_round_trip_whole_hue(r: u8, g: u8, b: u8)
    requires
        whole_hue(r as int, g as int, b as int),
    ensures
        ({
            let h = hue(r as int, g as int, b as int);
            let s = saturation_of(r as int, g as int, b as int);
            let v = value_of(r as int, g as int, b as int);
            &&& rgb_channel(h, s, v, 0) == r
            &&& rgb_channel(h, s, v, 1) == g
            &&& rgb_channel(h, s, v, 2) == b
        }),
{
    let (ri, gi, bi) = (r as int, g as int, b as int);
    let h = hue(ri, gi, bi);
    let max = max3(ri, gi, bi);
    let min = min3(ri, gi, bi);
    let c = max - min;
    let n = hue_numerator(ri, gi, bi);
    lemma_hue_range(ri, gi, bi);
    lemma_shares(h);
    if c > 0 {
        // The hue is exactly n / c.
        vstd::arithmetic::div_mod::lemma_fundamental_div_mod(n, c);
        let q = n / c;
        assert(n == c * q);
        assert(0 <= n < 360 * c);
        assert(0 <= q < 360) by (nonlinear_arith)
            requires
                n == c * q,
                0 <= n < 360 * c,
                0 < c,
        ;
        assert(n <= 359 * c) by (nonlinear_arith)
            requires
                n == c * q,
                q <= 359,
                0 < c,
        ;
        assert((2 * n + c) / (2 * c) == q) by (nonlinear_arith)
            requires
                n == c * q,
                0 < c,
        ;
        assert(h == q);
        assert(c * h == n);
        lemma_share_product(c, h);
        assert((h < 60 <==> n < 60 * c) && (h < 120 <==> n < 120 * c) && (h < 180 <==> n < 180 * c) && (h < 240
            <==> n < 240 * c) && (h < 300 <==> n < 300 * c)) by (nonlinear_arith)
            requires
                c * h == n,
                0 < c,
        ;
        assert(c * 60 == 60 * c);
        assert(c * 0 == 0);
        assert(c * chroma_share(h, 0) == 60 * (ri - min));
        assert(c * chroma_share(h, 1) == 60 * (gi - min));
        assert(c * chroma_share(h, 2) == 60 * (bi - min));
    } else {
        assert(c * chroma_share(h, 0) == 0) by (nonlinear_arith)
            requires
                c == 0,
        ;
        assert(c * chroma_share(h, 1) == 0) by (nonlinear_arith)
            requires
                c == 0,
        ;
        assert(c * chroma_share(h, 2) == 0) by (nonlinear_arith)
            requires
                c == 0,
        ;
    }
    lemma_channel_comes_back(ri, gi, bi, ri, chroma_share(h, 0));
    lemma_channel_comes_back(ri, gi, bi, gi, chroma_share(h, 1));
    lemma_channel_comes_back(ri, gi, bi, bi, chroma_share(h, 2));
}

} // verus!
