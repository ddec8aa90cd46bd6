//! Sines and cosines of whole degrees, as fixed-point numbers.
use vstd::prelude::*;

verus! {

/// The scale of the sines and cosines: `TURN_UNIT` stands for one.
pub const TURN_UNIT: i64 = 1_000_000_000;

/// The sines of 0 to 90 degrees, in units of 1 / `TURN_UNIT`, each rounded
/// to the nearest unit.
pub const QUARTER_SINES: [i32; 91] = [
    0, 17_452_406, 34_899_497, 52_335_956, 69_756_474, 87_155_743,
    104_528_463, 121_869_343, 139_173_101, 156_434_465, 173_648_178, 190_808_995,
    207_911_691, 224_951_054, 241_921_896, 258_819_045, 275_637_356, 292_371_705,
    309_016_994, 325_568_154, 342_020_143, 358_367_950, 374_606_593, 390_731_128,
    406_736_643, 422_618_262, 438_371_147, 453_990_500, 469_471_563, 484_809_620,
    500_000_000, 515_038_075, 529_919_264, 544_639_035, 559_192_903, 573_576_436,
    587_785_252, 601_815_023, 615_661_475, 629_320_391, 642_787_610, 656_059_029,
    669_130_606, 681_998_360, 694_658_370, 707_106_781, 719_339_800, 731_353_702,
    743_144_825, 754_709_580, 766_044_443, 777_145_961, 788_010_754, 798_635_510,
    809_016_994, 819_152_044, 829_037_573, 838_670_568, 848_048_096, 857_167_301,
    866_025_404, 874_619_707, 882_947_593, 891_006_524, 898_794_046, 906_307_787,
    913_545_458, 920_504_853, 927_183_855, 933_580_426, 939_692_621, 945_518_576,
    951_056_516, 956_304_756, 961_261_696, 965_925_826, 970_295_726, 974_370_065,
    978_147_601, 981_627_183, 984_807_753, 987_688_341, 990_268_069, 992_546_152,
    994_521_895, 996_194_698, 997_564_050, 998_629_535, 999_390_827, 999_847_695,
    1_000_000_000,
];

/// The sine of an angle of whole degrees, in units of 1 / `TURN_UNIT`.
pub open spec fn sine(degree: int) -> int {
    let d = degree % 360;
    if d <= 90 {
        QUARTER_SINES@[d] as int
    } else if d <= 180 {
        QUARTER_SINES@[180 - d] as int
    } else if d <= 270 {
        -(QUARTER_SINES@[d - 180] as int)
    } else {
        -(QUARTER_SINES@[360 - d] as int)
    }
}

/// The cosine of an angle of whole degrees, in units of 1 / `TURN_UNIT`.
pub open spec fn cosine(degree: int) -> int {
    sine(degree + 90)
}

/// A multiple of 1 / `TURN_UNIT` rounded to the nearest whole number, halves
/// away from zero.
pub open spec fn rounded(n: int) -> int {
    if n >= 0 {
        (n + TURN_UNIT / 2) / (TURN_UNIT as int)
    } else {
        -((-n + TURN_UNIT / 2) / (TURN_UNIT as int))
    }
}

/// The point `(x, y)` turned clockwise about the origin, in screen
/// coordinates (y grows downwards), each coordinate rounded to the nearest
/// whole number: `(x cos - y sin, x sin + y cos)`.
pub open spec fn turned(x: int, y: int, degree: int) -> (int, int) {
    (rounded(x * cosine(degree) - y * sine(degree)), rounded(x * sine(degree) + y * cosine(degree)))
}

/// Every entry of the table lies between zero and one.
pub proof fn lemma_quarter_bounds(i: int)
    requires
        0 <= i <= 90,
    ensures
        0 <= QUARTER_SINES@[i] <= TURN_UNIT,
{
}

/// No sine or cosine exceeds one.
pub proof fn lemma_sine_bounds(degree: int)
    ensures
        -TURN_UNIT <= sine(degree) <= TURN_UNIT,
        -TURN_UNIT <= cosine(degree) <= TURN_UNIT,
{
    let d = degree % 360;
    let e = (degree + 90) % 360;
    if d <= 90 {
        lemma_quarter_bounds(d);
    } else if d <= 180 {
        lemma_quarter_bounds(180 - d);
    } else if d <= 270 {
        lemma_quarter_bounds(d - 180);
    } else {
        lemma_quarter_bounds(360 - d);
    }
    if e <= 90 {
        lemma_quarter_bounds(e);
    } else if e <= 180 {
        lemma_quarter_bounds(180 - e);
    } else if e <= 270 {
        lemma_quarter_bounds(e - 180);
    } else {
        lemma_quarter_bounds(360 - e);
    }
}

/// The sine of an angle.
pub(crate) fn sine_of(degree: i64) -> (r: i64)
    requires
        -0x1_0000_0000 <= degree <= 0x1_0000_0000,
    ensures
        r == sine(degree as int),
        -TURN_UNIT <= r <= TURN_UNIT,
{
    proof {
        lemma_sine_bounds(degree as int);
    }
    let d: i64 = if degree >= 0 {
        degree % 360
    } else {
        let m: i64 = (-degree) % 360;
        if m == 0 {
            0
        } else {
            360 - m
        }
    };
    assert(d == (degree as int) % 360) by {
        if degree < 0 {
            let m = (-(degree as int)) % 360;
            let q = (-(degree as int)) / 360;
            vstd::arithmetic::div_mod::lemma_fundamental_div_mod(-(degree as int), 360);
            if m == 0 {
                vstd::arithmetic::div_mod::lemma_fundamental_div_mod_converse(degree as int, 360, -q, 0);
            } else {
                vstd::arithmetic::div_mod::lemma_fundamental_div_mod_converse(
                    degree as int,
                    360,
                    -q - 1,
                    360 - m,
                );
            }
        }
    }
    if d <= 90 {
        QUARTER_SINES[d as usize] as i64
    } else if d <= 180 {
        QUARTER_SINES[(180 - d) as usize] as i64
    } else if d <= 270 {
        -(QUARTER_SINES[(d - 180) as usize] as i64)
    } else {
        -(QUARTER_SINES[(360 - d) as usize] as i64)
    }
}

/// The cosine of an angle.
pub(crate) fn cosine_of(degree: i64) -> (r: i64)
    requires
        -0x8000_0000 <= degree <= 0x8000_0000,
    ensures
        r == cosine(degree as int),
        -TURN_UNIT <= r <= TURN_UNIT,
{
    proof {
        lemma_sine_bounds(degree as int);
    }
    sine_of(degree + 90)
}

/// Round a multiple of 1 / `TURN_UNIT`.
pub(crate) fn round_units(n: i64) -> (r: i64)
    requires
        -0x7000_0000_0000_0000 <= n <= 0x7000_0000_0000_0000,
    ensures
        r == rounded(n as int),
{
    if n >= 0 {
        (n + TURN_UNIT / 2) / TURN_UNIT
    } else {
        -((-n + TURN_UNIT / 2) / TURN_UNIT)
    }
}

/// A turned point is no further from the origin, on either axis, than the
/// sum of the coordinates of the point itself.
pub proof fn lemma_turned_bounds(x: int, y: int, degree: int, reach: int)
    requires
        -reach <= x <= reach,
        -reach <= y <= reach,
    ensures
        -2 * reach <= turned(x, y, degree).0 <= 2 * reach,
        -2 * reach <= turned(x, y, degree).1 <= 2 * reach,
        -2 * reach * TURN_UNIT <= x * cosine(degree) - y * sine(degree) <= 2 * reach * TURN_UNIT,
        -2 * reach * TURN_UNIT <= x * sine(degree) + y * cosine(degree) <= 2 * reach * TURN_UNIT,
{
    lemma_sine_bounds(degree);
    let s = sine(degree);
    let c = cosine(degree);
    let u = TURN_UNIT as int;
    lemma_product_bound(x, c, reach, u);
    lemma_product_bound(y, s, reach, u);
    lemma_product_bound(x, s, reach, u);
    lemma_product_bound(y, c, reach, u);
    lemma_rounded_bound(x * c - y * s, 2 * reach);
    lemma_rounded_bound(x * s + y * c, 2 * reach);
}

/// The product of two bounded values is bounded by the product of the bounds.
pub proof fn lemma_product_bound(a: int, b: int, p: int, q: int)
    by (nonlinear_arith)
    requires
        -p <= a <= p,
        -q <= b <= q,
    ensures
        -(p * q) <= a * b <= p * q,
{
}

/// Rounding keeps a value within whole bounds.
pub proof fn lemma_rounded_bound(n: int, k: int)
    requires
        0 <= k,
        -(k * TURN_UNIT) <= n <= k * TURN_UNIT,
    ensures
        -k <= rounded(n) <= k,
{
    let u = TURN_UNIT as int;
    if n >= 0 {
        assert((n + u / 2) / u <= k) by (nonlinear_arith)
            requires
                0 <= n <= k * u,
                u == 1_000_000_000,
        ;
        assert((n + u / 2) / u >= 0) by (nonlinear_arith)
            requires
                0 <= n,
                u == 1_000_000_000,
        ;
    } else {
        assert((-n + u / 2) / u <= k) by (nonlinear_arith)
            requires
                0 <= -n <= k * u,
                u == 1_000_000_000,
        ;
        assert((-n + u / 2) / u >= 0) by (nonlinear_arith)
            requires
                0 <= -n,
                u == 1_000_000_000,
        ;
    }
}

/// A whole number of units rounds to that number.
pub proof fn lemma_rounded_whole(k: int)
    ensures
        rounded(k * TURN_UNIT) == k,
{
    let u = TURN_UNIT as int;
    if k >= 0 {
        assert((k * u + u / 2) / u == k) by (nonlinear_arith)
            requires
                0 <= k,
                u == 1_000_000_000,
        ;
    } else {
        assert((-(k * u) + u / 2) / u == -k) by (nonlinear_arith)
            requires
                k < 0,
                u == 1_000_000_000,
        ;
    }
}

/// Turning by a right angle moves a point onto the grid again: by no turn
/// to itself, by a quarter turn clockwise from `(x, y)` to `(-y, x)`, by a
/// half turn to `(-x, -y)`, and by three quarter turns to `(y, -x)`.
pub proof fn lemma_turned_right_angle(x: int, y: int, degree: int)
    requires
        degree % 90 == 0,
    ensures
        degree % 360 == 0 || degree % 360 == 90 || degree % 360 == 180 || degree % 360 == 270,
        degree % 360 == 0 ==> turned(x, y, degree) == (x, y),
        degree % 360 == 90 ==> turned(x, y, degree) == (-y, x),
        degree % 360 == 180 ==> turned(x, y, degree) == (-x, -y),
        degree % 360 == 270 ==> turned(x, y, degree) == (y, -x),
        magnitude_of(sine(degree)) > magnitude_of(cosine(degree)) <==> (degree % 360 == 90 || degree % 360
            == 270),
{
    let d = degree % 360;
    let e = (degree + 90) % 360;
    let s = sine(degree);
    let c = cosine(degree);
    assert(d == 0 || d == 90 || d == 180 || d == 270);
    assert(e == (d + 90) % 360);
    lemma_rounded_whole(x);
    lemma_rounded_whole(y);
    lemma_rounded_whole(-x);
    lemma_rounded_whole(-y);
    if d == 0 {
        assert(s == 0 && c == TURN_UNIT);
        assert(x * c - y * s == x * TURN_UNIT && x * s + y * c == y * TURN_UNIT) by (nonlinear_arith)
            requires
                s == 0,
                c == TURN_UNIT,
        ;
    } else if d == 90 {
        assert(s == TURN_UNIT && c == 0);
        assert(x * c - y * s == (-y) * TURN_UNIT && x * s + y * c == x * TURN_UNIT) by (nonlinear_arith)
            requires
                s == TURN_UNIT,
                c == 0,
        ;
    } else if d == 180 {
        assert(s == 0 && c == -TURN_UNIT);
        assert(x * c - y * s == (-x) * TURN_UNIT && x * s + y * c == (-y) * TURN_UNIT) by (nonlinear_arith)
            requires
                s == 0,
                c == -TURN_UNIT,
        ;
    } else {
        assert(s == -TURN_UNIT && c == 0);
        assert(x * c - y * s == y * TURN_UNIT && x * s + y * c == (-x) * TURN_UNIT) by (nonlinear_arith)
            requires
                s == -TURN_UNIT,
                c == 0,
        ;
    }
}

/// The distance of a number from zero.
pub open spec fn magnitude_of(a: int) -> int {
    if a < 0 {
        -a
    } else {
        a
    }
}

} // verus!
