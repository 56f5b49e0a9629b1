//! Hue, saturation and lightness to red, green and blue, in exact
//! arithmetic on fractions.

use vstd::prelude::*;
use vstd::arithmetic::div_mod::lemma_div_multiples_vanish_quotient;
use crate::color::Rgb;

verus! {

/// The largest denominator that a hue or a saturation may have.
pub const MAX_DEN: u64 = 0x1_0000_0000;

/// The largest denominator that a lightness may have.
pub const MAX_LIGHTNESS_DEN: u64 = 0x100_0000_0000;

/// The fraction `num / den`, which is not negative.
#[derive(Clone, Copy, Debug)]
pub struct Ratio {
    pub num: u64,
    pub den: u64,
}

impl Ratio {
    /// Whether the fraction lies in `[0, 1]`, with a denominator that is
    /// neither zero nor above `max_den`.
    pub open spec fn unit(self, max_den: u64) -> bool {
        0 < self.den <= max_den && self.num <= self.den
    }

    /// The fraction `num / den`.
    pub fn new(num: u64, den: u64) -> (r: Ratio)
        ensures
            r == (Ratio { num, den }),
    {
        Ratio { num, den }
    }
}

/// The sixth of the colour circle in which the hue `h`, in degrees, lies:
/// 0 for `[0, 60)`, up to 5 for `[300, 360)`, and round again from 360 on.
pub open spec fn sector(h: Ratio) -> int {
    (h.num as int / (60 * h.den)) % 6
}

/// `1 - |(h / 60 mod 2) - 1|` in units of `1 / (60 * h.den)`: how far the
/// hue is from the nearest primary colour, as a share of 60 degrees.
pub open spec fn ramp(h: Ratio) -> int {
    let t = h.num as int % (120 * h.den);
    if t <= 60 * h.den {
        t
    } else {
        120 * h.den - t
    }
}

/// `1 - |2l - 1|` in units of `1 / l.den`.
pub open spec fn spread(l: Ratio) -> int {
    if 2 * l.num <= l.den {
        2 * l.num
    } else {
        2 * l.den - 2 * l.num
    }
}

/// `255 * n / d` rounded to the nearest whole number, halves upwards: the
/// share `n / d` of a byte's range.
pub open spec fn byte_of(n: int, d: int) -> int {
    (510 * n + d) / (2 * d)
}

/// The unit in which `strong`, `middle` and `weak` count: with chroma
/// `c = (1 - |2l - 1|) * s`, second component `x = c * ramp` and
/// `m = l - c / 2`, they are `c + m`, `x + m` and `m` over this.
pub open spec fn level_unit(h: Ratio, s: Ratio, l: Ratio) -> int {
    2 * (l.den * s.den) * (60 * h.den)
}

/// The chroma `c`, in units of `1 / (l.den * s.den)`.
pub open spec fn chroma(s: Ratio, l: Ratio) -> int {
    spread(l) * s.num
}

/// `2 * m`, that is `2 * l - c`, in units of `1 / (l.den * s.den)`.
pub open spec fn floor_level(s: Ratio, l: Ratio) -> int {
    2 * (l.num * s.den) - chroma(s, l)
}

/// The strongest channel, `c + m`, in `level_unit`.
pub open spec fn strong(h: Ratio, s: Ratio, l: Ratio) -> int {
    (chroma(s, l) + 2 * (l.num * s.den)) * (60 * h.den)
}

/// The channel between, `x + m`, in `level_unit`.
pub open spec fn middle(h: Ratio, s: Ratio, l: Ratio) -> int {
    2 * chroma(s, l) * ramp(h) + floor_level(s, l) * (60 * h.den)
}

/// The weakest channel, `m`, in `level_unit`.
pub open spec fn weak(h: Ratio, s: Ratio, l: Ratio) -> int {
    floor_level(s, l) * (60 * h.den)
}

/// The grey of lightness `l`.
pub open spec fn gray(l: Ratio) -> Rgb {
    let v = byte_of(l.num as int, l.den as int) as u8;
    Rgb { r: v, g: v, b: v }
}

/// Red, green and blue as shares of one whole: `r / unit`, `g / unit` and
/// `b / unit`.
#[derive(Clone, Copy, Debug)]
pub struct RawRgb {
    pub r: u128,
    pub g: u128,
    pub b: u128,
    pub unit: u128,
}

impl View for RawRgb {
    type V = (int, int, int, int);

    /// The three numerators and the denominator.
    open spec fn view(&self) -> (int, int, int, int) {
        (self.r as int, self.g as int, self.b as int, self.unit as int)
    }
}

/// Red, green and blue of hue `h` in degrees, saturation `s` and lightness
/// `l`, each as a numerator over the denominator that comes last: the
/// lightness three times where the saturation is zero, and else the three
/// levels `c + m`, `x + m` and `m` in the order of the hue's sector.
pub open spec fn raw_rgb(h: Ratio, s: Ratio, l: Ratio) -> (int, int, int, int) {
    let d = level_unit(h, s, l);
    let hi = strong(h, s, l);
    let mid = middle(h, s, l);
    let lo = weak(h, s, l);
    let k = sector(h);
    if s.num == 0 {
        (l.num as int, l.num as int, l.num as int, l.den as int)
    } else if k == 0 {
        (hi, mid, lo, d)
    } else if k == 1 {
        (mid, hi, lo, d)
    } else if k == 2 {
        (lo, hi, mid, d)
    } else if k == 3 {
        (lo, mid, hi, d)
    } else if k == 4 {
        (mid, lo, hi, d)
    } else {
        (hi, lo, mid, d)
    }
}

/// The colour of hue `h` in degrees, saturation `s` and lightness `l`: each
/// of red, green and blue on the scale of a byte, rounded to the nearest
/// whole number.
pub open spec fn hsl_rgb(h: Ratio, s: Ratio, l: Ratio) -> Rgb {
    let raw = raw_rgb(h, s, l);
    Rgb {
        r: byte_of(raw.0, raw.3) as u8,
        g: byte_of(raw.1, raw.3) as u8,
        b: byte_of(raw.2, raw.3) as u8,
    }
}

/// The lightness, in hundredths, at which a hue of the sector looks
/// half-way between black and white.
pub open spec fn corrector(h: Ratio) -> int {
    let k = sector(h);
    if k == 0 {
        55
    } else if k == 1 {
        50
    } else if k == 2 {
        50
    } else if k == 3 {
        46
    } else if k == 4 {
        60
    } else {
        55
    }
}

/// The lightness `l` corrected for the hue `h`: with `k` the hue's
/// corrector, `l * k * 2` under one half and `k + (l - 1/2) * (1 - k) * 2`
/// from one half on.
pub open spec fn corrected_lightness(h: Ratio, l: Ratio) -> Ratio {
    let k = corrector(h);
    if 2 * l.num < l.den {
        Ratio { num: (2 * l.num * k) as u64, den: (100 * l.den) as u64 }
    } else {
        Ratio {
            num: (k * l.den + (2 * l.num - l.den) * (100 - k)) as u64,
            den: (100 * l.den) as u64,
        }
    }
}

/// The colour of hue `h`, saturation `s` and the lightness `l` corrected for
/// the hue.
pub open spec fn corrected_hsl_rgb(h: Ratio, s: Ratio, l: Ratio) -> Rgb {
    hsl_rgb(h, s, corrected_lightness(h, l))
}

/// Without saturation the colour is the grey of the lightness, each channel
/// the lightness on the scale of a byte, whatever the hue.
pub proof fn lemma_gray_ignores_hue(h1: Ratio, h2: Ratio, s: Ratio, l: Ratio)
    requires
        s.num == 0,
    ensures
        hsl_rgb(h1, s, l) == gray(l),
        hsl_rgb(h1, s, l) == hsl_rgb(h2, s, l),
{
}

/// At a lightness of exactly one half both branches of the correction give
/// the hue's corrector.
pub proof fn lemma_correction_meets_at_half(h: Ratio, l: Ratio)
    requires
        l.den > 0,
        2 * l.num == l.den,
        l.den <= MAX_LIGHTNESS_DEN,
    ensures
        corrected_lightness(h, l).num * 100 == corrector(h) * corrected_lightness(h, l).den,
        2 * l.num * corrector(h) == corrector(h) * l.den + (2 * l.num - l.den) * (100 - corrector(h)),
{
    let k = corrector(h);
    assert(2 * l.num * k == k * l.den) by (nonlinear_arith)
        requires
            2 * l.num == l.den,
    ;
    assert((2 * l.num - l.den) * (100 - k) == 0) by (nonlinear_arith)
        requires
            2 * l.num == l.den,
    ;
    assert(k * l.den * 100 == k * (100 * l.den)) by (nonlinear_arith);
    assert(0 <= k * l.den <= 60 * MAX_LIGHTNESS_DEN) by (nonlinear_arith)
        requires
            46 <= k <= 60,
            0 < l.den <= MAX_LIGHTNESS_DEN,
    ;
}

/// Whether two fractions have the same value.
pub open spec fn same_value(a: Ratio, b: Ratio) -> bool {
    a.num * b.den == b.num * a.den
}

/// If `x / d` is the same for two pairs, so is `(x * m) / (d * n)`.
proof fn lemma_cross_scaled(x1: int, d1: int, x2: int, d2: int, m: int, n: int)
    by (nonlinear_arith)
    requires
        x1 * d2 == x2 * d1,
    ensures
        (x1 * m) * (d2 * n) == (x2 * m) * (d1 * n),
{
}

/// Fractions of the same value make the same share of a byte's range.
pub proof fn lemma_byte_of_same_value(n1: int, d1: int, n2: int, d2: int)
    requires
        0 <= n1,
        0 <= n2,
        0 < d1,
        0 < d2,
        n1 * d2 == n2 * d1,
    ensures
        byte_of(n1, d1) == byte_of(n2, d2),
{
    let a1 = 510 * n1 + d1;
    let a2 = 510 * n2 + d2;
    assert((2 * d2) * a1 == (2 * d1) * a2) by (nonlinear_arith)
        requires
            n1 * d2 == n2 * d1,
            a1 == 510 * n1 + d1,
            a2 == 510 * n2 + d2,
    ;
    assert((2 * d2) * (2 * d1) == (2 * d1) * (2 * d2)) by (nonlinear_arith);
    lemma_div_multiples_vanish_quotient(2 * d2, a1, 2 * d1);
    lemma_div_multiples_vanish_quotient(2 * d1, a2, 2 * d2);
}

/// Lightnesses of the same value have spreads of the same value.
proof fn lemma_spread_same_value(l1: Ratio, l2: Ratio)
    requires
        0 < l1.den,
        0 < l2.den,
        same_value(l1, l2),
    ensures
        spread(l1) * l2.den == spread(l2) * l1.den,
{
    let n1 = l1.num as int;
    let d1 = l1.den as int;
    let n2 = l2.num as int;
    let d2 = l2.den as int;
    assert((2 * n1 <= d1) == (2 * n2 <= d2)) by (nonlinear_arith)
        requires
            n1 * d2 == n2 * d1,
            0 < d1,
            0 < d2,
            0 <= n1,
            0 <= n2,
    ;
    assert((2 * n1) * d2 == (2 * n2) * d1) by (nonlinear_arith)
        requires
            n1 * d2 == n2 * d1,
    ;
    assert((2 * d1 - 2 * n1) * d2 == (2 * d2 - 2 * n2) * d1) by (nonlinear_arith)
        requires
            n1 * d2 == n2 * d1,
    ;
}

/// The colour depends on the value of the lightness alone: two fractions of
/// the same value give the same colour.
pub proof fn lemma_same_lightness_same_colour(h: Ratio, s: Ratio, l1: Ratio, l2: Ratio)
    requires
        0 < h.den,
        0 < s.den,
        s.num <= s.den,
        0 < l1.den,
        l1.num <= l1.den,
        0 < l2.den,
        l2.num <= l2.den,
        same_value(l1, l2),
    ensures
        hsl_rgb(h, s, l1) == hsl_rgb(h, s, l2),
{
    let d1 = l1.den as int;
    let d2 = l2.den as int;
    let turn = 60 * h.den;
    let scale = 2 * s.den * turn;
    lemma_byte_of_same_value(l1.num as int, d1, l2.num as int, d2);
    lemma_levels_in_order(h, s, l1);
    lemma_levels_in_order(h, s, l2);
    lemma_spread_same_value(l1, l2);
    let c1 = chroma(s, l1);
    let c2 = chroma(s, l2);
    let b1 = 2 * (l1.num * s.den);
    let b2 = 2 * (l2.num * s.den);
    assert(c1 * d2 == c2 * d1) by (nonlinear_arith)
        requires
            c1 == spread(l1) * s.num,
            c2 == spread(l2) * s.num,
            spread(l1) * d2 == spread(l2) * d1,
    ;
    assert(b1 * d2 == b2 * d1) by (nonlinear_arith)
        requires
            b1 == 2 * (l1.num * s.den),
            b2 == 2 * (l2.num * s.den),
            l1.num * d2 == l2.num * d1,
    ;
    assert((c1 + b1) * d2 == (c2 + b2) * d1) by (nonlinear_arith)
        requires
            c1 * d2 == c2 * d1,
            b1 * d2 == b2 * d1,
    ;
    assert((b1 - c1) * d2 == (b2 - c2) * d1) by (nonlinear_arith)
        requires
            c1 * d2 == c2 * d1,
            b1 * d2 == b2 * d1,
    ;
    let u1 = level_unit(h, s, l1);
    let u2 = level_unit(h, s, l2);
    assert(u1 == d1 * scale && u2 == d2 * scale) by (nonlinear_arith)
        requires
            u1 == 2 * (d1 * s.den) * turn,
            u2 == 2 * (d2 * s.den) * turn,
            scale == 2 * s.den * turn,
    ;
    lemma_cross_scaled(c1 + b1, d1, c2 + b2, d2, turn, scale);
    lemma_cross_scaled(b1 - c1, d1, b2 - c2, d2, turn, scale);
    lemma_cross_scaled(c1, d1, c2, d2, 2 * ramp(h), scale);
    assert(2 * c1 * ramp(h) == c1 * (2 * ramp(h)) && 2 * c2 * ramp(h) == c2 * (2 * ramp(h)))
        by (nonlinear_arith);
    assert(middle(h, s, l1) * u2 == middle(h, s, l2) * u1) by (nonlinear_arith)
        requires
            middle(h, s, l1) == c1 * (2 * ramp(h)) + (b1 - c1) * turn,
            middle(h, s, l2) == c2 * (2 * ramp(h)) + (b2 - c2) * turn,
            (c1 * (2 * ramp(h))) * u2 == (c2 * (2 * ramp(h))) * u1,
            ((b1 - c1) * turn) * u2 == ((b2 - c2) * turn) * u1,
    ;
    lemma_byte_of_same_value(strong(h, s, l1), u1, strong(h, s, l2), u2);
    lemma_byte_of_same_value(middle(h, s, l1), u1, middle(h, s, l2), u2);
    lemma_byte_of_same_value(weak(h, s, l1), u1, weak(h, s, l2), u2);
}

/// At a lightness of exactly one half the corrected colour is the colour at
/// the lightness that the hue's corrector names.
pub proof fn lemma_corrected_at_half(h: Ratio, s: Ratio, l: Ratio)
    requires
        0 < h.den,
        0 < s.den,
        s.num <= s.den,
        0 < l.den <= MAX_LIGHTNESS_DEN,
        2 * l.num == l.den,
    ensures
        corrected_hsl_rgb(h, s, l) == hsl_rgb(h, s, Ratio { num: corrector(h) as u64, den: 100 }),
{
    lemma_correction_meets_at_half(h, l);
    let corrected = corrected_lightness(h, l);
    let named = Ratio { num: corrector(h) as u64, den: 100 };
    assert(corrected.num == corrector(h) * l.den && corrected.den == 100 * l.den);
    assert(corrected.num <= corrected.den) by (nonlinear_arith)
        requires
            corrected.num == corrector(h) * l.den,
            corrected.den == 100 * l.den,
            0 <= corrector(h) <= 100,
            0 < l.den,
    ;
    lemma_same_lightness_same_colour(h, s, corrected, named);
}

/// The product of two bounded naturals is bounded by the product of the
/// bounds.
pub proof fn lemma_product_bound(a: int, b: int, x: int, y: int)
    by (nonlinear_arith)
    requires
        0 <= a <= x,
        0 <= b <= y,
    ensures
        0 <= a * b <= x * y,
{
}

/// A share of at most one whole lies within a byte's range.
pub proof fn lemma_byte_of_bound(n: int, d: int)
    by (nonlinear_arith)
    requires
        0 <= n <= d,
        0 < d,
    ensures
        0 <= byte_of(n, d) <= 255,
{
}

/// The three levels of a colour lie in order between nothing and one
/// whole: no channel is negative, and none exceeds a byte.
pub proof fn lemma_levels_in_order(h: Ratio, s: Ratio, l: Ratio)
    requires
        0 < h.den,
        0 < s.den,
        s.num <= s.den,
        0 < l.den,
        l.num <= l.den,
    ensures
        0 <= ramp(h) <= 60 * h.den,
        0 <= chroma(s, l) <= 2 * (l.num * s.den),
        0 <= weak(h, s, l) <= middle(h, s, l) <= strong(h, s, l) <= level_unit(h, s, l),
        0 < level_unit(h, s, l),
{
    let sp = spread(l);
    let a = chroma(s, l);
    let b = 2 * (l.num * s.den);
    let base = l.den * s.den;
    let turn = 60 * h.den;
    let rp = ramp(h);
    assert(0 <= h.num as int % (120 * h.den) < 120 * h.den) by (nonlinear_arith)
        requires
            0 < h.den,
    ;
    lemma_product_bound(sp, s.num as int, 2 * l.num, s.den as int);
    assert((2 * l.num) * s.den == 2 * (l.num * s.den)) by (nonlinear_arith);
    lemma_product_bound(sp, s.num as int, 2 * (l.den - l.num), s.den as int);
    assert((2 * (l.den - l.num)) * s.den == 2 * (l.den * s.den) - 2 * (l.num * s.den))
        by (nonlinear_arith);
    assert(a + b <= 2 * base);
    assert(base >= 1) by (nonlinear_arith)
        requires
            base == l.den * s.den,
            l.den >= 1,
            s.den >= 1,
    ;
    assert(0 <= (b - a) * turn) by (nonlinear_arith)
        requires
            0 <= b - a,
            0 <= turn,
    ;
    assert(0 <= 2 * a * rp <= 2 * a * turn) by (nonlinear_arith)
        requires
            0 <= a,
            0 <= rp <= turn,
    ;
    assert(2 * a * turn + (b - a) * turn == (a + b) * turn) by (nonlinear_arith);
    assert((a + b) * turn <= 2 * base * turn) by (nonlinear_arith)
        requires
            0 <= a + b <= 2 * base,
            0 <= turn,
    ;
    assert(0 < 2 * base * turn) by (nonlinear_arith)
        requires
            base >= 1,
            turn >= 1,
    ;
}

/// `255 * n / d` rounded to the nearest byte.
fn to_byte(n: u128, d: u128) -> (v: u8)
    requires
        0 < d <= MAX_UNIT,
        n <= d,
    ensures
        v == byte_of(n as int, d as int),
{
    proof {
        lemma_byte_of_bound(n as int, d as int);
    }
    ((510 * n + d) / (2 * d)) as u8
}

/// The largest denominator of the shares that `hsl_to_raw_rgbf` returns.
pub const MAX_UNIT: u128 = 0x1_0000_0000_0000_0000_0000_0000_0000;

/// Converts hue `h`, in degrees, saturation `s` and lightness `l` to red,
/// green and blue as shares of one whole.
pub fn hsl_to_raw_rgbf(h: Ratio, s: Ratio, l: Ratio) -> (raw: RawRgb)
    requires
        0 < h.den <= MAX_DEN,
        s.unit(MAX_DEN),
        l.unit(MAX_LIGHTNESS_DEN),
    ensures
        raw@ == raw_rgb(h, s, l),
        0 < raw.unit <= MAX_UNIT,
        raw.r <= raw.unit,
        raw.g <= raw.unit,
        raw.b <= raw.unit,
{
    if s.num == 0 {
        return RawRgb {
            r: l.num as u128,
            g: l.num as u128,
            b: l.num as u128,
            unit: l.den as u128,
        };
    }
    let ln: u128 = l.num as u128;
    let ld: u128 = l.den as u128;
    let sn: u128 = s.num as u128;
    let sd: u128 = s.den as u128;
    let turn: u128 = 60 * (h.den as u128);
    let t: u128 = (h.num as u128) % (2 * turn);
    let rp: u128 = if t <= turn {
        t
    } else {
        2 * turn - t
    };
    let sp: u128 = if 2 * ln <= ld {
        2 * ln
    } else {
        2 * ld - 2 * ln
    };
    let ghost cap: int = 0x100_0000_0000int * 0x1_0000_0000int;
    proof {
        lemma_levels_in_order(h, s, l);
        lemma_product_bound(sp as int, sn as int, MAX_LIGHTNESS_DEN as int, MAX_DEN as int);
        lemma_product_bound(ln as int, sd as int, MAX_LIGHTNESS_DEN as int, MAX_DEN as int);
        lemma_product_bound(ld as int, sd as int, MAX_LIGHTNESS_DEN as int, MAX_DEN as int);
    }
    let c: u128 = sp * sn;
    let b: u128 = 2 * (ln * sd);
    let base: u128 = ld * sd;
    let m: u128 = b - c;
    proof {
        lemma_product_bound(2 * base as int, turn as int, 2 * cap, 60 * MAX_DEN as int);
        lemma_product_bound((c + b) as int, turn as int, 3 * cap, 60 * MAX_DEN as int);
        lemma_product_bound(2 * c as int, rp as int, 2 * cap, 60 * MAX_DEN as int);
        lemma_product_bound(m as int, turn as int, 2 * cap, 60 * MAX_DEN as int);
    }
    let unit: u128 = 2 * base * turn;
    let hi: u128 = (c + b) * turn;
    let mid: u128 = 2 * c * rp + m * turn;
    let lo: u128 = m * turn;
    let k: u128 = ((h.num as u128) / turn) % 6;
    if k == 0 {
        RawRgb { r: hi, g: mid, b: lo, unit }
    } else if k == 1 {
        RawRgb { r: mid, g: hi, b: lo, unit }
    } else if k == 2 {
        RawRgb { r: lo, g: hi, b: mid, unit }
    } else if k == 3 {
        RawRgb { r: lo, g: mid, b: hi, unit }
    } else if k == 4 {
        RawRgb { r: mid, g: lo, b: hi, unit }
    } else {
        RawRgb { r: hi, g: lo, b: mid, unit }
    }
}

/// Converts hue `h`, in degrees, saturation `s` and lightness `l` to red,
/// green and blue.
pub fn hsl_to_rgb(h: Ratio, s: Ratio, l: Ratio) -> (rgb: Rgb)
    requires
        0 < h.den <= MAX_DEN,
        s.unit(MAX_DEN),
        l.unit(MAX_LIGHTNESS_DEN),
    ensures
        rgb == hsl_rgb(h, s, l),
{
    let raw = hsl_to_raw_rgbf(h, s, l);
    Rgb {
        r: to_byte(raw.r, raw.unit),
        g: to_byte(raw.g, raw.unit),
        b: to_byte(raw.b, raw.unit),
    }
}

/// Converts hue, saturation and lightness to red, green and blue after
/// correcting the lightness for the hue.
pub fn corrected_hsl_to_rgb(h: Ratio, s: Ratio, l: Ratio) -> (rgb: Rgb)
    requires
        0 < h.den <= MAX_DEN,
        s.unit(MAX_DEN),
        l.unit(MAX_DEN),
    ensures
        rgb == corrected_hsl_rgb(h, s, l),
{
    let sixth: u128 = ((h.num as u128) / (60 * (h.den as u128))) % 6;
    let k: u64 = if sixth == 0 {
        55
    } else if sixth == 1 {
        50
    } else if sixth == 2 {
        50
    } else if sixth == 3 {
        46
    } else if sixth == 4 {
        60
    } else {
        55
    };
    let num: u64 = if 2 * l.num < l.den {
        proof {
            lemma_product_bound(2 * l.num as int, k as int, l.den as int, 100);
        }
        2 * l.num * k
    } else {
        proof {
            lemma_product_bound(k as int, l.den as int, k as int, l.den as int);
            lemma_product_bound(2 * l.num - l.den, 100 - k, l.den as int, 100 - k);
            assert(k * l.den + l.den * (100 - k) == 100 * l.den) by (nonlinear_arith);
        }
        k * l.den + (2 * l.num - l.den) * (100 - k)
    };
    hsl_to_rgb(h, s, Ratio { num, den: 100 * l.den })
}

} // verus!
