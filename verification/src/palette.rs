//! The five colours of an identicon, derived from one hue and the
//! configured saturations and ranges of lightness.

use vstd::prelude::*;
use crate::color::Rgba;
use crate::config::{Config, ConfigView, LightnessRange, MILLION};
use crate::hsl::{corrected_hsl_rgb, corrected_hsl_to_rgb, lemma_product_bound, Ratio, MAX_DEN};

verus! {

/// The largest denominator of a relative lightness.
pub const MAX_STEPS: u64 = 4096;

/// The colours that the shapes of an identicon choose from.
#[derive(Clone, Copy, Debug)]
pub struct ColorCandidates {
    pub light_gray: Rgba,
    pub dark_gray: Rgba,
    pub light_color: Rgba,
    pub mid_color: Rgba,
    pub dark_color: Rgba,
}

impl ColorCandidates {
    /// The colour with the given index: dark grey, middle colour, light
    /// grey, light colour, and dark colour for 4 and above.
    pub open spec fn at(self, index: int) -> Rgba {
        if index == 0 {
            self.dark_gray
        } else if index == 1 {
            self.mid_color
        } else if index == 2 {
            self.light_gray
        } else if index == 3 {
            self.light_color
        } else {
            self.dark_color
        }
    }

    /// The colour with the given index.
    pub fn get_from_rotation_index(&self, index: usize) -> (color: Rgba)
        ensures
            color == self.at(index as int),
    {
        if index == 0 {
            self.dark_gray
        } else if index == 1 {
            self.mid_color
        } else if index == 2 {
            self.light_gray
        } else if index == 3 {
            self.light_color
        } else {
            self.dark_color
        }
    }
}

/// The place in a list of `count` hues that the hue `hue`, in degrees, picks:
/// `hue / 360 * count` rounded down, and the last place from 360 degrees on.
pub open spec fn hue_index(hue: Ratio, count: int) -> int {
    let i = (hue.num * count) / (360 * hue.den);
    if i >= count {
        count - 1
    } else {
        i
    }
}

/// A fraction of millionths.
pub open spec fn millionths(value: i64) -> Ratio {
    Ratio { num: value as u64, den: MILLION as u64 }
}

/// The lightness at the share `v` of the way from the start of the range to
/// its end: `start + (end - start) * v`.
pub open spec fn resolved_lightness(range: LightnessRange, v: Ratio) -> Ratio {
    Ratio {
        num: (range.start * (v.den - v.num) + range.end * v.num) as u64,
        den: (MILLION * v.den) as u64,
    }
}

impl ConfigView {
    /// The hue that an identicon of hue `hue`, in degrees, gets: the same
    /// where every hue may occur, and else the one that it picks of the
    /// configured hues.
    pub open spec fn resolved_hue(self, hue: Ratio) -> Ratio {
        if self.hues.len() == 0 {
            hue
        } else {
            millionths(self.hues[hue_index(hue, self.hues.len() as int)])
        }
    }

    /// The colour of the resolved hue at the given saturation and at the
    /// share `v` of the range of lightness, corrected for the hue and
    /// opaque.
    pub open spec fn shade(self, hue: Ratio, saturation: i64, range: LightnessRange, v: Ratio)
        -> Rgba {
        corrected_hsl_rgb(
            self.resolved_hue(hue),
            millionths(saturation),
            resolved_lightness(range, v),
        ).opaque()
    }

    /// The five colours of an identicon of hue `hue`: the greys at the ends
    /// of their range of lightness, the colours at the ends and in the
    /// middle of theirs.
    pub open spec fn palette(self, hue: Ratio) -> ColorCandidates {
        let darkest = Ratio { num: 0, den: 1 };
        let middle = Ratio { num: 1, den: 2 };
        let lightest = Ratio { num: 1, den: 1 };
        ColorCandidates {
            light_gray: self.shade(
                hue,
                self.grayscale_saturation,
                self.grayscale_lightness,
                lightest,
            ),
            dark_gray: self.shade(hue, self.grayscale_saturation, self.grayscale_lightness, darkest),
            light_color: self.shade(hue, self.color_saturation, self.color_lightness, lightest),
            mid_color: self.shade(hue, self.color_saturation, self.color_lightness, middle),
            dark_color: self.shade(hue, self.color_saturation, self.color_lightness, darkest),
        }
    }
}

/// A lightness between the two ends of a range within `[0, 1]` lies in
/// `[0, 1]` itself.
proof fn lemma_resolved_in_unit(range: LightnessRange, v: Ratio)
    requires
        range.in_unit(),
        v.unit(MAX_STEPS),
    ensures
        0 <= range.start * (v.den - v.num) <= MILLION * (v.den - v.num),
        0 <= range.end * v.num <= MILLION * v.num,
        range.start * (v.den - v.num) + range.end * v.num <= MILLION * v.den,
        resolved_lightness(range, v).unit(MAX_DEN),
{
    lemma_product_bound(range.start as int, v.den - v.num, MILLION as int, v.den - v.num);
    lemma_product_bound(range.end as int, v.num as int, MILLION as int, v.num as int);
    assert(MILLION * (v.den - v.num) + MILLION * v.num == MILLION * v.den) by (nonlinear_arith);
}

impl Config {
    /// The hue that an identicon of hue `hue`, in degrees, gets.
    pub fn resolve_hue(&self, hue: Ratio) -> (h: Ratio)
        requires
            self@.hues_valid(),
            0 < hue.den <= MAX_DEN,
        ensures
            h == self@.resolved_hue(hue),
            0 < h.den <= MAX_DEN,
    {
        let count = self.hues.len();
        if count == 0 {
            hue
        } else {
            let full: u128 = 360 * (hue.den as u128);
            proof {
                lemma_product_bound(
                    hue.num as int,
                    count as int,
                    u64::MAX as int,
                    u64::MAX as int,
                );
            }
            let place: u128 = (hue.num as u128 * count as u128) / full;
            let index: usize = if place >= count as u128 {
                count - 1
            } else {
                place as usize
            };
            Ratio { num: self.hues[index] as u64, den: MILLION as u64 }
        }
    }

    /// The lightness of a colour at the share `lightness` of the configured
    /// range.
    pub fn resolve_color_lightness(&self, lightness: Ratio) -> (l: Ratio)
        requires
            self@.color_lightness.in_unit(),
            lightness.unit(MAX_STEPS),
        ensures
            l == resolved_lightness(self@.color_lightness, lightness),
            l.unit(MAX_DEN),
    {
        resolve_lightness(self.color_lightness, lightness)
    }

    /// The lightness of a grey at the share `lightness` of the configured
    /// range.
    pub fn resolve_grayscale_lightness(&self, lightness: Ratio) -> (l: Ratio)
        requires
            self@.grayscale_lightness.in_unit(),
            lightness.unit(MAX_STEPS),
        ensures
            l == resolved_lightness(self@.grayscale_lightness, lightness),
            l.unit(MAX_DEN),
    {
        resolve_lightness(self.grayscale_lightness, lightness)
    }

    /// The five colours of an identicon of hue `hue`, in degrees.
    pub fn color_candidates(&self, hue: Ratio) -> (colors: ColorCandidates)
        requires
            self@.renderable(),
            0 < hue.den <= MAX_DEN,
        ensures
            colors == self@.palette(hue),
    {
        let hue = self.resolve_hue(hue);
        let gray = Ratio { num: self.grayscale_saturation as u64, den: MILLION as u64 };
        let color = Ratio { num: self.color_saturation as u64, den: MILLION as u64 };
        let darkest = Ratio { num: 0, den: 1 };
        let middle = Ratio { num: 1, den: 2 };
        let lightest = Ratio { num: 1, den: 1 };
        ColorCandidates {
            light_gray: corrected_hsl_to_rgb(
                hue,
                gray,
                self.resolve_grayscale_lightness(lightest),
            ).into_rgba(),
            dark_gray: corrected_hsl_to_rgb(
                hue,
                gray,
                self.resolve_grayscale_lightness(darkest),
            ).into_rgba(),
            light_color: corrected_hsl_to_rgb(
                hue,
                color,
                self.resolve_color_lightness(lightest),
            ).into_rgba(),
            mid_color: corrected_hsl_to_rgb(
                hue,
                color,
                self.resolve_color_lightness(middle),
            ).into_rgba(),
            dark_color: corrected_hsl_to_rgb(
                hue,
                color,
                self.resolve_color_lightness(darkest),
            ).into_rgba(),
        }
    }
}

/// The lightness at the share `v` of the way through `range`.
fn resolve_lightness(range: LightnessRange, v: Ratio) -> (l: Ratio)
    requires
        range.in_unit(),
        v.unit(MAX_STEPS),
    ensures
        l == resolved_lightness(range, v),
        l.unit(MAX_DEN),
{
    proof {
        lemma_resolved_in_unit(range, v);
    }
    let start = range.start as u64;
    let end = range.end as u64;
    Ratio { num: start * (v.den - v.num) + end * v.num, den: MILLION as u64 * v.den }
}

} // verus!
