//! What an identicon is rendered with, and the builder that checks it.

use vstd::prelude::*;
use crate::color::Rgba;

verus! {

/// One whole in the unit of the configuration's fractions, the millionth.
pub const MILLION: i64 = 1_000_000;

/// The first hue, in millionths of a degree, that is no hue any more: 360
/// degrees.
pub const FULL_TURN: i64 = 360_000_000;

/// The largest padding, in millionths: one half.
pub const HALF: i64 = 500_000;

/// The largest size in pixels: the backend counts the pixels of the square
/// image in 32 bits.
pub const MAX_SIZE: u32 = 65_535;

/// A range of lightness from `start` to `end`, both in millionths.
#[derive(Clone, Copy, Debug, PartialEq, Eq, Structural)]
pub struct LightnessRange {
    pub start: i64,
    pub end: i64,
}

impl LightnessRange {
    /// The range from `start` to `end`.
    pub fn new(start: i64, end: i64) -> (range: LightnessRange)
        ensures
            range == (LightnessRange { start, end }),
    {
        LightnessRange { start, end }
    }

    /// Whether the range is no part of `[0, 1]`: it starts below 0 or ends
    /// above 1.
    pub open spec fn out_of_unit(self) -> bool {
        self.start < 0 || self.end > MILLION
    }

    /// Whether both ends lie in `[0, 1]`.
    pub open spec fn in_unit(self) -> bool {
        0 <= self.start <= MILLION && 0 <= self.end <= MILLION
    }
}

/// The settings of a rendering. Fractions are whole numbers of millionths:
/// 500000 is one half.
#[derive(Clone, Debug)]
pub struct Config {
    /// The only hues that an identicon may have, in millionths of a degree,
    /// each from 0 up to, not including, `FULL_TURN`. Where there is none,
    /// every hue may occur.
    pub hues: Vec<i64>,
    /// The lightness of coloured shapes, a part of `[0, 1]`.
    pub color_lightness: LightnessRange,
    /// The lightness of grey shapes, a part of `[0, 1]`.
    pub grayscale_lightness: LightnessRange,
    /// The saturation of coloured shapes, in `[0, 1]`.
    pub color_saturation: i64,
    /// The saturation of grey shapes, in `[0, 1]`.
    pub grayscale_saturation: i64,
    /// The colour behind the shapes.
    pub background_color: Rgba,
    /// The margin round the grid as a fraction of the size, in `[0, 1/2]`.
    pub padding: i64,
    /// The width and height of the image in pixels.
    pub size: u32,
}

/// A configuration as a value of mathematics: that of `Config`, field for
/// field, with the hues as a sequence.
pub struct ConfigView {
    pub hues: Seq<i64>,
    pub color_lightness: LightnessRange,
    pub grayscale_lightness: LightnessRange,
    pub color_saturation: i64,
    pub grayscale_saturation: i64,
    pub background_color: Rgba,
    pub padding: i64,
    pub size: u32,
}

impl View for Config {
    type V = ConfigView;

    open spec fn view(&self) -> ConfigView {
        ConfigView {
            hues: self.hues@,
            color_lightness: self.color_lightness,
            grayscale_lightness: self.grayscale_lightness,
            color_saturation: self.color_saturation,
            grayscale_saturation: self.grayscale_saturation,
            background_color: self.background_color,
            padding: self.padding,
            size: self.size,
        }
    }
}

/// Why a configuration was not built.
#[derive(Clone, Copy, Debug, PartialEq, Eq, Structural)]
pub enum ConfigBuilderError {
    /// A hue is not within `[0, 360)` degrees.
    InvalidHues,
    /// The lightness of colours is no part of `[0, 1]`.
    InvalidColorLightness,
    /// The lightness of greys is no part of `[0, 1]`.
    InvalidGrayscaleLightness,
    /// The saturation of colours is not within `[0, 1]`.
    InvalidColorSaturation,
    /// The saturation of greys is not within `[0, 1]`.
    InvalidGrayscaleSaturation,
    /// The padding is not within `[0, 1/2]`.
    InvalidPadding,
}

impl ConfigBuilderError {
    /// The sentence that `message` returns.
    pub open spec fn text(self) -> Seq<char> {
        match self {
            ConfigBuilderError::InvalidHues => "hues must be within the range [0.0, 360.0)"@,
            ConfigBuilderError::InvalidColorLightness =>
                "color lightness must be within the range 0.0..=1.0"@,
            ConfigBuilderError::InvalidGrayscaleLightness =>
                "grayscale lightness must be within the range 0.0..=1.0"@,
            ConfigBuilderError::InvalidColorSaturation =>
                "color saturation must be within the range [0.0, 1.0]"@,
            ConfigBuilderError::InvalidGrayscaleSaturation =>
                "grayscale saturation must be within the range [0.0, 1.0]"@,
            ConfigBuilderError::InvalidPadding => "padding must be within the range [0.0, 0.5]"@,
        }
    }

    /// The error in words.
    pub fn message(&self) -> (s: String)
        ensures
            s@ == self.text(),
    {
        match self {
            ConfigBuilderError::InvalidHues => String::from_str(
                "hues must be within the range [0.0, 360.0)",
            ),
            ConfigBuilderError::InvalidColorLightness => String::from_str(
                "color lightness must be within the range 0.0..=1.0",
            ),
            ConfigBuilderError::InvalidGrayscaleLightness => String::from_str(
                "grayscale lightness must be within the range 0.0..=1.0",
            ),
            ConfigBuilderError::InvalidColorSaturation => String::from_str(
                "color saturation must be within the range [0.0, 1.0]",
            ),
            ConfigBuilderError::InvalidGrayscaleSaturation => String::from_str(
                "grayscale saturation must be within the range [0.0, 1.0]",
            ),
            ConfigBuilderError::InvalidPadding => String::from_str(
                "padding must be within the range [0.0, 0.5]",
            ),
        }
    }
}

/// Whether `hue`, in millionths of a degree, lies in `[0, 360)` degrees.
pub open spec fn is_hue(hue: i64) -> bool {
    0 <= hue < FULL_TURN
}

/// Whether `value`, in millionths, lies in `[0, 1]`.
pub open spec fn is_fraction(value: i64) -> bool {
    0 <= value <= MILLION
}

impl ConfigView {
    /// Whether every hue of the configuration is one.
    pub open spec fn hues_valid(self) -> bool {
        forall|i: int| 0 <= i < self.hues.len() ==> is_hue(#[trigger] self.hues[i])
    }

    /// The first fault that `build` finds, in the order in which it checks:
    /// the hues, the lightness of colours and of greys, the saturation of
    /// colours and of greys, the padding.
    pub open spec fn fault(self) -> Option<ConfigBuilderError> {
        if !self.hues_valid() {
            Some(ConfigBuilderError::InvalidHues)
        } else if self.color_lightness.out_of_unit() {
            Some(ConfigBuilderError::InvalidColorLightness)
        } else if self.grayscale_lightness.out_of_unit() {
            Some(ConfigBuilderError::InvalidGrayscaleLightness)
        } else if !is_fraction(self.color_saturation) {
            Some(ConfigBuilderError::InvalidColorSaturation)
        } else if !is_fraction(self.grayscale_saturation) {
            Some(ConfigBuilderError::InvalidGrayscaleSaturation)
        } else if !(0 <= self.padding <= HALF) {
            Some(ConfigBuilderError::InvalidPadding)
        } else {
            None
        }
    }

    /// Whether an identicon can be rendered with the configuration: `build`
    /// finds no fault in it, both ends of each lightness range lie in
    /// `[0, 1]`, and the size is at least 1 and at most `MAX_SIZE`.
    pub open spec fn renderable(self) -> bool {
        &&& self.fault() is None
        &&& self.color_lightness.in_unit()
        &&& self.grayscale_lightness.in_unit()
        &&& 0 < self.size <= MAX_SIZE
    }

    /// The configuration by default: every hue, colours of a lightness from
    /// 0.4 to 0.8 and a saturation of 0.5, greys of a lightness from 0.3 to
    /// 0.9 without saturation, on white, with a padding of 0.08, at 256
    /// pixels.
    pub open spec fn initial() -> ConfigView {
        ConfigView {
            hues: Seq::empty(),
            color_lightness: LightnessRange { start: 400_000, end: 800_000 },
            grayscale_lightness: LightnessRange { start: 300_000, end: 900_000 },
            color_saturation: 500_000,
            grayscale_saturation: 0,
            background_color: Rgba { r: 255, g: 255, b: 255, a: 255 },
            padding: 80_000,
            size: 256,
        }
    }

}

/// A configuration in which `build` finds no fault can be rendered where
/// neither range of lightness ends before it starts and the size is at least
/// 1 and at most `MAX_SIZE`.
pub proof fn lemma_built_is_renderable(c: ConfigView)
    requires
        c.fault() is None,
        c.color_lightness.start <= c.color_lightness.end,
        c.grayscale_lightness.start <= c.grayscale_lightness.end,
        0 < c.size <= MAX_SIZE,
    ensures
        c.renderable(),
{
}

impl Config {
    /// Whether an identicon can be rendered with the configuration.
    pub fn can_render(&self) -> (ok: bool)
        ensures
            ok == self@.renderable(),
    {
        let mut i: usize = 0;
        while i < self.hues.len()
            invariant
                i <= self.hues@.len(),
                forall|k: int| 0 <= k < i ==> is_hue(#[trigger] self.hues@[k]),
            decreases self.hues@.len() - i,
        {
            let hue = self.hues[i];
            if hue < 0 || hue >= FULL_TURN {
                assert(!is_hue(self@.hues[i as int]));
                return false;
            }
            i = i + 1;
        }
        let color = self.color_lightness;
        let gray = self.grayscale_lightness;
        0 <= color.start && color.start <= MILLION && 0 <= color.end && color.end <= MILLION && 0
            <= gray.start && gray.start <= MILLION && 0 <= gray.end && gray.end <= MILLION && 0
            <= self.color_saturation && self.color_saturation <= MILLION && 0
            <= self.grayscale_saturation && self.grayscale_saturation <= MILLION && 0
            <= self.padding && self.padding <= HALF && 0 < self.size && self.size <= MAX_SIZE
    }

    /// A builder that starts from the default configuration.
    pub fn builder() -> (b: ConfigBuilder)
        ensures
            b@ == ConfigView::initial(),
    {
        ConfigBuilder { config: Config::default() }
    }
}

impl Default for Config {
    fn default() -> (c: Config)
        ensures
            c@ == ConfigView::initial(),
    {
        Config {
            hues: Vec::new(),
            color_lightness: LightnessRange { start: 400_000, end: 800_000 },
            grayscale_lightness: LightnessRange { start: 300_000, end: 900_000 },
            color_saturation: 500_000,
            grayscale_saturation: 0,
            background_color: Rgba::white(),
            padding: 80_000,
            size: 256,
        }
    }
}

/// A configuration in the making.
pub struct ConfigBuilder {
    config: Config,
}

impl View for ConfigBuilder {
    type V = ConfigView;

    /// The configuration as it stands.
    closed spec fn view(&self) -> ConfigView {
        self.config@
    }
}

impl ConfigBuilder {
    /// Sets the hues that an identicon may have, in millionths of a degree.
    pub fn hues(self, hues: Vec<i64>) -> (b: ConfigBuilder)
        ensures
            b@ == (ConfigView { hues: hues@, ..self@ }),
    {
        let mut config = self.config;
        config.hues = hues;
        ConfigBuilder { config }
    }

    /// Sets the lightness of coloured shapes.
    pub fn color_lightness(self, lightness: LightnessRange) -> (b: ConfigBuilder)
        ensures
            b@ == (ConfigView { color_lightness: lightness, ..self@ }),
    {
        let mut config = self.config;
        config.color_lightness = lightness;
        ConfigBuilder { config }
    }

    /// Sets the lightness of grey shapes.
    pub fn grayscale_lightness(self, lightness: LightnessRange) -> (b: ConfigBuilder)
        ensures
            b@ == (ConfigView { grayscale_lightness: lightness, ..self@ }),
    {
        let mut config = self.config;
        config.grayscale_lightness = lightness;
        ConfigBuilder { config }
    }

    /// Sets the saturation of coloured shapes, in millionths.
    pub fn color_saturation(self, saturation: i64) -> (b: ConfigBuilder)
        ensures
            b@ == (ConfigView { color_saturation: saturation, ..self@ }),
    {
        let mut config = self.config;
        config.color_saturation = saturation;
        ConfigBuilder { config }
    }

    /// Sets the saturation of grey shapes, in millionths.
    pub fn grayscale_saturation(self, saturation: i64) -> (b: ConfigBuilder)
        ensures
            b@ == (ConfigView { grayscale_saturation: saturation, ..self@ }),
    {
        let mut config = self.config;
        config.grayscale_saturation = saturation;
        ConfigBuilder { config }
    }

    /// Sets the colour behind the shapes.
    pub fn background_color(self, color: Rgba) -> (b: ConfigBuilder)
        ensures
            b@ == (ConfigView { background_color: color, ..self@ }),
    {
        let mut config = self.config;
        config.background_color = color;
        ConfigBuilder { config }
    }

    /// Sets the padding, in millionths of the size.
    pub fn padding(self, padding: i64) -> (b: ConfigBuilder)
        ensures
            b@ == (ConfigView { padding, ..self@ }),
    {
        let mut config = self.config;
        config.padding = padding;
        ConfigBuilder { config }
    }

    /// Sets the size in pixels.
    pub fn size(self, size: u32) -> (b: ConfigBuilder)
        ensures
            b@ == (ConfigView { size, ..self@ }),
    {
        let mut config = self.config;
        config.size = size;
        ConfigBuilder { config }
    }

    /// The configuration, unless it has a fault: then the first one, in the
    /// order of `ConfigView::fault`.
    pub fn build(self) -> (r: Result<Config, ConfigBuilderError>)
        ensures
            match self@.fault() {
                Some(e) => r == Err::<Config, ConfigBuilderError>(e),
                None => r matches Ok(c) && c@ == self@,
            },
    {
        let config = self.config;
        let mut i: usize = 0;
        while i < config.hues.len()
            invariant
                i <= config.hues@.len(),
                config@ == self@,
                forall|k: int| 0 <= k < i ==> is_hue(#[trigger] config.hues@[k]),
            decreases config.hues@.len() - i,
        {
            let hue = config.hues[i];
            if hue < 0 || hue >= FULL_TURN {
                assert(!is_hue(config@.hues[i as int]));
                return Err(ConfigBuilderError::InvalidHues);
            }
            i = i + 1;
        }
        if config.color_lightness.start < 0 || config.color_lightness.end > MILLION {
            return Err(ConfigBuilderError::InvalidColorLightness);
        }
        if config.grayscale_lightness.start < 0 || config.grayscale_lightness.end > MILLION {
            return Err(ConfigBuilderError::InvalidGrayscaleLightness);
        }
        if config.color_saturation < 0 || config.color_saturation > MILLION {
            return Err(ConfigBuilderError::InvalidColorSaturation);
        }
        if config.grayscale_saturation < 0 || config.grayscale_saturation > MILLION {
            return Err(ConfigBuilderError::InvalidGrayscaleSaturation);
        }
        if config.padding < 0 || config.padding > HALF {
            return Err(ConfigBuilderError::InvalidPadding);
        }
        Ok(config)
    }
}

} // verus!
