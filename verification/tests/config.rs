use rdenticon::config::{Config, ConfigBuilderError, LightnessRange};
use rdenticon::Rgba;

#[test]
fn defaults() {
    let config = Config::default();
    assert!(config.hues.is_empty());
    assert_eq!(config.color_lightness, LightnessRange::new(400_000, 800_000));
    assert_eq!(config.grayscale_lightness, LightnessRange::new(300_000, 900_000));
    assert_eq!(config.color_saturation, 500_000);
    assert_eq!(config.grayscale_saturation, 0);
    assert_eq!(config.background_color, Rgba::white());
    assert_eq!(config.padding, 80_000);
    assert_eq!(config.size, 256);
    assert!(config.can_render());
}

#[test]
fn builder_starts_from_the_defaults() {
    let config = Config::builder().build().expect("valid config");
    let default = Config::default();
    assert_eq!(config.hues, default.hues);
    assert_eq!(config.color_lightness, default.color_lightness);
    assert_eq!(config.grayscale_lightness, default.grayscale_lightness);
    assert_eq!(config.color_saturation, default.color_saturation);
    assert_eq!(config.grayscale_saturation, default.grayscale_saturation);
    assert_eq!(config.background_color, default.background_color);
    assert_eq!(config.padding, default.padding);
    assert_eq!(config.size, default.size);
}

#[test]
fn builder_sets_each_field() {
    let config = Config::builder()
        .hues(vec![0, 90_000_000, 359_999_999])
        .color_lightness(LightnessRange::new(100_000, 200_000))
        .grayscale_lightness(LightnessRange::new(0, 1_000_000))
        .color_saturation(1_000_000)
        .grayscale_saturation(250_000)
        .background_color(Rgba::transparent())
        .padding(500_000)
        .size(17)
        .build()
        .expect("valid config");
    assert_eq!(config.hues, vec![0, 90_000_000, 359_999_999]);
    assert_eq!(config.color_lightness, LightnessRange::new(100_000, 200_000));
    assert_eq!(config.grayscale_lightness, LightnessRange::new(0, 1_000_000));
    assert_eq!(config.color_saturation, 1_000_000);
    assert_eq!(config.grayscale_saturation, 250_000);
    assert_eq!(config.background_color, Rgba::new(0, 0, 0, 0));
    assert_eq!(config.padding, 500_000);
    assert_eq!(config.size, 17);
    assert!(config.can_render());
}

#[test]
fn invalid_hues() {
    let error = |hues: Vec<i64>| Config::builder().hues(hues).build().err();
    assert_eq!(error(vec![360_000_000]), Some(ConfigBuilderError::InvalidHues));
    assert_eq!(error(vec![-1]), Some(ConfigBuilderError::InvalidHues));
    assert_eq!(error(vec![0, 10, 400_000_000, 20]), Some(ConfigBuilderError::InvalidHues));
    assert_eq!(error(vec![i64::MIN]), Some(ConfigBuilderError::InvalidHues));
    assert_eq!(error(vec![i64::MAX]), Some(ConfigBuilderError::InvalidHues));
    assert_eq!(error(vec![0, 359_999_999]), None);
    assert_eq!(error(vec![]), None);
}

#[test]
fn invalid_color_lightness() {
    let error = |start: i64, end: i64| {
        Config::builder()
            .color_lightness(LightnessRange::new(start, end))
            .build()
            .err()
    };
    assert_eq!(error(-1, 500_000), Some(ConfigBuilderError::InvalidColorLightness));
    assert_eq!(error(500_000, 1_000_001), Some(ConfigBuilderError::InvalidColorLightness));
    assert_eq!(error(-5, 2_000_000), Some(ConfigBuilderError::InvalidColorLightness));
    assert_eq!(error(0, 1_000_000), None);
}

#[test]
fn invalid_grayscale_lightness() {
    let error = |start: i64, end: i64| {
        Config::builder()
            .grayscale_lightness(LightnessRange::new(start, end))
            .build()
            .err()
    };
    assert_eq!(error(-1, 500_000), Some(ConfigBuilderError::InvalidGrayscaleLightness));
    assert_eq!(error(500_000, 1_000_001), Some(ConfigBuilderError::InvalidGrayscaleLightness));
    assert_eq!(error(0, 1_000_000), None);
}

#[test]
fn invalid_saturations() {
    let color = |s: i64| Config::builder().color_saturation(s).build().err();
    assert_eq!(color(-1), Some(ConfigBuilderError::InvalidColorSaturation));
    assert_eq!(color(1_000_001), Some(ConfigBuilderError::InvalidColorSaturation));
    assert_eq!(color(0), None);
    assert_eq!(color(1_000_000), None);
    let gray = |s: i64| Config::builder().grayscale_saturation(s).build().err();
    assert_eq!(gray(-1), Some(ConfigBuilderError::InvalidGrayscaleSaturation));
    assert_eq!(gray(1_000_001), Some(ConfigBuilderError::InvalidGrayscaleSaturation));
    assert_eq!(gray(0), None);
    assert_eq!(gray(1_000_000), None);
}

#[test]
fn invalid_padding() {
    let error = |p: i64| Config::builder().padding(p).build().err();
    assert_eq!(error(-1), Some(ConfigBuilderError::InvalidPadding));
    assert_eq!(error(500_001), Some(ConfigBuilderError::InvalidPadding));
    assert_eq!(error(0), None);
    assert_eq!(error(500_000), None);
}

#[test]
fn first_fault_in_the_order_of_the_checks() {
    let all_wrong = || {
        Config::builder()
            .hues(vec![-1])
            .color_lightness(LightnessRange::new(-1, 0))
            .grayscale_lightness(LightnessRange::new(0, 2_000_000))
            .color_saturation(-1)
            .grayscale_saturation(-1)
            .padding(-1)
    };
    assert_eq!(all_wrong().build().err(), Some(ConfigBuilderError::InvalidHues));
    assert_eq!(
        all_wrong().hues(vec![]).build().err(),
        Some(ConfigBuilderError::InvalidColorLightness)
    );
    assert_eq!(
        all_wrong()
            .hues(vec![])
            .color_lightness(LightnessRange::new(0, 0))
            .build()
            .err(),
        Some(ConfigBuilderError::InvalidGrayscaleLightness)
    );
    assert_eq!(
        all_wrong()
            .hues(vec![])
            .color_lightness(LightnessRange::new(0, 0))
            .grayscale_lightness(LightnessRange::new(0, 0))
            .build()
            .err(),
        Some(ConfigBuilderError::InvalidColorSaturation)
    );
    assert_eq!(
        all_wrong()
            .hues(vec![])
            .color_lightness(LightnessRange::new(0, 0))
            .grayscale_lightness(LightnessRange::new(0, 0))
            .color_saturation(0)
            .build()
            .err(),
        Some(ConfigBuilderError::InvalidGrayscaleSaturation)
    );
    assert_eq!(
        all_wrong()
            .hues(vec![])
            .color_lightness(LightnessRange::new(0, 0))
            .grayscale_lightness(LightnessRange::new(0, 0))
            .color_saturation(0)
            .grayscale_saturation(0)
            .build()
            .err(),
        Some(ConfigBuilderError::InvalidPadding)
    );
}

#[test]
fn size_is_not_checked_by_the_builder() {
    let zero = Config::builder().size(0).build().expect("built");
    assert!(!zero.can_render());
    let large = Config::builder().size(65_536).build().expect("built");
    assert!(!large.can_render());
    let largest = Config::builder().size(65_535).build().expect("built");
    assert!(largest.can_render());
}

#[test]
fn a_range_that_ends_before_it_starts_is_built() {
    let turned = Config::builder()
        .color_lightness(LightnessRange::new(900_000, 100_000))
        .build()
        .expect("built");
    assert!(turned.can_render());
    let beyond = Config::builder()
        .color_lightness(LightnessRange::new(1_500_000, 500_000))
        .build()
        .expect("built");
    assert!(!beyond.can_render());
}

#[test]
fn unchecked_configurations_are_told_apart() {
    let mut config = Config::default();
    config.padding = 600_000;
    assert!(!config.can_render());
    let mut config = Config::default();
    config.hues = vec![360_000_000];
    assert!(!config.can_render());
    let mut config = Config::default();
    config.grayscale_saturation = -1;
    assert!(!config.can_render());
}

#[test]
fn messages() {
    assert_eq!(
        ConfigBuilderError::InvalidHues.message(),
        "hues must be within the range [0.0, 360.0)"
    );
    assert_eq!(
        ConfigBuilderError::InvalidColorLightness.message(),
        "color lightness must be within the range 0.0..=1.0"
    );
    assert_eq!(
        ConfigBuilderError::InvalidGrayscaleLightness.message(),
        "grayscale lightness must be within the range 0.0..=1.0"
    );
    assert_eq!(
        ConfigBuilderError::InvalidColorSaturation.message(),
        "color saturation must be within the range [0.0, 1.0]"
    );
    assert_eq!(
        ConfigBuilderError::InvalidGrayscaleSaturation.message(),
        "grayscale saturation must be within the range [0.0, 1.0]"
    );
    assert_eq!(
        ConfigBuilderError::InvalidPadding.message(),
        "padding must be within the range [0.0, 0.5]"
    );
}
