use rdenticon::config::{Config, LightnessRange};
use rdenticon::hsl::Ratio;
use rdenticon::palette::ColorCandidates;
use rdenticon::Rgba;

fn opaque(r: u8, g: u8, b: u8) -> Rgba {
    Rgba::new(r, g, b, 255)
}

#[test]
fn default_palette_at_hue_zero() {
    let colors = Config::default().color_candidates(Ratio::new(0, 0xfff_ffff));
    assert_eq!(colors.dark_gray, opaque(84, 84, 84));
    assert_eq!(colors.mid_color, opaque(209, 117, 117));
    assert_eq!(colors.light_gray, opaque(232, 232, 232));
    assert_eq!(colors.light_color, opaque(232, 186, 186));
    assert_eq!(colors.dark_color, opaque(168, 56, 56));
}

#[test]
fn default_palette_of_the_sample() {
    let hue = Ratio::new(360 * 234_729_993, 0xfff_ffff);
    let colors = Config::default().color_candidates(hue);
    assert_eq!(colors.dark_gray, opaque(84, 84, 84));
    assert_eq!(colors.mid_color, opaque(209, 117, 186));
    assert_eq!(colors.light_gray, opaque(232, 232, 232));
    assert_eq!(colors.light_color, opaque(232, 186, 221));
    assert_eq!(colors.dark_color, opaque(168, 56, 141));
}

#[test]
fn indices_of_the_palette() {
    let colors = ColorCandidates {
        light_gray: opaque(1, 0, 0),
        dark_gray: opaque(2, 0, 0),
        light_color: opaque(3, 0, 0),
        mid_color: opaque(4, 0, 0),
        dark_color: opaque(5, 0, 0),
    };
    assert_eq!(colors.get_from_rotation_index(0), colors.dark_gray);
    assert_eq!(colors.get_from_rotation_index(1), colors.mid_color);
    assert_eq!(colors.get_from_rotation_index(2), colors.light_gray);
    assert_eq!(colors.get_from_rotation_index(3), colors.light_color);
    assert_eq!(colors.get_from_rotation_index(4), colors.dark_color);
    assert_eq!(colors.get_from_rotation_index(5), colors.dark_color);
    assert_eq!(colors.get_from_rotation_index(usize::MAX), colors.dark_color);
}

#[test]
fn hue_is_kept_where_none_is_configured() {
    let config = Config::default();
    let hue = config.resolve_hue(Ratio::new(123, 7));
    assert_eq!((hue.num, hue.den), (123, 7));
}

#[test]
fn hue_picks_from_the_configured_ones() {
    let mut config = Config::default();
    config.hues = vec![10_000_000, 130_000_000, 250_000_000];
    let picked = |num: u64, den: u64| {
        let hue = config.resolve_hue(Ratio::new(num, den));
        assert_eq!(hue.den, 1_000_000);
        hue.num
    };
    assert_eq!(picked(0, 1), 10_000_000);
    assert_eq!(picked(119, 1), 10_000_000);
    assert_eq!(picked(1199, 10), 10_000_000);
    assert_eq!(picked(120, 1), 130_000_000);
    assert_eq!(picked(239, 1), 130_000_000);
    assert_eq!(picked(240, 1), 250_000_000);
    assert_eq!(picked(359, 1), 250_000_000);
    // A full turn and more pick the last one.
    assert_eq!(picked(360, 1), 250_000_000);
    assert_eq!(picked(360 * 0xfff_ffff, 0xfff_ffff), 250_000_000);
    assert_eq!(picked(100_000, 1), 250_000_000);
}

#[test]
fn lightness_between_the_ends_of_the_range() {
    let mut config = Config::default();
    config.color_lightness = LightnessRange::new(400_000, 800_000);
    config.grayscale_lightness = LightnessRange::new(300_000, 900_000);
    let value = |r: Ratio| (r.num, r.den);
    assert_eq!(value(config.resolve_color_lightness(Ratio::new(0, 1))), (400_000, 1_000_000));
    assert_eq!(value(config.resolve_color_lightness(Ratio::new(1, 1))), (800_000, 1_000_000));
    assert_eq!(value(config.resolve_color_lightness(Ratio::new(1, 2))), (1_200_000, 2_000_000));
    assert_eq!(value(config.resolve_color_lightness(Ratio::new(1, 4))), (2_000_000, 4_000_000));
    assert_eq!(value(config.resolve_grayscale_lightness(Ratio::new(0, 1))), (300_000, 1_000_000));
    assert_eq!(value(config.resolve_grayscale_lightness(Ratio::new(1, 1))), (900_000, 1_000_000));
    assert_eq!(
        value(config.resolve_grayscale_lightness(Ratio::new(2, 3))),
        (2_100_000, 3_000_000)
    );
}

#[test]
fn palette_of_a_configured_hue() {
    let mut config = Config::default();
    config.hues = vec![120_000_000, 240_000_000];
    let first = config.color_candidates(Ratio::new(10, 1));
    assert_eq!(first.dark_gray, opaque(77, 77, 77));
    assert_eq!(first.mid_color, opaque(102, 204, 102));
    assert_eq!(first.light_gray, opaque(230, 230, 230));
    assert_eq!(first.light_color, opaque(179, 230, 179));
    assert_eq!(first.dark_color, opaque(51, 153, 51));
    let second = config.color_candidates(Ratio::new(200, 1));
    assert_eq!(second.dark_gray, opaque(92, 92, 92));
    assert_eq!(second.mid_color, opaque(133, 133, 214));
    assert_eq!(second.light_gray, opaque(235, 235, 235));
    assert_eq!(second.light_color, opaque(194, 194, 235));
    assert_eq!(second.dark_color, opaque(61, 61, 184));
}
