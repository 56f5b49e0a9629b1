use rdenticon::canvas::Image;
use rdenticon::config::{Config, LightnessRange};
use rdenticon::render::{generate_identicon, render_identicon};
use rdenticon::Rgba;

fn pixels(image: &Image) -> Vec<Rgba> {
    let mut all = Vec::new();
    for y in 0..image.height() {
        for x in 0..image.width() {
            all.push(image.pixel(x, y).expect("pixel within the image"));
        }
    }
    all
}

fn to_ril(image: &Image) -> ril::Image<ril::Rgba> {
    let mut out = ril::Image::new(image.width(), image.height(), ril::Rgba::transparent());
    for y in 0..image.height() {
        for x in 0..image.width() {
            let p = image.pixel(x, y).expect("pixel within the image");
            out.set_pixel(x, y, ril::Rgba::new(p.r, p.g, p.b, p.a));
        }
    }
    out
}

fn sized(size: u32, padding: i64) -> Config {
    let config = Config::builder()
        .size(size)
        .padding(padding)
        .build()
        .expect("valid config");
    assert!(config.can_render());
    config
}

fn hash_of_nibbles(nibbles: [u8; 40]) -> [u8; 20] {
    let mut hash = [0u8; 20];
    for i in 0..20 {
        hash[i] = (nibbles[2 * i] << 4) | nibbles[2 * i + 1];
    }
    hash
}

#[test]
fn test_rdenticon() {
    let config = Config::builder()
        .size(512)
        .padding(100_000)
        .background_color(Rgba::white())
        .build()
        .expect("invalid config");

    let image = generate_identicon("sample", &config);
    assert_eq!(image.width(), 512);
    assert_eq!(image.height(), 512);

    let format = ril::ImageFormat::from_path("identicon.png").expect("a known extension");
    let mut encoded = Vec::new();
    to_ril(&image)
        .encode(format, &mut encoded)
        .expect("the image encodes");
    assert_eq!(&encoded[..8], &[0x89, b'P', b'N', b'G', 0x0d, 0x0a, 0x1a, 0x0a]);
}

#[test]
fn zero_hash_with_default_configuration() {
    let config = Config::default();
    assert!(config.can_render());
    let image = render_identicon([0u8; 20], &config);
    assert_eq!(image.width(), 256);
    assert_eq!(image.height(), 256);

    let white = Rgba::white();
    let mid_color = Rgba::new(209, 117, 117, 255);
    let dark_gray = Rgba::new(84, 84, 84, 255);

    // The padding is 20 pixels, a cell 54, the grid starts at 20.
    assert_eq!(image.pixel(0, 0), Some(white));
    assert_eq!(image.pixel(19, 128), Some(white));
    assert_eq!(image.pixel(128, 19), Some(white));
    assert_eq!(image.pixel(255, 255), Some(white));
    assert_eq!(image.pixel(240, 128), Some(white));

    // The role selectors are all 0: the sides get colour 0, dark grey, and
    // the corners and the centre colour 1, the mid colour, in its place.

    // Corner cell at (20, 20), not turned: the triangle below the diagonal.
    assert_eq!(image.pixel(20 + 5, 20 + 40), Some(mid_color));
    assert_eq!(image.pixel(20 + 40, 20 + 5), Some(white));

    // Second corner cell at (182, 20), turned by a quarter.
    assert_eq!(image.pixel(182 + 5, 20 + 10), Some(mid_color));
    assert_eq!(image.pixel(182 + 48, 20 + 44), Some(white));

    // Side cell at (74, 20), not turned.
    assert_eq!(image.pixel(74 + 5, 20 + 40), Some(dark_gray));
    assert_eq!(image.pixel(74 + 40, 20 + 5), Some(white));

    // Centre cell at (74, 74): a square whose lower right corner is cut off.
    assert_eq!(image.pixel(74 + 5, 74 + 5), Some(mid_color));
    assert_eq!(image.pixel(74 + 50, 74 + 5), Some(mid_color));
    assert_eq!(image.pixel(74 + 5, 74 + 50), Some(mid_color));
    assert_eq!(image.pixel(74 + 52, 74 + 52), Some(white));
}

#[test]
fn rendering_twice_gives_the_same_pixels() {
    let config = sized(64, 80_000);
    let hash = [
        129, 81, 50, 93, 205, 186, 233, 224, 255, 149, 249, 249, 101, 132, 50, 219, 237, 253, 178,
        9,
    ];
    let first = render_identicon(hash, &config);
    let second = render_identicon(hash, &config);
    assert_eq!(pixels(&first), pixels(&second));
    assert!(pixels(&first).iter().any(|p| *p != Rgba::white()));
}

#[test]
fn message_is_hashed_with_sha1() {
    let config = sized(96, 80_000);
    let digest = [
        129, 81, 50, 93, 205, 186, 233, 224, 255, 149, 249, 249, 101, 132, 50, 219, 237, 253, 178,
        9,
    ];
    let from_message = generate_identicon("sample", &config);
    let from_digest = render_identicon(digest, &config);
    assert_eq!(pixels(&from_message), pixels(&from_digest));

    let other = generate_identicon("another sample", &config);
    assert_ne!(pixels(&from_message), pixels(&other));
}

#[test]
fn sample_identicon_uses_its_role_colours() {
    // The digest of "sample" spells the hue 314.797..., and its role
    // selectors 12, 13 and 11 choose light grey for the sides and the mid
    // colour for the corners and the centre.
    let config = sized(256, 80_000);
    let image = generate_identicon("sample", &config);
    let all = pixels(&image);
    let light_gray = Rgba::new(232, 232, 232, 255);
    let mid_color = Rgba::new(209, 117, 186, 255);
    assert!(all.contains(&light_gray));
    assert!(all.contains(&mid_color));
    for p in all {
        assert!(p == Rgba::white() || p == light_gray || p == mid_color);
    }
}

#[test]
fn half_padding_leaves_only_the_background() {
    let background = Rgba::new(10, 20, 30, 40);
    for size in [1u32, 2, 3, 4, 5, 16, 17, 64] {
        for nibble in 0u8..16 {
            let config = Config::builder()
                .size(size)
                .padding(500_000)
                .background_color(background)
                .build()
                .expect("valid config");
            let image = render_identicon([nibble * 17; 20], &config);
            assert_eq!(image.width(), size);
            assert_eq!(image.height(), size);
            assert!(pixels(&image).iter().all(|p| *p == background));
        }
    }
}

#[test]
fn sizes_under_four_leave_only_the_background() {
    for size in [1u32, 2, 3] {
        let config = sized(size, 0);
        let image = render_identicon([0xff; 20], &config);
        assert!(pixels(&image).iter().all(|p| *p == Rgba::white()));
    }
}

#[test]
fn no_padding_reaches_every_edge() {
    // Rhombi at the sides (selector 2) touch the four edges of their cells.
    let mut nibbles = [0u8; 40];
    nibbles[2] = 2;
    let config = sized(64, 0);
    let image = render_identicon(hash_of_nibbles(nibbles), &config);
    let colored = |x: u32, y: u32| image.pixel(x, y) != Some(Rgba::white());
    assert!((0..64).any(|x| colored(x, 0)));
    assert!((0..64).any(|x| colored(x, 63)));
    assert!((0..64).any(|y| colored(0, y)));
    assert!((0..64).any(|y| colored(63, y)));
}

#[test]
fn padding_keeps_the_margin_clear() {
    // A padding of an eighth of 64 pixels: 8 pixels, cells of 12.
    let config = sized(64, 125_000);
    for nibble in 0u8..16 {
        let image = render_identicon([nibble * 17; 20], &config);
        for y in 0..64 {
            for x in 0..64 {
                if x < 8 || y < 8 || x > 56 || y > 56 {
                    assert_eq!(image.pixel(x, y), Some(Rgba::white()));
                }
            }
        }
    }
}

#[test]
fn every_shape_renders_at_every_small_size() {
    for size in 1u32..=48 {
        let config = sized(size, 0);
        for selector in 0u8..16 {
            let mut nibbles = [0u8; 40];
            nibbles[1] = selector;
            nibbles[2] = selector;
            nibbles[4] = selector;
            nibbles[3] = selector;
            nibbles[5] = 15 - selector;
            nibbles[8] = selector;
            nibbles[9] = 3;
            nibbles[10] = 4;
            let image = render_identicon(hash_of_nibbles(nibbles), &config);
            assert_eq!(image.width(), size);
            assert_eq!(image.height(), size);
        }
    }
}

#[test]
fn the_dot_shows_once() {
    // Centre selector 13: one dot of 12 tenths of a cell, 4 tenths from the
    // corner of the first centre cell, which makes it the centre of the grid.
    let mut nibbles = [0u8; 40];
    nibbles[1] = 13;
    nibbles[2] = 3;
    nibbles[4] = 3;
    let background = Rgba::transparent();
    let config = Config::builder()
        .size(200)
        .padding(0)
        .background_color(background)
        .build()
        .expect("valid config");
    let image = render_identicon(hash_of_nibbles(nibbles), &config);
    let center_color = Rgba::new(209, 117, 117, 255);
    assert_eq!(image.pixel(100, 100), Some(center_color));
    assert_eq!(image.pixel(75, 100), Some(center_color));
    assert_eq!(image.pixel(125, 100), Some(center_color));
    assert_eq!(image.pixel(100, 125), Some(center_color));
    // The other centre cells hold nothing of their own.
    assert_eq!(image.pixel(145, 55), Some(background));
    assert_eq!(image.pixel(145, 145), Some(background));
    assert_eq!(image.pixel(55, 145), Some(background));
    assert_eq!(image.pixel(55, 55), Some(background));
}

#[test]
fn restricted_hues_pick_from_the_list() {
    // The hue of the zero hash is 0: with two hues it picks the first, and a
    // hash whose last seven nibbles are all 15 picks the last.
    let config = Config::builder()
        .hues(vec![120_000_000, 240_000_000])
        .size(64)
        .build()
        .expect("valid config");
    let green = Rgba::new(102, 204, 102, 255);
    let blue = Rgba::new(133, 133, 214, 255);
    let first = pixels(&render_identicon([0u8; 20], &config));
    assert!(first.contains(&green));
    assert!(!first.contains(&blue));
    let mut nibbles = [0u8; 40];
    for i in 33..40 {
        nibbles[i] = 15;
    }
    let last = pixels(&render_identicon(hash_of_nibbles(nibbles), &config));
    assert!(last.contains(&blue));
    assert!(!last.contains(&green));
}

#[test]
fn lightness_ranges_shift_the_colours() {
    let config = Config::builder()
        .color_lightness(LightnessRange::new(0, 1_000_000))
        .grayscale_lightness(LightnessRange::new(500_000, 500_000))
        .color_saturation(1_000_000)
        .size(64)
        .build()
        .expect("valid config");
    assert!(config.can_render());
    let all = pixels(&render_identicon([0u8; 20], &config));
    // Hue 0 at full saturation and the corrected lightness 0.55, and the
    // grey of the corrected lightness 0.55.
    assert!(all.contains(&Rgba::new(255, 26, 26, 255)));
    assert!(all.contains(&Rgba::new(140, 140, 140, 255)));
}

#[test]
fn pixel_outside_the_image_is_none() {
    let config = sized(8, 0);
    let image = render_identicon([0u8; 20], &config);
    assert!(image.pixel(7, 7).is_some());
    assert_eq!(image.pixel(8, 0), None);
    assert_eq!(image.pixel(0, 8), None);
    assert_eq!(image.pixel(u32::MAX, u32::MAX), None);
}
