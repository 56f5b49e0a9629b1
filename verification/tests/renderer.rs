use rdenticon::canvas::Image;
use rdenticon::renderer::ShapeRenderer;
use rdenticon::transform::Transform;
use rdenticon::Rgba;

const PAPER: Rgba = Rgba { r: 250, g: 250, b: 250, a: 255 };
const INK: Rgba = Rgba { r: 10, g: 20, b: 30, a: 200 };

fn renderer(size: u32, cell: Transform) -> ShapeRenderer {
    let image = Image::filled(size, size, PAPER).expect("an image");
    let mut renderer = ShapeRenderer::new(image);
    renderer.current_transform = cell;
    renderer
}

// The pixels that are not paper, as rows of '#' and '.'.
fn picture(image: &Image) -> Vec<String> {
    let mut rows = Vec::new();
    for y in 0..image.height() {
        let mut row = String::new();
        for x in 0..image.width() {
            let p = image.pixel(x, y).expect("pixel within the image");
            assert!(p == PAPER || p == INK);
            row.push(if p == INK { '#' } else { '.' });
        }
        rows.push(row);
    }
    rows
}

fn inked(image: &Image, x: u32, y: u32) -> bool {
    image.pixel(x, y) == Some(INK)
}

#[test]
fn filled_image() {
    let image = Image::filled(3, 2, INK).expect("an image");
    assert_eq!(image.width(), 3);
    assert_eq!(image.height(), 2);
    for y in 0..2 {
        for x in 0..3 {
            assert_eq!(image.pixel(x, y), Some(INK));
        }
    }
    assert_eq!(image.pixel(3, 0), None);
    assert_eq!(image.pixel(0, 2), None);
}

#[test]
fn no_image_without_pixels_or_with_too_many() {
    assert!(Image::filled(0, 5, INK).is_none());
    assert!(Image::filled(5, 0, INK).is_none());
    assert!(Image::filled(0, 0, INK).is_none());
    assert!(Image::filled(65_536, 65_536, INK).is_none());
    assert!(Image::filled(u32::MAX, 2, INK).is_none());
    assert!(Image::filled(1, 1, INK).is_some());
}

#[test]
fn new_renderer_has_the_empty_cell() {
    let image = Image::filled(4, 4, PAPER).expect("an image");
    let renderer = ShapeRenderer::new(image);
    let t = renderer.current_transform;
    assert_eq!((t.x, t.y, t.right, t.bottom, t.rotation), (0, 0, 0, 0, 0));
    let image = renderer.into_image();
    assert_eq!(picture(&image), vec!["....", "....", "....", "...."]);
}

#[test]
fn rectangle_is_one_pixel_taller() {
    let mut r = renderer(10, Transform::new(2, 2, 6, 0));
    r.rectangle(INK, (1, 1), (2, 3));
    assert_eq!(r.current_transform.rotation, 0);
    assert_eq!(
        picture(&r.into_image()),
        vec![
            "..........",
            "..........",
            "..........",
            "...##.....",
            "...##.....",
            "...##.....",
            "...##.....",
            "..........",
            "..........",
            "..........",
        ]
    );
}

#[test]
fn rectangle_turned_by_a_quarter() {
    let mut r = renderer(10, Transform::new(2, 2, 6, 1));
    r.rectangle(INK, (1, 1), (2, 3));
    assert_eq!(
        picture(&r.into_image()),
        vec![
            "..........",
            "..........",
            "..........",
            "....###...",
            "....###...",
            "....###...",
            "..........",
            "..........",
            "..........",
            "..........",
        ]
    );
}

#[test]
fn rectangle_turned_by_a_half() {
    let mut r = renderer(10, Transform::new(2, 2, 6, 2));
    r.rectangle(INK, (1, 1), (2, 3));
    assert_eq!(
        picture(&r.into_image()),
        vec![
            "..........",
            "..........",
            "..........",
            "..........",
            ".....##...",
            ".....##...",
            ".....##...",
            ".....##...",
            "..........",
            "..........",
        ]
    );
}

#[test]
fn rectangle_turned_by_three_quarters() {
    let mut r = renderer(10, Transform::new(2, 2, 6, 3));
    r.rectangle(INK, (1, 1), (2, 3));
    assert_eq!(
        picture(&r.into_image()),
        vec![
            "..........",
            "..........",
            "..........",
            "..........",
            "..........",
            "...###....",
            "...###....",
            "...###....",
            "..........",
            "..........",
        ]
    );
}

#[test]
fn rectangle_without_width_draws_nothing() {
    let mut r = renderer(6, Transform::new(0, 0, 6, 0));
    r.rectangle(INK, (2, 2), (0, 3));
    let image = r.into_image();
    assert!(picture(&image).iter().all(|row| row == "......"));
}

#[test]
fn rectangle_is_cut_at_the_edge_of_the_image() {
    let mut r = renderer(4, Transform::new(0, 0, 4, 0));
    r.rectangle(INK, (2, 2), (2, 2));
    assert_eq!(picture(&r.into_image()), vec!["....", "....", "..##", "..##"]);
}

#[test]
fn circle_fills_its_box() {
    let mut r = renderer(12, Transform::new(1, 1, 10, 0));
    r.circle(INK, (2, 2), 6);
    let image = r.into_image();
    // The box reaches from (3, 3) to (9, 9): the centre is (6, 6).
    assert!(inked(&image, 6, 6));
    assert!(inked(&image, 3, 6));
    assert!(inked(&image, 9, 6));
    assert!(inked(&image, 6, 3));
    assert!(inked(&image, 6, 9));
    assert!(!inked(&image, 3, 3));
    assert!(!inked(&image, 9, 9));
    assert!(!inked(&image, 3, 9));
    assert!(!inked(&image, 9, 3));
    for y in 0..12 {
        for x in 0..12 {
            if x < 3 || x > 9 || y < 3 || y > 9 {
                assert!(!inked(&image, x, y));
            }
        }
    }
}

#[test]
fn circle_turned_keeps_to_its_turned_box() {
    // The box of side 4 at (1, 5) of a cell of side 10, turned by a quarter,
    // lies at (10 - 5 - 4, 1) = (1, 1).
    let mut r = renderer(10, Transform::new(0, 0, 10, 1));
    r.circle(INK, (1, 5), 4);
    let image = r.into_image();
    assert!(inked(&image, 3, 3));
    for y in 0..10 {
        for x in 0..10 {
            if x < 1 || x > 5 || y < 1 || y > 5 {
                assert!(!inked(&image, x, y));
            }
        }
    }
}

#[test]
fn circle_under_two_pixels_draws_nothing() {
    for diameter in [0u32, 1] {
        let mut r = renderer(6, Transform::new(0, 0, 6, 0));
        r.circle(INK, (2, 2), diameter);
        let image = r.into_image();
        assert!(picture(&image).iter().all(|row| row == "......"));
    }
    let mut r = renderer(6, Transform::new(0, 0, 6, 0));
    r.circle(INK, (2, 2), 2);
    assert!(inked(&r.into_image(), 3, 3));
}

#[test]
fn polygon_is_filled() {
    let mut r = renderer(12, Transform::new(1, 1, 10, 0));
    r.polygon(INK, &vec![(0, 0), (10, 0), (10, 10), (0, 10)]);
    let image = r.into_image();
    for y in 2..=10 {
        for x in 1..=11 {
            assert!(inked(&image, x, y));
        }
    }
    for i in 0..12 {
        assert!(!inked(&image, i, 0));
        assert!(!inked(&image, 0, i));
    }
}

#[test]
fn polygon_is_turned_with_the_cell() {
    // The upper left quarter of the cell goes round with each quarter turn.
    let quarter = vec![(0, 0), (5, 0), (5, 5), (0, 5)];
    let centers = [(3, 3), (9, 3), (9, 9), (3, 9)];
    for rotation in 0u8..4 {
        let mut r = renderer(12, Transform::new(1, 1, 10, rotation));
        r.polygon(INK, &quarter);
        let image = r.into_image();
        for (i, (x, y)) in centers.iter().enumerate() {
            assert_eq!(inked(&image, *x, *y), i == rotation as usize);
        }
    }
}

#[test]
fn triangle_leaves_out_one_corner() {
    // Two pixels inside each corner of the box from (1, 1) to (11, 11):
    // top-right, bottom-right, bottom-left, top-left.
    let near = [(9, 3), (9, 9), (3, 9), (3, 3)];
    for corner in 0usize..8 {
        let mut r = renderer(12, Transform::new(0, 0, 12, 0));
        r.triangle(corner, INK, (1, 1), (10, 10));
        let image = r.into_image();
        let left_out = near[corner % 4];
        let opposite = near[(corner + 2) % 4];
        assert!(!inked(&image, left_out.0, left_out.1));
        assert!(inked(&image, opposite.0, opposite.1));
        assert!(inked(&image, 6, 6));
    }
}

#[test]
fn rhombus_joins_the_middles_of_the_edges() {
    let mut r = renderer(14, Transform::new(1, 1, 12, 0));
    r.rhombus(INK, (1, 1), (10, 10));
    let image = r.into_image();
    // The box reaches from (2, 2) to (12, 12).
    assert!(inked(&image, 7, 7));
    assert!(inked(&image, 7, 3));
    assert!(inked(&image, 11, 7));
    assert!(inked(&image, 7, 11));
    assert!(inked(&image, 3, 7));
    assert!(!inked(&image, 2, 2));
    assert!(!inked(&image, 12, 2));
    assert!(!inked(&image, 12, 12));
    assert!(!inked(&image, 2, 12));
    assert!(!inked(&image, 3, 3));
    assert!(!inked(&image, 11, 11));
}

#[test]
fn later_shapes_cover_earlier_ones() {
    let mut r = renderer(6, Transform::new(0, 0, 6, 0));
    r.rectangle(INK, (0, 0), (6, 5));
    r.rectangle(PAPER, (2, 2), (2, 1));
    assert_eq!(
        picture(&r.into_image()),
        vec!["######", "######", "##..##", "##..##", "######", "######"]
    );
}
