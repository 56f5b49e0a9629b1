//! The raster backend: an image held by the `ril` crate, and the filled
//! shapes that are drawn on it.

use vstd::prelude::*;
use crate::color::Rgba;

verus! {

/// The largest coordinate that the backend's signed 32-bit arithmetic takes.
pub const COORD_MAX: u32 = 0x7fff_ffff;

/// A raster image of RGBA pixels.
#[verifier::external_body]
pub struct Image {
    inner: ril::Image<ril::Rgba>,
}

/// The pixels of an image: its rows from the top, each row from the left.
pub uninterp spec fn image_rows(image: Image) -> Seq<Seq<Rgba>>;

/// The rows after `ril` has filled the closed polygon through `vertices`.
pub uninterp spec fn polygon_filled(
    rows: Seq<Seq<Rgba>>,
    vertices: Seq<(u32, u32)>,
    color: Rgba,
) -> Seq<Seq<Rgba>>;

/// The rows after `ril` has filled the ellipse inscribed in the box from
/// `(x1, y1)` to `(x2, y2)`.
pub uninterp spec fn ellipse_filled(
    rows: Seq<Seq<Rgba>>,
    x1: u32,
    y1: u32,
    x2: u32,
    y2: u32,
    color: Rgba,
) -> Seq<Seq<Rgba>>;

/// Whether `rows` is a grid of `height` rows of `width` pixels each.
pub open spec fn is_grid(rows: Seq<Seq<Rgba>>, width: nat, height: nat) -> bool {
    &&& rows.len() == height
    &&& forall|y: int| 0 <= y < height ==> (#[trigger] rows[y]).len() == width
}

/// Whether two pixel grids have the same number of rows, and row by row the
/// same number of pixels.
pub open spec fn same_dimensions(a: Seq<Seq<Rgba>>, b: Seq<Seq<Rgba>>) -> bool {
    &&& a.len() == b.len()
    &&& forall|y: int| 0 <= y < a.len() ==> (#[trigger] a[y]).len() == b[y].len()
}

/// A grid of `height` rows of `width` pixels, each of them `fill`.
pub open spec fn blank(width: nat, height: nat, fill: Rgba) -> Seq<Seq<Rgba>> {
    Seq::new(height, |y: int| Seq::new(width, |x: int| fill))
}

/// The rows after every pixel with `x <= column < x + width` and
/// `y <= row < y + height` has been replaced by `color`.
pub open spec fn rectangle_filled(
    rows: Seq<Seq<Rgba>>,
    x: u32,
    y: u32,
    width: u32,
    height: u32,
    color: Rgba,
) -> Seq<Seq<Rgba>> {
    Seq::new(
        rows.len(),
        |j: int|
            Seq::new(
                rows[j].len(),
                |i: int|
                    if x <= i < x + width && y <= j < y + height {
                        color
                    } else {
                        rows[j][i]
                    },
            ),
    )
}

/// A filled shape in canvas coordinates.
pub enum Shape {
    /// The closed polygon through `vertices`.
    Polygon { color: Rgba, vertices: Seq<(u32, u32)> },
    /// The circle inscribed in the square of side `diameter` whose top-left
    /// corner is `(x, y)`.
    Circle { color: Rgba, x: u32, y: u32, diameter: u32 },
    /// The rectangle of `width` by `height` pixels whose top-left corner is
    /// `(x, y)`.
    Rectangle { color: Rgba, x: u32, y: u32, width: u32, height: u32 },
}

impl Shape {
    /// Whether every coordinate of the shape is at most `bound`: each vertex
    /// of a polygon, and the opposite corners of a circle's or rectangle's box.
    pub open spec fn within(self, bound: int) -> bool {
        match self {
            Shape::Polygon { vertices, .. } => forall|i: int|
                0 <= i < vertices.len() ==> (#[trigger] vertices[i]).0 <= bound && vertices[i].1
                    <= bound,
            Shape::Circle { x, y, diameter, .. } => x + diameter <= bound && y + diameter <= bound,
            Shape::Rectangle { x, y, width, height, .. } => x + width <= bound && y + height
                <= bound,
        }
    }

    /// Whether the backend can draw the shape: a polygon has three vertices
    /// or more, and no coordinate exceeds `COORD_MAX`.
    pub open spec fn drawable(self) -> bool {
        &&& self.within(COORD_MAX as int)
        &&& self matches Shape::Polygon { vertices, .. } ==> vertices.len() >= 3
    }
}

/// The rows after `shape` has been drawn on `rows`. A circle of a diameter
/// under two pixels has radius zero and leaves the rows as they are.
pub open spec fn drawn(rows: Seq<Seq<Rgba>>, shape: Shape) -> Seq<Seq<Rgba>> {
    match shape {
        Shape::Polygon { color, vertices } => polygon_filled(rows, vertices, color),
        Shape::Circle { color, x, y, diameter } => if diameter < 2 {
            rows
        } else {
            ellipse_filled(rows, x, y, (x + diameter) as u32, (y + diameter) as u32, color)
        },
        Shape::Rectangle { color, x, y, width, height } => rectangle_filled(
            rows,
            x,
            y,
            width,
            height,
            color,
        ),
    }
}

/// The rows after the shapes have been drawn on `rows`, first to last.
pub open spec fn drawn_all(rows: Seq<Seq<Rgba>>, shapes: Seq<Shape>) -> Seq<Seq<Rgba>>
    decreases shapes.len(),
{
    if shapes.len() == 0 {
        rows
    } else {
        drawn(drawn_all(rows, shapes.drop_last()), shapes.last())
    }
}

/// Drawing `a` and then `b` is drawing `a + b`.
pub proof fn lemma_drawn_all_concat(rows: Seq<Seq<Rgba>>, a: Seq<Shape>, b: Seq<Shape>)
    ensures
        drawn_all(rows, a + b) == drawn_all(drawn_all(rows, a), b),
    decreases b.len(),
{
    if b.len() == 0 {
        assert(a + b =~= a);
    } else {
        assert((a + b).drop_last() =~= a + b.drop_last());
        assert((a + b).last() == b.last());
        lemma_drawn_all_concat(rows, a, b.drop_last());
    }
}

impl View for Image {
    type V = Seq<Seq<Rgba>>;

    open spec fn view(&self) -> Seq<Seq<Rgba>> {
        image_rows(*self)
    }
}

/// `ril::Image::new`: an image of `width` by `height` pixels, each of them
/// `fill`. The call multiplies the two in 32 bits.
#[verifier::external_body]
pub(crate) fn new_image(width: u32, height: u32, fill: Rgba) -> (image: Image)
    requires
        width > 0,
        height > 0,
        width * height <= u32::MAX,
    ensures
        image_rows(image) == blank(width as nat, height as nat, fill),
{
    Image { inner: ril::Image::new(width, height, ril::Rgba::new(fill.r, fill.g, fill.b, fill.a)) }
}

/// `ril::Image::dimensions`: width and height, neither of them zero; the
/// image holds that many rows of that many pixels.
#[verifier::external_body]
pub(crate) fn image_dimensions(image: &Image) -> (d: (u32, u32))
    ensures
        d.0 > 0,
        d.1 > 0,
        is_grid(image_rows(*image), d.0 as nat, d.1 as nat),
{
    image.inner.dimensions()
}

/// `ril::Image::pixel`: the pixel in column `x` of row `y`. The call panics
/// outside the image.
#[verifier::external_body]
pub(crate) fn image_pixel(image: &Image, x: u32, y: u32) -> (c: Rgba)
    requires
        y < image_rows(*image).len(),
        x < image_rows(*image)[y as int].len(),
    ensures
        c == image_rows(*image)[y as int][x as int],
{
    let p = image.inner.pixel(x, y);
    Rgba { r: p.r, g: p.g, b: p.b, a: p.a }
}

/// `ril::Polygon` with a solid fill, drawn by `ril::Image::draw` in the
/// overlay mode that replaces pixels. The result is a function of the pixels,
/// the vertices and the colour; the image keeps its dimensions. The call
/// panics on fewer than three vertices and casts coordinates and the image's
/// height to `i32`.
#[verifier::external_body]
pub(crate) fn fill_polygon(image: &mut Image, vertices: &Vec<(u32, u32)>, color: Rgba)
    requires
        vertices@.len() >= 3,
        forall|i: int|
            0 <= i < vertices@.len() ==> (#[trigger] vertices@[i]).0 <= COORD_MAX && vertices@[i].1
                <= COORD_MAX,
        image_rows(*old(image)).len() <= COORD_MAX,
    ensures
        image_rows(*final(image)) == polygon_filled(image_rows(*old(image)), vertices@, color),
        same_dimensions(image_rows(*final(image)), image_rows(*old(image))),
{
    let fill = ril::Rgba::new(color.r, color.g, color.b, color.a);
    let polygon = ril::Polygon::from_vertices(vertices.iter().copied())
        .with_overlay_mode(ril::OverlayMode::Replace)
        .with_fill(fill);
    image.inner.draw(&polygon);
}

/// `ril::Ellipse::from_bounding_box` with a solid fill, drawn by
/// `ril::Image::draw` in the overlay mode that replaces pixels. The result is
/// a function of the pixels, the box and the colour; the image keeps its
/// dimensions. The call panics where both radii, half the box's sides, are
/// zero, and casts coordinates to `i32`; only a square box takes the path
/// that is free of overflow for every radius.
#[verifier::external_body]
pub(crate) fn fill_ellipse(image: &mut Image, x1: u32, y1: u32, x2: u32, y2: u32, color: Rgba)
    requires
        x1 + 2 <= x2 <= COORD_MAX,
        y1 + 2 <= y2 <= COORD_MAX,
        x2 - x1 == y2 - y1,
    ensures
        image_rows(*final(image)) == ellipse_filled(image_rows(*old(image)), x1, y1, x2, y2, color),
        same_dimensions(image_rows(*final(image)), image_rows(*old(image))),
{
    let fill = ril::Rgba::new(color.r, color.g, color.b, color.a);
    let ellipse = ril::Ellipse::from_bounding_box(x1, y1, x2, y2)
        .with_overlay_mode(ril::OverlayMode::Replace)
        .with_fill(fill);
    image.inner.draw(&ellipse);
}

/// `ril::Rectangle` at `(x, y)` with a solid fill, drawn by `ril::Image::draw`
/// in the overlay mode that replaces pixels: every pixel of the image in
/// columns `x..x + width` and rows `y..y + height` becomes `color`, the
/// others stay. The call panics where both sides are zero and adds each side
/// to its coordinate in 32 bits.
#[verifier::external_body]
pub(crate) fn fill_rectangle(
    image: &mut Image,
    x: u32,
    y: u32,
    width: u32,
    height: u32,
    color: Rgba,
)
    requires
        width > 0 || height > 0,
        x + width <= u32::MAX,
        y + height <= u32::MAX,
    ensures
        image_rows(*final(image)) == rectangle_filled(
            image_rows(*old(image)),
            x,
            y,
            width,
            height,
            color,
        ),
{
    let fill = ril::Rgba::new(color.r, color.g, color.b, color.a);
    let rectangle = ril::Rectangle::at(x, y)
        .with_size(width, height)
        .with_overlay_mode(ril::OverlayMode::Replace)
        .with_fill(fill);
    image.inner.draw(&rectangle);
}

impl Image {
    /// An image of `width` by `height` pixels, each of them `fill`, unless a
    /// side is zero or the pixels are more than 32 bits count.
    pub fn filled(width: u32, height: u32, fill: Rgba) -> (image: Option<Image>)
        ensures
            match image {
                Some(image) => image@ == blank(width as nat, height as nat, fill),
                None => width == 0 || height == 0 || width * height > u32::MAX,
            },
            image is Some <==> width > 0 && height > 0 && width * height <= u32::MAX,
    {
        if width == 0 || height == 0 {
            return None;
        }
        match width.checked_mul(height) {
            Some(_) => Some(new_image(width, height, fill)),
            None => None,
        }
    }

    /// The width in pixels.
    pub fn width(&self) -> (w: u32)
        ensures
            w > 0,
            is_grid(self@, w as nat, self@.len()),
    {
        image_dimensions(self).0
    }

    /// The height in pixels.
    pub fn height(&self) -> (h: u32)
        ensures
            h > 0,
            h == self@.len(),
    {
        image_dimensions(self).1
    }

    /// The pixel in column `x` of row `y`, if the image has one there.
    pub fn pixel(&self, x: u32, y: u32) -> (p: Option<Rgba>)
        ensures
            p matches Some(c) ==> y < self@.len() && x < self@[y as int].len() && c
                == self@[y as int][x as int],
            p is None <==> !(y < self@.len() && x < self@[y as int].len()),
    {
        let (w, h) = image_dimensions(self);
        if x < w && y < h {
            Some(image_pixel(self, x, y))
        } else {
            None
        }
    }
}

} // verus!
