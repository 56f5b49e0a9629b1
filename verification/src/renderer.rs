//! Drawing in the coordinates of a cell: every primitive is placed by the
//! current cell's transform before it reaches the canvas.

use vstd::prelude::*;
use crate::canvas::{
    drawn, drawn_all, fill_ellipse, fill_polygon, fill_rectangle, same_dimensions, Image, Shape,
    COORD_MAX,
};
use crate::color::Rgba;
use crate::transform::{lemma_in_cell_stays_in_cell, Transform};

verus! {

/// The vertices `points` of a cell as they lie on the canvas.
pub open spec fn placed(t: Transform, points: Seq<(u32, u32)>) -> Seq<(u32, u32)> {
    Seq::new(points.len(), |i: int| t.apply(points[i], (0u32, 0u32)))
}

/// The polygon through `points` of the cell.
pub open spec fn polygon_shape(t: Transform, color: Rgba, points: Seq<(u32, u32)>) -> Shape {
    Shape::Polygon { color, vertices: placed(t, points) }
}

/// The circle of the given diameter whose box has its top-left corner at
/// `top_left` of the cell.
pub open spec fn circle_shape(t: Transform, color: Rgba, top_left: (u32, u32), diameter: u32)
    -> Shape {
    let at = t.apply(top_left, (diameter, diameter));
    Shape::Circle { color, x: at.0, y: at.1, diameter }
}

/// The rectangle of the given size at `top_left` of the cell, drawn one
/// pixel taller than asked so that no seam shows between neighbours.
pub open spec fn rectangle_shape(t: Transform, color: Rgba, top_left: (u32, u32), size: (u32, u32))
    -> Shape {
    let at = t.apply(top_left, size);
    let sides = t.turned(size);
    Shape::Rectangle { color, x: at.0, y: at.1, width: sides.0, height: (sides.1 + 1) as u32 }
}

/// The midpoints of the four edges of the box of the given size at
/// `top_left`: top, right, bottom, left.
pub open spec fn rhombus_points(top_left: (u32, u32), size: (u32, u32)) -> Seq<(u32, u32)> {
    seq![
        ((top_left.0 + size.0 / 2) as u32, top_left.1),
        ((top_left.0 + size.0) as u32, (top_left.1 + size.1 / 2) as u32),
        ((top_left.0 + size.0 / 2) as u32, (top_left.1 + size.1) as u32),
        (top_left.0, (top_left.1 + size.1 / 2) as u32),
    ]
}

/// Three corners of the box of the given size at `top_left`, in the order
/// top-right, bottom-right, bottom-left, top-left. The corner left out is
/// the top-right one for `corner % 4 == 0`, then the bottom-right, the
/// bottom-left and the top-left one.
pub open spec fn triangle_points(corner: usize, top_left: (u32, u32), size: (u32, u32)) -> Seq<
    (u32, u32),
> {
    let a = ((top_left.0 + size.0) as u32, top_left.1);
    let b = ((top_left.0 + size.0) as u32, (top_left.1 + size.1) as u32);
    let c = (top_left.0, (top_left.1 + size.1) as u32);
    let d = top_left;
    if corner % 4 == 0 {
        seq![b, c, d]
    } else if corner % 4 == 1 {
        seq![a, c, d]
    } else if corner % 4 == 2 {
        seq![a, b, d]
    } else {
        seq![a, b, c]
    }
}

/// A filled shape in the coordinates of a cell.
pub enum Primitive {
    /// The closed polygon through `points`.
    Polygon { color: Rgba, points: Seq<(u32, u32)> },
    /// The circle inscribed in the square of side `diameter` at `top_left`.
    Circle { color: Rgba, top_left: (u32, u32), diameter: u32 },
    /// The rectangle of the given size at `top_left`.
    Rectangle { color: Rgba, top_left: (u32, u32), size: (u32, u32) },
}

impl Primitive {
    /// The shape on the canvas that the primitive makes in the cell `t`.
    pub open spec fn place(self, t: Transform) -> Shape {
        match self {
            Primitive::Polygon { color, points } => polygon_shape(t, color, points),
            Primitive::Circle { color, top_left, diameter } => circle_shape(
                t,
                color,
                top_left,
                diameter,
            ),
            Primitive::Rectangle { color, top_left, size } => rectangle_shape(
                t,
                color,
                top_left,
                size,
            ),
        }
    }

    /// Whether the primitive lies within a cell of side `cell`: each point of
    /// a polygon, and the whole box of a circle or a rectangle.
    pub open spec fn in_cell(self, cell: int) -> bool {
        match self {
            Primitive::Polygon { points, .. } => forall|i: int|
                0 <= i < points.len() ==> (#[trigger] points[i]).0 <= cell && points[i].1 <= cell,
            Primitive::Circle { top_left, diameter, .. } => top_left.0 + diameter <= cell
                && top_left.1 + diameter <= cell,
            Primitive::Rectangle { top_left, size, .. } => top_left.0 + size.0 <= cell && top_left.1
                + size.1 <= cell,
        }
    }

    /// Whether the cell `t` admits the primitive: each point of a polygon,
    /// and the box of a circle or a rectangle.
    pub open spec fn admitted(self, t: Transform) -> bool {
        match self {
            Primitive::Polygon { points, .. } => forall|i: int|
                0 <= i < points.len() ==> t.admits(#[trigger] points[i], (0u32, 0u32)),
            Primitive::Circle { top_left, diameter, .. } => t.admits(top_left, (diameter, diameter)),
            Primitive::Rectangle { top_left, size, .. } => t.admits(top_left, size),
        }
    }
}

/// The shapes on the canvas that the primitives make in the cell `t`.
pub open spec fn place_all(t: Transform, primitives: Seq<Primitive>) -> Seq<Shape> {
    Seq::new(primitives.len(), |i: int| primitives[i].place(t))
}

/// A primitive within its cell is admitted by the cell and lands within the
/// cell's square on the canvas; a rectangle, drawn one pixel taller, may
/// reach one row below it.
pub proof fn lemma_place_in_cell(t: Transform, primitive: Primitive, bound: int)
    requires
        t.wf(),
        primitive.in_cell(t.size()),
        t.right <= bound,
        t.bottom <= bound,
        primitive is Rectangle ==> t.bottom < bound,
        bound <= u32::MAX,
    ensures
        primitive.admitted(t),
        primitive.place(t).within(bound),
{
    match primitive {
        Primitive::Polygon { color, points } => {
            assert forall|i: int| 0 <= i < points.len() implies t.admits(
                #[trigger] points[i],
                (0u32, 0u32),
            ) && t.apply(points[i], (0u32, 0u32)).0 <= bound && t.apply(points[i], (0u32, 0u32)).1
                <= bound by {
                lemma_in_cell_stays_in_cell(t, points[i], (0u32, 0u32));
            }
            let placed_points = placed(t, points);
            assert forall|i: int| 0 <= i < placed_points.len() implies (
            #[trigger] placed_points[i]).0 <= bound && placed_points[i].1 <= bound by {
                assert(t.admits(points[i], (0u32, 0u32)));
            }
        },
        Primitive::Circle { color, top_left, diameter } => {
            lemma_in_cell_stays_in_cell(t, top_left, (diameter, diameter));
        },
        Primitive::Rectangle { color, top_left, size } => {
            lemma_in_cell_stays_in_cell(t, top_left, size);
        },
    }
}

/// Nothing drawn leaves the renderer as it was.
pub proof fn lemma_drew_none(r: ShapeRenderer)
    ensures
        r.drew_all(r, Seq::empty()),
{
    assert(place_all(r.current_transform, Seq::empty()) =~= Seq::<Shape>::empty());
}

/// One more primitive drawn extends what was drawn by that primitive.
pub proof fn lemma_drew_more(
    before: ShapeRenderer,
    between: ShapeRenderer,
    after: ShapeRenderer,
    primitives: Seq<Primitive>,
    primitive: Primitive,
)
    requires
        between.drew_all(before, primitives),
        after.drew(between, primitive),
    ensures
        after.drew_all(before, primitives.push(primitive)),
{
    let t = before.current_transform;
    let shapes = place_all(t, primitives.push(primitive));
    assert(shapes.drop_last() =~= place_all(t, primitives));
    assert(shapes.last() == primitive.place(t));
}

/// One primitive drawn is all of a list of one.
pub proof fn lemma_drew_one(before: ShapeRenderer, after: ShapeRenderer, all: Seq<Primitive>)
    requires
        all.len() == 1,
        after.drew(before, all[0]),
    ensures
        after.drew_all(before, all),
{
    lemma_drew_none(before);
    lemma_drew_more(before, before, after, Seq::empty(), all[0]);
    assert(Seq::<Primitive>::empty().push(all[0]) =~= all);
}

/// Two primitives drawn in turn are all of a list of two.
pub proof fn lemma_drew_two(
    before: ShapeRenderer,
    first: ShapeRenderer,
    after: ShapeRenderer,
    all: Seq<Primitive>,
)
    requires
        all.len() == 2,
        first.drew(before, all[0]),
        after.drew(first, all[1]),
    ensures
        after.drew_all(before, all),
{
    lemma_drew_one(before, first, seq![all[0]]);
    lemma_drew_more(before, first, after, seq![all[0]], all[1]);
    assert(seq![all[0]].push(all[1]) =~= all);
}

/// Three primitives drawn in turn are all of a list of three.
pub proof fn lemma_drew_three(
    before: ShapeRenderer,
    first: ShapeRenderer,
    second: ShapeRenderer,
    after: ShapeRenderer,
    all: Seq<Primitive>,
)
    requires
        all.len() == 3,
        first.drew(before, all[0]),
        second.drew(first, all[1]),
        after.drew(second, all[2]),
    ensures
        after.drew_all(before, all),
{
    lemma_drew_two(before, first, second, seq![all[0], all[1]]);
    lemma_drew_more(before, second, after, seq![all[0], all[1]], all[2]);
    assert(seq![all[0], all[1]].push(all[2]) =~= all);
}

/// A canvas together with the transform of the cell that is being drawn.
pub struct ShapeRenderer {
    pub image: Image,
    pub current_transform: Transform,
}

impl ShapeRenderer {
    /// Whether `primitive` can be drawn in the current cell: the cell admits
    /// it, and the backend takes the shape that it makes on the canvas.
    pub open spec fn can_draw(self, primitive: Primitive) -> bool {
        &&& primitive.admitted(self.current_transform)
        &&& primitive.place(self.current_transform).drawable()
        &&& self.image@.len() <= COORD_MAX
    }

    /// Whether `self` is `before` with `primitive` drawn in its cell: the
    /// canvas holds the shape, of the same dimensions as before, and the cell
    /// is the same.
    pub open spec fn drew(self, before: ShapeRenderer, primitive: Primitive) -> bool {
        &&& self.image@ == drawn(before.image@, primitive.place(before.current_transform))
        &&& same_dimensions(self.image@, before.image@)
        &&& self.current_transform == before.current_transform
    }

    /// Whether `self` is `before` with `primitives` drawn in its cell, first
    /// to last.
    pub open spec fn drew_all(self, before: ShapeRenderer, primitives: Seq<Primitive>) -> bool {
        &&& self.image@ == drawn_all(
            before.image@,
            place_all(before.current_transform, primitives),
        )
        &&& same_dimensions(self.image@, before.image@)
        &&& self.current_transform == before.current_transform
    }

    /// A renderer that draws on `image`, its cell the empty one at the origin.
    pub fn new(image: Image) -> (r: ShapeRenderer)
        ensures
            r.image == image,
            r.current_transform == (Transform { x: 0, y: 0, rotation: 0, right: 0, bottom: 0 }),
    {
        ShapeRenderer { image, current_transform: Transform::default() }
    }

    /// Hands the canvas back.
    pub fn into_image(self) -> (image: Image)
        ensures
            image == self.image,
    {
        self.image
    }

    /// Fills the polygon through `points`.
    pub fn polygon(&mut self, color: Rgba, points: &Vec<(u32, u32)>)
        requires
            old(self).can_draw(Primitive::Polygon { color, points: points@ }),
        ensures
            final(self).drew(*old(self), Primitive::Polygon { color, points: points@ }),
    {
        let ghost target = placed(self.current_transform, points@);
        let mut vertices: Vec<(u32, u32)> = Vec::new();
        let mut i: usize = 0;
        while i < points.len()
            invariant
                i <= points@.len(),
                old(self).can_draw(Primitive::Polygon { color, points: points@ }),
                *self == *old(self),
                target == placed(self.current_transform, points@),
                vertices@ =~= target.take(i as int),
            decreases points@.len() - i,
        {
            let p = points[i];
            assert(self.current_transform.admits(points@[i as int], (0u32, 0u32)));
            let at = self.current_transform.transform(p, (0, 0));
            vertices.push(at);
            i = i + 1;
        }
        assert(vertices@ =~= target);
        assert forall|k: int| 0 <= k < vertices@.len() implies (#[trigger] vertices@[k]).0
            <= COORD_MAX && vertices@[k].1 <= COORD_MAX by {
            assert(target[k].0 <= COORD_MAX);
        }
        fill_polygon(&mut self.image, &vertices, color);
    }

    /// Fills the circle of the given diameter whose box has its top-left
    /// corner at `top_left`. Under a diameter of two pixels nothing is drawn.
    pub fn circle(&mut self, color: Rgba, top_left: (u32, u32), diameter: u32)
        requires
            old(self).can_draw(Primitive::Circle { color, top_left, diameter }),
        ensures
            final(self).drew(*old(self), Primitive::Circle { color, top_left, diameter }),
    {
        let at = self.current_transform.transform(top_left, (diameter, diameter));
        if diameter >= 2 {
            fill_ellipse(&mut self.image, at.0, at.1, at.0 + diameter, at.1 + diameter, color);
        }
    }

    /// Fills a right triangle: three corners of the box of the given size at
    /// `top_left`; `corner % 4` says which corner is left out, as in
    /// `triangle_points`.
    pub fn triangle(&mut self, corner: usize, color: Rgba, top_left: (u32, u32), size: (u32, u32))
        requires
            top_left.0 + size.0 <= u32::MAX,
            top_left.1 + size.1 <= u32::MAX,
            old(self).can_draw(
                Primitive::Polygon { color, points: triangle_points(corner, top_left, size) },
            ),
        ensures
            final(self).drew(
                *old(self),
                Primitive::Polygon { color, points: triangle_points(corner, top_left, size) },
            ),
    {
        let a = (top_left.0 + size.0, top_left.1);
        let b = (top_left.0 + size.0, top_left.1 + size.1);
        let c = (top_left.0, top_left.1 + size.1);
        let d = top_left;
        let points = if corner % 4 == 0 {
            vec![b, c, d]
        } else if corner % 4 == 1 {
            vec![a, c, d]
        } else if corner % 4 == 2 {
            vec![a, b, d]
        } else {
            vec![a, b, c]
        };
        assert(points@ =~= triangle_points(corner, top_left, size));
        self.polygon(color, &points);
    }

    /// Fills the rectangle of the given size at `top_left`, one pixel taller
    /// than asked.
    pub fn rectangle(&mut self, color: Rgba, top_left: (u32, u32), size: (u32, u32))
        requires
            size.0 < u32::MAX,
            size.1 < u32::MAX,
            old(self).can_draw(Primitive::Rectangle { color, top_left, size }),
        ensures
            final(self).drew(*old(self), Primitive::Rectangle { color, top_left, size }),
    {
        let at = self.current_transform.transform(top_left, size);
        let sides = if self.current_transform.rotation % 2 == 1 {
            (size.1, size.0)
        } else {
            size
        };
        fill_rectangle(&mut self.image, at.0, at.1, sides.0, sides.1 + 1, color);
        assert(same_dimensions(self.image@, old(self).image@));
    }

    /// Fills the rhombus through the midpoints of the edges of the box of the
    /// given size at `top_left`.
    pub fn rhombus(&mut self, color: Rgba, top_left: (u32, u32), size: (u32, u32))
        requires
            top_left.0 + size.0 <= u32::MAX,
            top_left.1 + size.1 <= u32::MAX,
            old(self).can_draw(Primitive::Polygon { color, points: rhombus_points(top_left, size) }),
        ensures
            final(self).drew(
                *old(self),
                Primitive::Polygon { color, points: rhombus_points(top_left, size) },
            ),
    {
        let points = vec![
            (top_left.0 + size.0 / 2, top_left.1),
            (top_left.0 + size.0, top_left.1 + size.1 / 2),
            (top_left.0 + size.0 / 2, top_left.1 + size.1),
            (top_left.0, top_left.1 + size.1 / 2),
        ];
        assert(points@ =~= rhombus_points(top_left, size));
        self.polygon(color, &points);
    }
}

} // verus!
