//! The shapes of a cell: four for the cells at the sides and corners of the
//! grid, fourteen for the cells at its centre, each picked by a selector.

use vstd::prelude::*;
use crate::canvas::COORD_MAX;
use crate::color::Rgba;
use crate::renderer::{
    lemma_drew_none, lemma_drew_one, lemma_drew_three, lemma_drew_two, lemma_place_in_cell,
    rhombus_points, triangle_points, Primitive, ShapeRenderer,
};
use crate::transform::Transform;

verus! {

/// The whole hundredths of `cell`: `cell * percent / 100`, rounded down.
pub open spec fn hundredths(cell: u32, percent: int) -> u32 {
    ((cell * percent) / 100) as u32
}

/// What a cell at a side or a corner of the grid shows, by `selector % 4`: a
/// right triangle over the whole cell, one over its lower half, a rhombus,
/// or a circle inset by a sixth of the cell. A cell without area shows
/// nothing.
#[verifier::opaque]
pub open spec fn outer_primitives(color: Rgba, cell: u32, selector: u8) -> Seq<Primitive> {
    let s = selector % 4;
    if cell == 0 {
        seq![]
    } else if s == 0 {
        seq![Primitive::Polygon { color, points: triangle_points(0, (0, 0), (cell, cell)) }]
    } else if s == 1 {
        seq![
            Primitive::Polygon {
                color,
                points: triangle_points(0, (0, cell / 2), (cell, cell / 2)),
            },
        ]
    } else if s == 2 {
        seq![Primitive::Polygon { color, points: rhombus_points((0, 0), (cell, cell)) }]
    } else {
        let m = cell / 6;
        seq![Primitive::Circle { color, top_left: (m, m), diameter: (cell - 2 * m) as u32 }]
    }
}

/// The width of the outer border of the bordered square: fixed for small
/// cells, so that a border shows, and a quarter of the cell from 8 pixels on.
pub open spec fn frame_border(cell: u32) -> u32 {
    if cell < 6 {
        1
    } else if cell < 8 {
        2
    } else {
        cell / 4
    }
}

/// The width of the border round the square cutout: fixed for small cells,
/// and 35 hundredths of the cell from 6 pixels on.
pub open spec fn cutout_border(cell: u32) -> u32 {
    if cell < 4 {
        1
    } else if cell < 6 {
        2
    } else {
        hundredths(cell, 35)
    }
}

/// `a - b - c`, or 0 where that is negative.
pub open spec fn remainder(a: u32, b: u32, c: u32) -> u32 {
    if a >= b + c {
        (a - b - c) as u32
    } else {
        0
    }
}

/// A square with one corner cut off.
pub open spec fn cut_square(color: Rgba, c: u32) -> Seq<Primitive> {
    let k = hundredths(c, 42);
    seq![
        Primitive::Polygon {
            color,
            points: seq![(0, 0), (c, 0), (c, (c - 2 * k) as u32), ((c - k) as u32, c), (0, c)],
        },
    ]
}

/// A triangle over the right half of the cell, eight tenths of it tall.
pub open spec fn tall_triangle(color: Rgba, c: u32) -> Seq<Primitive> {
    let w = c / 2;
    let h = hundredths(c, 80);
    seq![Primitive::Polygon { color, points: triangle_points(2, ((c - w) as u32, 0), (w, h)) }]
}

/// A square in the lower right two thirds of the cell.
pub open spec fn inset_square(color: Rgba, c: u32) -> Seq<Primitive> {
    let w = c / 3;
    let d = (c - w) as u32;
    seq![Primitive::Rectangle { color, top_left: (w, w), size: (d, d) }]
}

/// A square between an outer border of `frame_border` and an inner one of a
/// tenth of the cell, at least one pixel.
pub open spec fn framed_square(color: Rgba, c: u32) -> Seq<Primitive> {
    let inner = if c > 10 {
        c / 10
    } else {
        1
    };
    let outer = frame_border(c);
    let p = remainder(c, inner, outer);
    seq![Primitive::Rectangle { color, top_left: (outer, outer), size: (p, p) }]
}

/// A circle of half the cell's size towards the lower right.
pub open spec fn inset_circle(color: Rgba, c: u32) -> Seq<Primitive> {
    let m = hundredths(c, 15);
    let w = c / 2;
    let p = (c - w - m) as u32;
    seq![Primitive::Circle { color, top_left: (p, p), diameter: w }]
}

/// The whole cell, filled.
pub open spec fn whole_cell(color: Rgba, c: u32) -> Primitive {
    Primitive::Rectangle { color, top_left: (0, 0), size: (c, c) }
}

/// The filled cell with a triangle cut out.
pub open spec fn notched_square(color: Rgba, background: Rgba, c: u32) -> Seq<Primitive> {
    let inner = c / 10;
    let outer = hundredths(c, 40);
    seq![
        whole_cell(color, c),
        Primitive::Polygon {
            color: background,
            points: seq![
                (outer, outer),
                ((c - inner) as u32, outer),
                ((outer + (c - outer - inner) / 2) as u32, (c - inner) as u32),
            ],
        },
    ]
}

/// A hexagon in the shape of a chevron.
pub open spec fn chevron(color: Rgba, c: u32) -> Seq<Primitive> {
    let tenth = c / 10;
    let four = (tenth * 4) as u32;
    let seven = (tenth * 7) as u32;
    seq![
        Primitive::Polygon {
            color,
            points: seq![(0, 0), (c, 0), (c, seven), (four, four), (seven, c), (0, c)],
        },
    ]
}

/// A triangle in the lower right quarter of the cell.
pub open spec fn quarter_triangle(color: Rgba, c: u32) -> Seq<Primitive> {
    let half = c / 2;
    let rest = (c - half) as u32;
    seq![Primitive::Polygon { color, points: triangle_points(3, (half, half), (rest, rest)) }]
}

/// The upper half, the lower left quarter and a triangle in the lower right
/// quarter.
pub open spec fn stepped_square(color: Rgba, c: u32) -> Seq<Primitive> {
    let half = c / 2;
    let rest = (c - half) as u32;
    seq![
        Primitive::Rectangle { color, top_left: (0, 0), size: (c, rest) },
        Primitive::Rectangle { color, top_left: (0, half), size: (rest, rest) },
        Primitive::Polygon { color, points: triangle_points(1, (half, half), (rest, rest)) },
    ]
}

/// The filled cell with a square cut out, between a border of
/// `cutout_border` and one of 14 hundredths of the cell.
pub open spec fn square_cutout(color: Rgba, background: Rgba, c: u32) -> Seq<Primitive> {
    let inner = hundredths(c, 14);
    let outer = cutout_border(c);
    let p = remainder(c, outer, inner);
    seq![
        whole_cell(color, c),
        Primitive::Rectangle { color: background, top_left: (outer, outer), size: (p, p) },
    ]
}

/// The filled cell with a circle cut out.
pub open spec fn circle_cutout(color: Rgba, background: Rgba, c: u32) -> Seq<Primitive> {
    let inner = hundredths(c, 12);
    let outer = hundredths(c, 36);
    seq![
        whole_cell(color, c),
        Primitive::Circle {
            color: background,
            top_left: (outer, outer),
            diameter: (c - inner - outer) as u32,
        },
    ]
}

/// The filled cell with its lower right three quarters cut out.
pub open spec fn corner_cutout(color: Rgba, background: Rgba, c: u32) -> Seq<Primitive> {
    let m = c / 4;
    let p = (c - m) as u32;
    seq![
        whole_cell(color, c),
        Primitive::Rectangle { color: background, top_left: (m, m), size: (p, p) },
    ]
}

/// A dot of 12 tenths of the cell, 4 tenths from the cell's corner: it
/// overhangs the cell by 6 tenths to the right and below.
pub open spec fn dot(color: Rgba, c: u32) -> Seq<Primitive> {
    let m = hundredths(c, 40);
    let w = hundredths(c, 120);
    seq![Primitive::Circle { color, top_left: (m, m), diameter: w }]
}

/// What a cell at the centre of the grid shows, by `selector % 14`. The
/// last of them, the dot, shows only in the first cell of the group
/// (`position == 0`) and nowhere else; 7 and 11 show the same triangle. A
/// cell without area shows nothing.
#[verifier::opaque]
pub open spec fn center_primitives(
    color: Rgba,
    background: Rgba,
    cell: u32,
    selector: u8,
    position: usize,
) -> Seq<Primitive> {
    let s = selector % 14;
    if cell == 0 {
        seq![]
    } else if s == 0 {
        cut_square(color, cell)
    } else if s == 1 {
        tall_triangle(color, cell)
    } else if s == 2 {
        inset_square(color, cell)
    } else if s == 3 {
        framed_square(color, cell)
    } else if s == 4 {
        inset_circle(color, cell)
    } else if s == 5 {
        notched_square(color, background, cell)
    } else if s == 6 {
        chevron(color, cell)
    } else if s == 7 || s == 11 {
        quarter_triangle(color, cell)
    } else if s == 8 {
        stepped_square(color, cell)
    } else if s == 9 {
        square_cutout(color, background, cell)
    } else if s == 10 {
        circle_cutout(color, background, cell)
    } else if s == 12 {
        corner_cutout(color, background, cell)
    } else if position == 0 {
        dot(color, cell)
    } else {
        seq![]
    }
}

/// Whether a primitive lies within a cell of side `cell` and, where it is a
/// polygon, has three points or more.
pub open spec fn fits(p: Primitive, cell: u32) -> bool {
    &&& p.in_cell(cell as int)
    &&& p matches Primitive::Polygon { points, .. } ==> points.len() >= 3
}

proof fn lemma_triangle_fits(color: Rgba, corner: usize, p: (u32, u32), b: (u32, u32), c: u32)
    requires
        p.0 + b.0 <= c,
        p.1 + b.1 <= c,
    ensures
        fits(Primitive::Polygon { color, points: triangle_points(corner, p, b) }, c),
{
}

proof fn lemma_cut_square_fits(color: Rgba, c: u32)
    ensures
        cut_square(color, c).len() == 1,
        fits(cut_square(color, c)[0], c),
{
}

proof fn lemma_tall_triangle_fits(color: Rgba, c: u32)
    ensures
        tall_triangle(color, c).len() == 1,
        fits(tall_triangle(color, c)[0], c),
{
    lemma_triangle_fits(color, 2, ((c - c / 2) as u32, 0), (c / 2, hundredths(c, 80)), c);
}

proof fn lemma_notched_square_fits(color: Rgba, background: Rgba, c: u32)
    ensures
        notched_square(color, background, c).len() == 2,
        fits(notched_square(color, background, c)[0], c),
        fits(notched_square(color, background, c)[1], c),
{
}

proof fn lemma_chevron_fits(color: Rgba, c: u32)
    ensures
        chevron(color, c).len() == 1,
        fits(chevron(color, c)[0], c),
{
}

proof fn lemma_quarter_triangle_fits(color: Rgba, c: u32)
    ensures
        quarter_triangle(color, c).len() == 1,
        fits(quarter_triangle(color, c)[0], c),
{
    lemma_triangle_fits(color, 3, (c / 2, c / 2), ((c - c / 2) as u32, (c - c / 2) as u32), c);
}

proof fn lemma_stepped_square_fits(color: Rgba, c: u32)
    ensures
        stepped_square(color, c).len() == 3,
        fits(stepped_square(color, c)[0], c),
        fits(stepped_square(color, c)[1], c),
        fits(stepped_square(color, c)[2], c),
{
    lemma_triangle_fits(color, 1, (c / 2, c / 2), ((c - c / 2) as u32, (c - c / 2) as u32), c);
}

/// But for the dot, every shape of a centre cell lies within the cell, and
/// every polygon among them has three points or more.
pub proof fn lemma_center_fits(
    color: Rgba,
    background: Rgba,
    cell: u32,
    selector: u8,
    position: usize,
    i: int,
)
    requires
        selector % 14 != 13,
        0 <= i < center_primitives(color, background, cell, selector, position).len(),
    ensures
        fits(center_primitives(color, background, cell, selector, position)[i], cell),
{
    reveal(center_primitives);
    let s = selector % 14;
    if cell == 0 {
    } else if s == 0 {
        lemma_cut_square_fits(color, cell);
    } else if s == 1 {
        lemma_tall_triangle_fits(color, cell);
    } else if s == 2 {
    } else if s == 3 {
    } else if s == 4 {
    } else if s == 5 {
        lemma_notched_square_fits(color, background, cell);
    } else if s == 6 {
        lemma_chevron_fits(color, cell);
    } else if s == 7 || s == 11 {
        lemma_quarter_triangle_fits(color, cell);
    } else if s == 8 {
        lemma_stepped_square_fits(color, cell);
    } else if s == 9 {
    } else if s == 10 {
    } else {
    }
}

/// Whether a centre cell shows the dot: with a selector of 13 modulo 14, in
/// the first cell of the group. The dot overhangs its cell and is drawn
/// unturned.
pub open spec fn shows_dot(selector: u8, position: usize) -> bool {
    selector % 14 == 13 && position == 0
}

/// Whether the cell has the side `cell` and lies so that the backend takes
/// every shape of a centre cell: the cell's far edges and a margin of the
/// cell's own size beyond them are at most `COORD_MAX`.
pub open spec fn roomy(t: Transform, cell: u32) -> bool {
    &&& t.wf()
    &&& t.size() == cell
    &&& t.right + cell <= COORD_MAX
    &&& t.bottom + cell <= COORD_MAX
}

/// Every shape of an outer cell is admitted by the cell and lies within the
/// cell's square on the canvas, and so within every `bound` that the cell's
/// far edges keep to.
pub proof fn lemma_outer_within(
    t: Transform,
    color: Rgba,
    cell: u32,
    selector: u8,
    bound: int,
    i: int,
)
    requires
        t.wf(),
        t.size() == cell,
        t.right <= bound,
        t.bottom <= bound,
        bound <= u32::MAX,
        0 <= i < outer_primitives(color, cell, selector).len(),
    ensures
        outer_primitives(color, cell, selector)[i].admitted(t),
        outer_primitives(color, cell, selector)[i].place(t).within(bound),
        outer_primitives(color, cell, selector)[i] matches Primitive::Polygon { points, .. }
            ==> points.len() >= 3,
{
    reveal(outer_primitives);
    let p = outer_primitives(color, cell, selector)[i];
    assert(p.in_cell(cell as int));
    lemma_place_in_cell(t, p, bound);
}

/// Every shape of a centre cell is admitted by the cell and lies on the
/// canvas within the cell's square widened by the cell's own size to the
/// right and below: the rectangles reach one row below the cell, and the
/// dot, which is drawn unturned, overhangs by six tenths of the cell.
pub proof fn lemma_center_within(
    t: Transform,
    color: Rgba,
    background: Rgba,
    cell: u32,
    selector: u8,
    position: usize,
    bound: int,
    i: int,
)
    requires
        t.wf(),
        t.size() == cell,
        t.right + cell <= bound,
        t.bottom + cell <= bound,
        bound <= u32::MAX,
        shows_dot(selector, position) ==> t.rotation == 0,
        0 <= i < center_primitives(color, background, cell, selector, position).len(),
    ensures
        center_primitives(color, background, cell, selector, position)[i].admitted(t),
        center_primitives(color, background, cell, selector, position)[i].place(t).within(bound),
        center_primitives(color, background, cell, selector, position)[i] matches Primitive::Polygon {
            points,
            ..
        } ==> points.len() >= 3,
{
    reveal(center_primitives);
    let p = center_primitives(color, background, cell, selector, position)[i];
    if selector % 14 == 13 {
    } else {
        lemma_center_fits(color, background, cell, selector, position, i);
        lemma_place_in_cell(t, p, bound);
    }
}

/// Draws the shape of a cell at a side or a corner of the grid.
pub fn render_outer(
    renderer: &mut ShapeRenderer,
    color: Rgba,
    _background_color: Rgba,
    cell_size: u32,
    shape_index: u8,
    _position_index: usize,
)
    requires
        old(renderer).current_transform.wf(),
        old(renderer).current_transform.size() == cell_size,
        old(renderer).current_transform.right <= COORD_MAX,
        old(renderer).current_transform.bottom <= COORD_MAX,
        old(renderer).image@.len() <= COORD_MAX,
    ensures
        final(renderer).drew_all(*old(renderer), outer_primitives(color, cell_size, shape_index)),
{
    let ghost before = *renderer;
    let ghost t = renderer.current_transform;
    let ghost all = outer_primitives(color, cell_size, shape_index);
    proof {
        reveal(outer_primitives);
        lemma_drew_none(before);
        if all.len() > 0 {
            lemma_outer_within(t, color, cell_size, shape_index, COORD_MAX as int, 0);
        }
    }
    if cell_size == 0 {
        return ;
    }
    let s = shape_index % 4;
    if s == 0 {
        renderer.triangle(0, color, (0, 0), (cell_size, cell_size));
    } else if s == 1 {
        renderer.triangle(0, color, (0, cell_size / 2), (cell_size, cell_size / 2));
    } else if s == 2 {
        renderer.rhombus(color, (0, 0), (cell_size, cell_size));
    } else {
        let m = cell_size / 6;
        renderer.circle(color, (m, m), cell_size - 2 * m);
    }
    proof {
        lemma_drew_one(before, *renderer, all);
    }
}

/// Draws the shape of a cell at the centre of the grid.
#[verifier::rlimit(30)]
pub fn render_center(
    renderer: &mut ShapeRenderer,
    color: Rgba,
    background_color: Rgba,
    cell_size: u32,
    shape_index: u8,
    position_index: usize,
)
    requires
        roomy(old(renderer).current_transform, cell_size),
        shows_dot(shape_index, position_index) ==> old(renderer).current_transform.rotation == 0,
        old(renderer).image@.len() <= COORD_MAX,
    ensures
        final(renderer).drew_all(
            *old(renderer),
            center_primitives(color, background_color, cell_size, shape_index, position_index),
        ),
{
    let ghost before = *renderer;
    let ghost t = renderer.current_transform;
    let ghost all = center_primitives(
        color,
        background_color,
        cell_size,
        shape_index,
        position_index,
    );
    proof {
        reveal(center_primitives);
        lemma_drew_none(before);
        assert forall|i: int| 0 <= i < all.len() implies before.can_draw(#[trigger] all[i]) by {
            lemma_center_within(
                t,
                color,
                background_color,
                cell_size,
                shape_index,
                position_index,
                COORD_MAX as int,
                i,
            );
        }
    }
    let c = cell_size;
    let wide = cell_size as u64;
    let s = shape_index % 14;
    if c == 0 {
    } else if s == 0 {
        let k = (wide * 42 / 100) as u32;
        let low = c - 2 * k;
        let left = c - k;
        let points = vec![(0, 0), (c, 0), (c, low), (left, c), (0, c)];
        assert(all[0] == (Primitive::Polygon { color, points: points@ })) by {
            assert(points@ =~= cut_square(color, c)[0]->Polygon_points);
        }
        renderer.polygon(color, &points);
        proof {
            lemma_drew_one(before, *renderer, all);
        }
    } else if s == 1 {
        let w = c / 2;
        let h = (wide * 80 / 100) as u32;
        assert(before.can_draw(all[0]));
        renderer.triangle(2, color, (c - w, 0), (w, h));
        proof {
            lemma_drew_one(before, *renderer, all);
        }
    } else if s == 2 {
        let w = c / 3;
        let d = c - w;
        assert(before.can_draw(all[0]));
        renderer.rectangle(color, (w, w), (d, d));
        proof {
            lemma_drew_one(before, *renderer, all);
        }
    } else if s == 3 {
        let inner = if c > 10 {
            c / 10
        } else {
            1
        };
        let outer = if c < 6 {
            1
        } else if c < 8 {
            2
        } else {
            c / 4
        };
        let p = if c >= inner + outer {
            c - inner - outer
        } else {
            0
        };
        assert(before.can_draw(all[0]));
        renderer.rectangle(color, (outer, outer), (p, p));
        proof {
            lemma_drew_one(before, *renderer, all);
        }
    } else if s == 4 {
        let m = (wide * 15 / 100) as u32;
        let w = c / 2;
        let p = c - w - m;
        assert(before.can_draw(all[0]));
        renderer.circle(color, (p, p), w);
        proof {
            lemma_drew_one(before, *renderer, all);
        }
    } else if s == 5 {
        let inner = c / 10;
        let outer = (wide * 40 / 100) as u32;
        let right = c - inner;
        let tip = outer + (c - outer - inner) / 2;
        let points = vec![(outer, outer), (right, outer), (tip, right)];
        assert(all[1] == (Primitive::Polygon { color: background_color, points: points@ })) by {
            assert(points@ =~= notched_square(color, background_color, c)[1]->Polygon_points);
        }
        assert(before.can_draw(all[0]));
        assert(before.can_draw(all[1]));
        renderer.rectangle(color, (0, 0), (c, c));
        let ghost first = *renderer;
        renderer.polygon(background_color, &points);
        proof {
            lemma_drew_two(before, first, *renderer, all);
        }
    } else if s == 6 {
        let tenth = c / 10;
        let four = tenth * 4;
        let seven = tenth * 7;
        let points = vec![(0, 0), (c, 0), (c, seven), (four, four), (seven, c), (0, c)];
        assert(all[0] == (Primitive::Polygon { color, points: points@ })) by {
            assert(points@ =~= chevron(color, c)[0]->Polygon_points);
        }
        renderer.polygon(color, &points);
        proof {
            lemma_drew_one(before, *renderer, all);
        }
    } else if s == 7 || s == 11 {
        let half = c / 2;
        let rest = c - half;
        assert(before.can_draw(all[0]));
        renderer.triangle(3, color, (half, half), (rest, rest));
        proof {
            lemma_drew_one(before, *renderer, all);
        }
    } else if s == 8 {
        let half = c / 2;
        let rest = c - half;
        assert(before.can_draw(all[0]));
        assert(before.can_draw(all[1]));
        assert(before.can_draw(all[2]));
        renderer.rectangle(color, (0, 0), (c, rest));
        let ghost first = *renderer;
        renderer.rectangle(color, (0, half), (rest, rest));
        let ghost second = *renderer;
        renderer.triangle(1, color, (half, half), (rest, rest));
        proof {
            lemma_drew_three(before, first, second, *renderer, all);
        }
    } else if s == 9 {
        let inner = (wide * 14 / 100) as u32;
        let outer = if c < 4 {
            1
        } else if c < 6 {
            2
        } else {
            (wide * 35 / 100) as u32
        };
        let p = if c >= outer + inner {
            c - outer - inner
        } else {
            0
        };
        assert(before.can_draw(all[0]));
        assert(before.can_draw(all[1]));
        renderer.rectangle(color, (0, 0), (c, c));
        let ghost first = *renderer;
        renderer.rectangle(background_color, (outer, outer), (p, p));
        proof {
            lemma_drew_two(before, first, *renderer, all);
        }
    } else if s == 10 {
        let inner = (wide * 12 / 100) as u32;
        let outer = (wide * 36 / 100) as u32;
        assert(before.can_draw(all[0]));
        assert(before.can_draw(all[1]));
        renderer.rectangle(color, (0, 0), (c, c));
        let ghost first = *renderer;
        renderer.circle(background_color, (outer, outer), c - inner - outer);
        proof {
            lemma_drew_two(before, first, *renderer, all);
        }
    } else if s == 12 {
        let m = c / 4;
        let p = c - m;
        assert(before.can_draw(all[0]));
        assert(before.can_draw(all[1]));
        renderer.rectangle(color, (0, 0), (c, c));
        let ghost first = *renderer;
        renderer.rectangle(background_color, (m, m), (p, p));
        proof {
            lemma_drew_two(before, first, *renderer, all);
        }
    } else if position_index == 0 {
        let m = (wide * 40 / 100) as u32;
        let w = (wide * 120 / 100) as u32;
        assert(before.can_draw(all[0]));
        renderer.circle(color, (m, m), w);
        proof {
            lemma_drew_one(before, *renderer, all);
        }
    }
}

/// The two families of shapes.
#[derive(Clone, Copy, Debug, PartialEq, Eq, Structural)]
pub enum ShapeFamily {
    /// The shapes of the cells at the sides and corners of the grid.
    Outer,
    /// The shapes of the cells at its centre.
    Center,
}

impl ShapeFamily {
    /// What a cell of the family shows.
    pub open spec fn primitives(
        self,
        color: Rgba,
        background: Rgba,
        cell: u32,
        selector: u8,
        position: usize,
    ) -> Seq<Primitive> {
        match self {
            ShapeFamily::Outer => outer_primitives(color, cell, selector),
            ShapeFamily::Center => center_primitives(color, background, cell, selector, position),
        }
    }

    /// The room that a cell of side `cell` needs beyond its far edges: its
    /// own size again for the centre, whose dot overhangs, and none for the
    /// others.
    pub open spec fn margin(self, cell: u32) -> int {
        match self {
            ShapeFamily::Outer => 0,
            ShapeFamily::Center => cell as int,
        }
    }

    /// Draws the shape of a cell of the family.
    pub fn render(
        self,
        renderer: &mut ShapeRenderer,
        color: Rgba,
        background_color: Rgba,
        cell_size: u32,
        shape_index: u8,
        position_index: usize,
    )
        requires
            old(renderer).current_transform.wf(),
            old(renderer).current_transform.size() == cell_size,
            old(renderer).current_transform.right + self.margin(cell_size) <= COORD_MAX,
            old(renderer).current_transform.bottom + self.margin(cell_size) <= COORD_MAX,
            self == ShapeFamily::Center && shows_dot(shape_index, position_index) ==> old(
                renderer,
            ).current_transform.rotation == 0,
            old(renderer).image@.len() <= COORD_MAX,
        ensures
            final(renderer).drew_all(
                *old(renderer),
                self.primitives(color, background_color, cell_size, shape_index, position_index),
            ),
    {
        match self {
            ShapeFamily::Outer => render_outer(
                renderer,
                color,
                background_color,
                cell_size,
                shape_index,
                position_index,
            ),
            ShapeFamily::Center => render_center(
                renderer,
                color,
                background_color,
                cell_size,
                shape_index,
                position_index,
            ),
        }
    }

    /// Every shape of a cell of the family is admitted by the cell and lies
    /// within `bound` on the canvas, where the cell's far edges and the
    /// family's margin beyond them do.
    pub proof fn lemma_within(
        self,
        t: Transform,
        color: Rgba,
        background: Rgba,
        cell: u32,
        selector: u8,
        position: usize,
        bound: int,
        i: int,
    )
        requires
            t.wf(),
            t.size() == cell,
            t.right + self.margin(cell) <= bound,
            t.bottom + self.margin(cell) <= bound,
            bound <= u32::MAX,
            self == ShapeFamily::Center && shows_dot(selector, position) ==> t.rotation == 0,
            0 <= i < self.primitives(color, background, cell, selector, position).len(),
        ensures
            self.primitives(color, background, cell, selector, position)[i].admitted(t),
            self.primitives(color, background, cell, selector, position)[i].place(t).within(bound),
    {
        match self {
            ShapeFamily::Outer => lemma_outer_within(t, color, cell, selector, bound, i),
            ShapeFamily::Center => lemma_center_within(
                t,
                color,
                background,
                cell,
                selector,
                position,
                bound,
                i,
            ),
        }
    }
}

} // verus!
