//! The identicon as a whole: the colour of each group of cells, and the
//! cells drawn one after the other on a canvas of the background colour.

use vstd::prelude::*;
use crate::canvas::{
    blank, drawn_all, is_grid, lemma_drawn_all_concat, new_image, same_dimensions, Image, Shape,
    COORD_MAX,
};
use crate::color::Rgba;
use crate::config::{Config, ConfigView, HALF};
use crate::hash::{
    hash_substring_u32, into_nibbles, lemma_nibbles_value_bound, nibbles_of, nibbles_value, pow16,
};
use crate::hsl::Ratio;
use crate::layout::{
    cell_size, grid_offset, lemma_grid_on_canvas, lemma_half_padding_leaves_nothing,
    padding_pixels,
};
use crate::renderer::{place_all, ShapeRenderer};
use crate::roles::{role_indices, select_roles};
use crate::shapes::{center_primitives, outer_primitives, shows_dot, ShapeFamily};
use crate::transform::Transform;

verus! {

/// The columns and rows of the eight cells at the sides of the grid.
pub open spec fn side_cells() -> Seq<(u32, u32)> {
    seq![(1, 0), (2, 0), (2, 3), (1, 3), (0, 1), (3, 1), (3, 2), (0, 2)]
}

/// The columns and rows of the four cells at the corners of the grid.
pub open spec fn corner_cells() -> Seq<(u32, u32)> {
    seq![(0, 0), (3, 0), (3, 3), (0, 3)]
}

/// The columns and rows of the four cells at the centre of the grid.
pub open spec fn center_cells() -> Seq<(u32, u32)> {
    seq![(1, 1), (2, 1), (2, 2), (1, 2)]
}

/// The placement of the cell of side `cell` in the given column and row of
/// a grid that starts at `offset`, turned by `turns` quarters.
pub open spec fn cell_at(offset: u32, cell: u32, position: (u32, u32), turns: int) -> Transform {
    let x = offset + position.0 * cell;
    let y = offset + position.1 * cell;
    Transform {
        x: x as u32,
        y: y as u32,
        rotation: (turns % 4) as u8,
        right: (x + cell) as u32,
        bottom: (y + cell) as u32,
    }
}

/// A group of cells that share a shape and a colour: where the cells lie,
/// which family their shape is of, which nibble of the hash selects it and
/// which one, if any, turns the first cell.
pub struct CellGroup {
    pub family: ShapeFamily,
    pub shape_index: usize,
    pub rotation_index: Option<usize>,
    pub color: Rgba,
    pub background: Rgba,
    pub positions: Seq<(u32, u32)>,
}

impl CellGroup {
    /// The quarter turns of the first cell.
    pub open spec fn first_rotation(self, nibbles: Seq<u8>) -> int {
        match self.rotation_index {
            Some(index) => nibbles[index as int] as int,
            None => 0,
        }
    }

    /// The placement of the cell `i` of the group, each cell turned a
    /// quarter further than the one before it.
    pub open spec fn cell(self, nibbles: Seq<u8>, offset: u32, cell: u32, i: int) -> Transform {
        cell_at(offset, cell, self.positions[i], self.first_rotation(nibbles) + i)
    }

    /// The shapes of the cell `i` of the group on the canvas.
    pub open spec fn cell_shapes(self, nibbles: Seq<u8>, offset: u32, cell: u32, i: int) -> Seq<
        Shape,
    > {
        place_all(
            self.cell(nibbles, offset, cell, i),
            self.family.primitives(
                self.color,
                self.background,
                cell,
                nibbles[self.shape_index as int],
                i as usize,
            ),
        )
    }

    /// The shapes of the first `count` cells of the group, cell by cell.
    pub open spec fn shapes(self, nibbles: Seq<u8>, offset: u32, cell: u32, count: int) -> Seq<
        Shape,
    >
        decreases count,
    {
        if count <= 0 {
            Seq::empty()
        } else {
            self.shapes(nibbles, offset, cell, count - 1) + self.cell_shapes(
                nibbles,
                offset,
                cell,
                count - 1,
            )
        }
    }

    /// Whether the group can be drawn: the two nibbles exist, the cells lie
    /// in the four columns and rows of the grid, those of the centre in the
    /// first three, and the first cell is not turned where it shows the dot.
    pub open spec fn fits(self, nibbles: Seq<u8>) -> bool {
        &&& self.shape_index < nibbles.len()
        &&& self.rotation_index matches Some(index) ==> index < nibbles.len()
        &&& forall|i: int|
            0 <= i < self.positions.len() ==> (#[trigger] self.positions[i]).0 <= self.reach()
                && self.positions[i].1 <= self.reach()
        &&& self.family == ShapeFamily::Center && shows_dot(nibbles[self.shape_index as int], 0)
            ==> self.first_rotation(nibbles) % 4 == 0
    }

    /// The last column and row that a cell of the group may lie in.
    pub open spec fn reach(self) -> int {
        match self.family {
            ShapeFamily::Outer => 3,
            ShapeFamily::Center => 2,
        }
    }
}

/// A cell of a group that fits, in a grid that ends at `bound` or before,
/// is well-formed, has the side `cell`, and ends, with its family's margin,
/// at `bound` or before.
pub proof fn lemma_cell_in_grid(
    group: CellGroup,
    nibbles: Seq<u8>,
    offset: u32,
    cell: u32,
    bound: int,
    i: int,
)
    requires
        group.fits(nibbles),
        offset + 4 * cell <= bound <= u32::MAX,
        0 <= i < group.positions.len() <= usize::MAX,
    ensures
        group.cell(nibbles, offset, cell, i).wf(),
        group.cell(nibbles, offset, cell, i).size() == cell,
        group.cell(nibbles, offset, cell, i).x == offset + group.positions[i].0 * cell,
        group.cell(nibbles, offset, cell, i).y == offset + group.positions[i].1 * cell,
        group.cell(nibbles, offset, cell, i).right + group.family.margin(cell) <= bound,
        group.cell(nibbles, offset, cell, i).bottom + group.family.margin(cell) <= bound,
        group.family == ShapeFamily::Center && shows_dot(
            nibbles[group.shape_index as int],
            i as usize,
        ) ==> group.cell(nibbles, offset, cell, i).rotation == 0,
{
    let p = group.positions[i];
    let reach = group.reach();
    assert(0 <= p.0 * cell <= reach * cell) by (nonlinear_arith)
        requires
            0 <= p.0 <= reach,
            0 <= cell,
    ;
    assert(0 <= p.1 * cell <= reach * cell) by (nonlinear_arith)
        requires
            0 <= p.1 <= reach,
            0 <= cell,
    ;
    assert(reach * cell <= 3 * cell) by (nonlinear_arith)
        requires
            0 <= reach <= 3,
            0 <= cell,
    ;
    assert(group.family == ShapeFamily::Center ==> reach * cell == 2 * cell);
}

/// Every shape of the first `count` cells of a group that fits lies within
/// `bound`, where the grid ends at `bound` or before.
pub proof fn lemma_group_within(
    group: CellGroup,
    nibbles: Seq<u8>,
    offset: u32,
    cell: u32,
    bound: int,
    count: int,
    k: int,
)
    requires
        group.fits(nibbles),
        offset + 4 * cell <= bound <= u32::MAX,
        0 <= count <= group.positions.len() <= usize::MAX,
        0 <= k < group.shapes(nibbles, offset, cell, count).len(),
    ensures
        group.shapes(nibbles, offset, cell, count)[k].within(bound),
    decreases count,
{
    let before = group.shapes(nibbles, offset, cell, count - 1);
    if k < before.len() {
        lemma_group_within(group, nibbles, offset, cell, bound, count - 1, k);
    } else {
        let i = count - 1;
        lemma_cell_in_grid(group, nibbles, offset, cell, bound, i);
        group.family.lemma_within(
            group.cell(nibbles, offset, cell, i),
            group.color,
            group.background,
            cell,
            nibbles[group.shape_index as int],
            i as usize,
            bound,
            k - before.len(),
        );
    }
}

/// Cells without area hold no shape.
pub proof fn lemma_empty_cells_hold_nothing(
    group: CellGroup,
    nibbles: Seq<u8>,
    offset: u32,
    count: int,
)
    ensures
        group.shapes(nibbles, offset, 0, count) == Seq::<Shape>::empty(),
    decreases count,
{
    if count > 0 {
        reveal(outer_primitives);
        reveal(center_primitives);
        lemma_empty_cells_hold_nothing(group, nibbles, offset, count - 1);
        assert(group.cell_shapes(nibbles, offset, 0, count - 1) =~= Seq::<Shape>::empty());
        assert(group.shapes(nibbles, offset, 0, count) =~= Seq::<Shape>::empty());
    }
}

/// Draws the cells of a group, each turned a quarter further than the one
/// before it.
pub fn render_shape(
    hash: &[u8; 40],
    shape_index: usize,
    rotation_index: Option<usize>,
    renderer: &mut ShapeRenderer,
    color: Rgba,
    background_color: Rgba,
    cell_offset: u32,
    cell_size: u32,
    family: ShapeFamily,
    render_positions: &Vec<(u32, u32)>,
)
    requires
        (CellGroup {
            family,
            shape_index,
            rotation_index,
            color,
            background: background_color,
            positions: render_positions@,
        }).fits(hash@),
        cell_offset + 4 * cell_size <= COORD_MAX,
        old(renderer).image@.len() <= COORD_MAX,
    ensures
        final(renderer).image@ == drawn_all(
            old(renderer).image@,
            (CellGroup {
                family,
                shape_index,
                rotation_index,
                color,
                background: background_color,
                positions: render_positions@,
            }).shapes(hash@, cell_offset, cell_size, render_positions@.len() as int),
        ),
        same_dimensions(final(renderer).image@, old(renderer).image@),
        final(renderer).current_transform == if render_positions@.len() == 0 {
            old(renderer).current_transform
        } else {
            (CellGroup {
                family,
                shape_index,
                rotation_index,
                color,
                background: background_color,
                positions: render_positions@,
            }).cell(hash@, cell_offset, cell_size, render_positions@.len() - 1)
        },
{
    let ghost group = CellGroup {
        family,
        shape_index,
        rotation_index,
        color,
        background: background_color,
        positions: render_positions@,
    };
    let first: u8 = match rotation_index {
        Some(index) => hash[index],
        None => 0,
    };
    let selector = hash[shape_index];
    let mut i: usize = 0;
    while i < render_positions.len()
        invariant
            i <= render_positions@.len(),
            group.family == family,
            group.color == color,
            group.background == background_color,
            group.positions == render_positions@,
            group.shape_index == shape_index,
            group.fits(hash@),
            first == group.first_rotation(hash@),
            selector == hash@[shape_index as int],
            cell_offset + 4 * cell_size <= COORD_MAX,
            old(renderer).image@.len() <= COORD_MAX,
            renderer.image@ == drawn_all(
                old(renderer).image@,
                group.shapes(hash@, cell_offset, cell_size, i as int),
            ),
            same_dimensions(renderer.image@, old(renderer).image@),
            renderer.current_transform == if i == 0 {
                old(renderer).current_transform
            } else {
                group.cell(hash@, cell_offset, cell_size, i - 1)
            },
        decreases render_positions@.len() - i,
    {
        let ghost before = renderer.image@;
        proof {
            lemma_cell_in_grid(group, hash@, cell_offset, cell_size, COORD_MAX as int, i as int);
        }
        render_cell(
            renderer,
            family,
            color,
            background_color,
            cell_offset,
            cell_size,
            render_positions[i],
            first,
            selector,
            i,
        );
        proof {
            lemma_next_cell(
                group,
                hash@,
                cell_offset,
                cell_size,
                i as int,
                old(renderer).image@,
                before,
                renderer.image@,
            );
            lemma_same_dimensions_chain(renderer.image@, before, old(renderer).image@);
        }
        i = i + 1;
    }
}

/// Draws the cell in the given column and row of the grid, as the one that
/// follows `position_index` others of its group.
fn render_cell(
    renderer: &mut ShapeRenderer,
    family: ShapeFamily,
    color: Rgba,
    background_color: Rgba,
    cell_offset: u32,
    cell_size: u32,
    position: (u32, u32),
    first_rotation: u8,
    selector: u8,
    position_index: usize,
)
    requires
        cell_at(cell_offset, cell_size, position, first_rotation + position_index).wf(),
        cell_at(cell_offset, cell_size, position, first_rotation + position_index).size()
            == cell_size,
        cell_at(cell_offset, cell_size, position, first_rotation + position_index).x == cell_offset
            + position.0 * cell_size,
        cell_at(cell_offset, cell_size, position, first_rotation + position_index).y == cell_offset
            + position.1 * cell_size,
        cell_at(cell_offset, cell_size, position, first_rotation + position_index).right
            + family.margin(cell_size) <= COORD_MAX,
        cell_at(cell_offset, cell_size, position, first_rotation + position_index).bottom
            + family.margin(cell_size) <= COORD_MAX,
        family == ShapeFamily::Center && shows_dot(selector, position_index) ==> first_rotation
            % 4 == 0,
        old(renderer).image@.len() <= COORD_MAX,
    ensures
        final(renderer).image@ == drawn_all(
            old(renderer).image@,
            place_all(
                cell_at(cell_offset, cell_size, position, first_rotation + position_index),
                family.primitives(color, background_color, cell_size, selector, position_index),
            ),
        ),
        same_dimensions(final(renderer).image@, old(renderer).image@),
        final(renderer).current_transform == cell_at(
            cell_offset,
            cell_size,
            position,
            first_rotation + position_index,
        ),
{
    let rotation: u8 = ((first_rotation % 4) as usize + position_index % 4) as u8 % 4;
    assert(rotation == (first_rotation + position_index) % 4);
    let x = cell_offset + position.0 * cell_size;
    let y = cell_offset + position.1 * cell_size;
    renderer.current_transform = Transform::new(x, y, cell_size, rotation);
    family.render(renderer, color, background_color, cell_size, selector, position_index);
}

/// The cells of a group drawn up to `i`, and then the cell `i`, are the
/// cells drawn up to `i + 1`.
proof fn lemma_next_cell(
    group: CellGroup,
    nibbles: Seq<u8>,
    offset: u32,
    cell: u32,
    i: int,
    start: Seq<Seq<Rgba>>,
    before: Seq<Seq<Rgba>>,
    after: Seq<Seq<Rgba>>,
)
    requires
        0 <= i,
        before == drawn_all(start, group.shapes(nibbles, offset, cell, i)),
        after == drawn_all(before, group.cell_shapes(nibbles, offset, cell, i)),
    ensures
        after == drawn_all(start, group.shapes(nibbles, offset, cell, i + 1)),
{
    lemma_drawn_all_concat(
        start,
        group.shapes(nibbles, offset, cell, i),
        group.cell_shapes(nibbles, offset, cell, i),
    );
}

/// Grids of the same dimensions as a third are of the same dimensions.
proof fn lemma_same_dimensions_chain(a: Seq<Seq<Rgba>>, b: Seq<Seq<Rgba>>, c: Seq<Seq<Rgba>>)
    requires
        same_dimensions(a, b),
        same_dimensions(b, c),
    ensures
        same_dimensions(a, c),
{
    assert forall|y: int| 0 <= y < a.len() implies (#[trigger] a[y]).len() == c[y].len() by {
        assert(a[y].len() == b[y].len());
        assert(b[y].len() == c[y].len());
    }
}

/// The hue of an identicon, in degrees: the number that the last seven
/// nibbles spell, as that share of 360 degrees which it is of the greatest
/// such number.
pub open spec fn hue_of(nibbles: Seq<u8>) -> Ratio {
    Ratio { num: (360 * nibbles_value(nibbles.subrange(33, 40))) as u64, den: 0xfff_ffff }
}

/// The hue of an identicon is at most a full turn, which it reaches where
/// the last seven nibbles are all 15.
pub proof fn lemma_hue_within_turn(hash: Seq<u8>)
    requires
        hash.len() == 20,
    ensures
        hue_of(nibbles_of(hash)).num <= 360 * hue_of(nibbles_of(hash)).den,
        hue_of(nibbles_of(hash)).num == 360 * nibbles_value(nibbles_of(hash).subrange(33, 40)),
{
    lemma_nibbles_value_bound(nibbles_of(hash).subrange(33, 40));
    reveal_with_fuel(pow16, 8);
}

/// The three groups of cells of an identicon: the sides, the corners and
/// the centre, each in the colour of its role.
pub open spec fn identicon_groups(hash: Seq<u8>, c: ConfigView) -> Seq<CellGroup> {
    let nibbles = nibbles_of(hash);
    let colors = c.palette(hue_of(nibbles));
    let roles = role_indices(nibbles[8], nibbles[9], nibbles[10]);
    seq![
        CellGroup {
            family: ShapeFamily::Outer,
            shape_index: 2,
            rotation_index: Some(3usize),
            color: colors.at(roles[0] as int),
            background: c.background_color,
            positions: side_cells(),
        },
        CellGroup {
            family: ShapeFamily::Outer,
            shape_index: 4,
            rotation_index: Some(5usize),
            color: colors.at(roles[1] as int),
            background: c.background_color,
            positions: corner_cells(),
        },
        CellGroup {
            family: ShapeFamily::Center,
            shape_index: 1,
            rotation_index: None,
            color: colors.at(roles[2] as int),
            background: c.background_color,
            positions: center_cells(),
        },
    ]
}

/// All the shapes of one of the groups of an identicon.
pub open spec fn group_shapes(hash: Seq<u8>, c: ConfigView, which: int) -> Seq<Shape> {
    let group = identicon_groups(hash, c)[which];
    group.shapes(
        nibbles_of(hash),
        grid_offset(c) as u32,
        cell_size(c) as u32,
        group.positions.len() as int,
    )
}

/// The shapes of the identicon of a hash of 20 bytes, in the order in which
/// they are drawn: the sides, the corners, the centre.
pub open spec fn identicon_shapes(hash: Seq<u8>, c: ConfigView) -> Seq<Shape> {
    group_shapes(hash, c, 0) + group_shapes(hash, c, 1) + group_shapes(hash, c, 2)
}

/// The pixels of the identicon: a square of the background colour with the
/// shapes drawn on it.
pub open spec fn identicon(hash: Seq<u8>, c: ConfigView) -> Seq<Seq<Rgba>> {
    drawn_all(
        blank(c.size as nat, c.size as nat, c.background_color),
        identicon_shapes(hash, c),
    )
}

/// The groups of an identicon fit.
pub proof fn lemma_groups_fit(hash: Seq<u8>, c: ConfigView, which: int)
    requires
        hash.len() == 20,
        0 <= which < 3,
    ensures
        identicon_groups(hash, c)[which].fits(nibbles_of(hash)),
        identicon_groups(hash, c)[which].positions.len() <= 8,
{
}

/// Every shape of an identicon lies on the canvas: no vertex of a polygon
/// and no corner of the box of a circle or a rectangle lies further right
/// or down than the canvas reaches.
pub proof fn lemma_shapes_on_canvas(hash: Seq<u8>, c: ConfigView, i: int)
    requires
        hash.len() == 20,
        c.renderable(),
        0 <= i < identicon_shapes(hash, c).len(),
    ensures
        identicon_shapes(hash, c)[i].within(c.size as int),
{
    lemma_grid_on_canvas(c);
    let nibbles = nibbles_of(hash);
    let offset = grid_offset(c) as u32;
    let cell = cell_size(c) as u32;
    let first = group_shapes(hash, c, 0);
    let second = group_shapes(hash, c, 1);
    let groups = identicon_groups(hash, c);
    lemma_groups_fit(hash, c, 0);
    lemma_groups_fit(hash, c, 1);
    lemma_groups_fit(hash, c, 2);
    if i < first.len() {
        lemma_group_within(groups[0], nibbles, offset, cell, c.size as int, 8, i);
    } else if i < first.len() + second.len() {
        lemma_group_within(groups[1], nibbles, offset, cell, c.size as int, 4, i - first.len());
    } else {
        lemma_group_within(
            groups[2],
            nibbles,
            offset,
            cell,
            c.size as int,
            4,
            i - first.len() - second.len(),
        );
    }
}

/// Where the padding leaves the cells no area, at a padding of one half for
/// one, the identicon shows the background and nothing else.
pub proof fn lemma_no_room_shows_background(hash: Seq<u8>, c: ConfigView)
    requires
        cell_size(c) == 0,
    ensures
        identicon(hash, c) == blank(c.size as nat, c.size as nat, c.background_color),
{
    let nibbles = nibbles_of(hash);
    let offset = grid_offset(c) as u32;
    let groups = identicon_groups(hash, c);
    lemma_empty_cells_hold_nothing(groups[0], nibbles, offset, groups[0].positions.len() as int);
    lemma_empty_cells_hold_nothing(groups[1], nibbles, offset, groups[1].positions.len() as int);
    lemma_empty_cells_hold_nothing(groups[2], nibbles, offset, groups[2].positions.len() as int);
    assert(identicon_shapes(hash, c) =~= Seq::<Shape>::empty());
}

/// With a padding of one half the identicon shows the background and
/// nothing else.
pub proof fn lemma_half_padding_shows_background(hash: Seq<u8>, c: ConfigView)
    requires
        c.padding == HALF,
    ensures
        identicon(hash, c) == blank(c.size as nat, c.size as nat, c.background_color),
{
    lemma_half_padding_leaves_nothing(c);
    lemma_no_room_shows_background(hash, c);
}

/// Where the grid ends before the right and the bottom edge of the canvas,
/// as it does with a padding of a pixel or more and with a size that four
/// does not divide, every coordinate of every shape is the coordinate of a
/// pixel: it is less than the size.
pub proof fn lemma_shapes_inside_canvas(hash: Seq<u8>, c: ConfigView, i: int)
    requires
        hash.len() == 20,
        c.renderable(),
        grid_offset(c) + 4 * cell_size(c) < c.size,
        0 <= i < identicon_shapes(hash, c).len(),
    ensures
        identicon_shapes(hash, c)[i].within(c.size - 1),
{
    lemma_grid_on_canvas(c);
    let nibbles = nibbles_of(hash);
    let offset = grid_offset(c) as u32;
    let cell = cell_size(c) as u32;
    let first = group_shapes(hash, c, 0);
    let second = group_shapes(hash, c, 1);
    let groups = identicon_groups(hash, c);
    lemma_groups_fit(hash, c, 0);
    lemma_groups_fit(hash, c, 1);
    lemma_groups_fit(hash, c, 2);
    if i < first.len() {
        lemma_group_within(groups[0], nibbles, offset, cell, c.size - 1, 8, i);
    } else if i < first.len() + second.len() {
        lemma_group_within(groups[1], nibbles, offset, cell, c.size - 1, 4, i - first.len());
    } else {
        lemma_group_within(
            groups[2],
            nibbles,
            offset,
            cell,
            c.size - 1,
            4,
            i - first.len() - second.len(),
        );
    }
}

/// Two renderings of one hash with one configuration are the same, pixel
/// for pixel.
pub proof fn lemma_rendering_is_deterministic(
    first: Image,
    second: Image,
    hash: Seq<u8>,
    c: ConfigView,
)
    requires
        first@ == identicon(hash, c),
        second@ == identicon(hash, c),
    ensures
        first@ == second@,
{
}

/// The cells at the sides of the grid.
fn side_positions() -> (positions: Vec<(u32, u32)>)
    ensures
        positions@ == side_cells(),
{
    let positions = vec![(1, 0), (2, 0), (2, 3), (1, 3), (0, 1), (3, 1), (3, 2), (0, 2)];
    assert(positions@ =~= side_cells());
    positions
}

/// The cells at the corners of the grid.
fn corner_positions() -> (positions: Vec<(u32, u32)>)
    ensures
        positions@ == corner_cells(),
{
    let positions = vec![(0, 0), (3, 0), (3, 3), (0, 3)];
    assert(positions@ =~= corner_cells());
    positions
}

/// The cells at the centre of the grid.
fn center_positions() -> (positions: Vec<(u32, u32)>)
    ensures
        positions@ == center_cells(),
{
    let positions = vec![(1, 1), (2, 1), (2, 2), (1, 2)];
    assert(positions@ =~= center_cells());
    positions
}

/// Renders the identicon of a hash of 20 bytes.
pub fn render_identicon(hash: [u8; 20], config: &Config) -> (image: Image)
    requires
        config@.renderable(),
    ensures
        image@ == identicon(hash@, config@),
        is_grid(image@, config@.size as nat, config@.size as nat),
{
    let ghost c = config@;
    let size = config.size;
    let background = config.background_color;
    proof {
        lemma_grid_on_canvas(c);
        assert(size * size <= u32::MAX) by (nonlinear_arith)
            requires
                size <= 65_535,
        ;
        assert(0 <= config.padding * size <= 500_000 * 65_535) by (nonlinear_arith)
            requires
                0 <= config.padding <= 500_000,
                0 <= size <= 65_535,
        ;
    }
    let image = new_image(size, size, background);
    let padding: u32 = ((2 * (config.padding as u64 * size as u64) + 1_000_000) / 2_000_000) as u32;
    let inner: u32 = if size >= 2 * padding {
        size - 2 * padding
    } else {
        0
    };
    let cell: u32 = inner / 4;
    let offset: u32 = padding + inner / 2 - 2 * cell;
    assert(cell == cell_size(c) && offset == grid_offset(c));

    let nibbles = into_nibbles(hash);
    let seed = hash_substring_u32::<7>(&nibbles, 33);
    proof {
        lemma_nibbles_value_bound(nibbles@.subrange(33, 40));
        reveal_with_fuel(pow16, 8);
    }
    let hue = Ratio { num: 360 * (seed as u64), den: 0xfff_ffff };
    let colors = config.color_candidates(hue);
    let roles = select_roles(nibbles[8], nibbles[9], nibbles[10]);
    let side_color = colors.get_from_rotation_index(roles[0] as usize);
    let corner_color = colors.get_from_rotation_index(roles[1] as usize);
    let center_color = colors.get_from_rotation_index(roles[2] as usize);

    let ghost groups = identicon_groups(hash@, c);
    let ghost canvas = image@;
    proof {
        lemma_groups_fit(hash@, c, 0);
        lemma_groups_fit(hash@, c, 1);
        lemma_groups_fit(hash@, c, 2);
    }
    let mut renderer = ShapeRenderer::new(image);
    let sides = side_positions();
    render_shape(
        &nibbles,
        2,
        Some(3),
        &mut renderer,
        side_color,
        background,
        offset,
        cell,
        ShapeFamily::Outer,
        &sides,
    );
    assert(renderer.image@ == drawn_all(canvas, group_shapes(hash@, c, 0)));
    let corners = corner_positions();
    render_shape(
        &nibbles,
        4,
        Some(5),
        &mut renderer,
        corner_color,
        background,
        offset,
        cell,
        ShapeFamily::Outer,
        &corners,
    );
    let centers = center_positions();
    render_shape(
        &nibbles,
        1,
        None,
        &mut renderer,
        center_color,
        background,
        offset,
        cell,
        ShapeFamily::Center,
        &centers,
    );
    proof {
        lemma_drawn_all_concat(canvas, group_shapes(hash@, c, 0), group_shapes(hash@, c, 1));
        lemma_drawn_all_concat(
            canvas,
            group_shapes(hash@, c, 0) + group_shapes(hash@, c, 1),
            group_shapes(hash@, c, 2),
        );
    }
    renderer.into_image()
}

/// The SHA-1 digest of the bytes of a text in UTF-8.
pub uninterp spec fn sha1_digest(message: Seq<char>) -> Seq<u8>;

/// `sha1_smol::Sha1::from`, `digest` and `bytes`: the 20 bytes of the SHA-1
/// digest of the message, a function of its characters.
#[verifier::external_body]
fn sha1(message: &str) -> (digest: [u8; 20])
    ensures
        digest@ == sha1_digest(message@),
{
    sha1_smol::Sha1::from(message).digest().bytes()
}

/// Renders the identicon of the SHA-1 digest of a message, a user name or
/// a key for one. SHA-1 does not resist a search for collisions: where that
/// matters, hash otherwise and hand 20 bytes to `render_identicon`.
pub fn generate_identicon(message: &str, config: &Config) -> (image: Image)
    requires
        config@.renderable(),
    ensures
        image@ == identicon(sha1_digest(message@), config@),
        is_grid(image@, config@.size as nat, config@.size as nat),
{
    let hash = sha1(message);
    render_identicon(hash, config)
}

} // verus!
