//! Where the grid lies on the canvas.

use vstd::prelude::*;
use crate::config::{ConfigView, HALF};

verus! {

/// The padding in pixels: the padding, in millionths, times the size,
/// rounded to the nearest whole number, halves upwards.
pub open spec fn padding_pixels(c: ConfigView) -> int {
    (2 * (c.padding * c.size) + 1_000_000) / 2_000_000
}

/// The side of the square that the padding leaves for the grid, or 0 where
/// the padding on both sides exceeds the size.
pub open spec fn inner_size(c: ConfigView) -> int {
    if c.size >= 2 * padding_pixels(c) {
        c.size - 2 * padding_pixels(c)
    } else {
        0
    }
}

/// The side of a cell: a quarter of the inner size, rounded down.
pub open spec fn cell_size(c: ConfigView) -> int {
    inner_size(c) / 4
}

/// The distance of the grid from the left and the top edge, which centres
/// the four cells in the inner square.
pub open spec fn grid_offset(c: ConfigView) -> int {
    padding_pixels(c) + inner_size(c) / 2 - 2 * cell_size(c)
}

/// The grid lies on the canvas: it ends no further right or down than the
/// canvas does.
pub proof fn lemma_grid_on_canvas(c: ConfigView)
    requires
        0 <= c.padding <= HALF,
        c.size >= 1,
    ensures
        0 <= padding_pixels(c) <= c.size,
        0 <= cell_size(c),
        0 <= grid_offset(c),
        grid_offset(c) + 4 * cell_size(c) <= c.size,
{
    assert(0 <= c.padding * c.size <= HALF * c.size) by (nonlinear_arith)
        requires
            0 <= c.padding <= HALF,
            c.size >= 1,
    ;
    assert(HALF * c.size == 500_000 * c.size);
}

/// The grid ends before the edges of the canvas where the padding is a
/// pixel or more, and where four does not divide the size, on a canvas of
/// two pixels or more.
pub proof fn lemma_grid_inside_canvas(c: ConfigView)
    requires
        0 <= c.padding <= HALF,
        c.size >= 2,
        padding_pixels(c) >= 1 || c.size % 4 != 0,
    ensures
        grid_offset(c) + 4 * cell_size(c) < c.size,
{
    assert(0 <= c.padding * c.size <= HALF * c.size) by (nonlinear_arith)
        requires
            0 <= c.padding <= HALF,
            c.size >= 1,
    ;
    assert(HALF * c.size == 500_000 * c.size);
    assert(2 * padding_pixels(c) <= c.size + 1);
}

/// Without padding, and with a size that four divides, the grid fills the
/// canvas from edge to edge.
pub proof fn lemma_no_padding_fills_canvas(c: ConfigView)
    requires
        c.padding == 0,
        c.size % 4 == 0,
    ensures
        grid_offset(c) == 0,
        4 * cell_size(c) == c.size,
{
    assert(c.padding * c.size == 0) by (nonlinear_arith)
        requires
            c.padding == 0,
    ;
}

/// With a padding of one half no room is left: the cells have no area.
pub proof fn lemma_half_padding_leaves_nothing(c: ConfigView)
    requires
        c.padding == HALF,
    ensures
        cell_size(c) == 0,
{
    assert(c.padding * c.size == HALF * c.size) by (nonlinear_arith)
        requires
            c.padding == HALF,
    ;
    assert(HALF * c.size == 500_000 * c.size);
}

} // verus!
