//! Placement of one grid cell: where it lies on the canvas and how it is
//! turned.

use vstd::prelude::*;

verus! {

/// The placement of a cell: its top-left corner `(x, y)`, its far edges
/// `right` and `bottom`, and a quarter turn `rotation`.
#[derive(Clone, Copy, Debug)]
pub struct Transform {
    pub x: u32,
    pub y: u32,
    pub rotation: u8,
    pub right: u32,
    pub bottom: u32,
}

impl Transform {
    /// Whether `rotation` is one of the four quarter turns and the far edges
    /// lie beyond the corner by one and the same size.
    pub open spec fn wf(self) -> bool {
        &&& self.rotation < 4
        &&& self.x <= self.right
        &&& self.y <= self.bottom
        &&& self.right - self.x == self.bottom - self.y
    }

    /// The side of the cell.
    pub open spec fn size(self) -> int {
        self.right - self.x
    }

    /// Whether the canvas position of the point `p`, the top-left corner of a
    /// box of the size `b`, can be computed in 32 bits without wrapping.
    pub open spec fn admits(self, p: (u32, u32), b: (u32, u32)) -> bool {
        if self.rotation == 0 {
            self.x + p.0 <= u32::MAX && self.y + p.1 <= u32::MAX
        } else if self.rotation == 1 {
            p.1 + b.1 <= self.right && self.y + p.0 <= u32::MAX
        } else if self.rotation == 2 {
            p.0 + b.0 <= self.right && p.1 + b.1 <= self.bottom
        } else {
            self.x + p.1 <= u32::MAX && p.0 + b.0 <= self.bottom
        }
    }

    /// The canvas position of the top-left corner of the box of size `b` at
    /// `p`, once the cell is turned: by no turn, a quarter, a half, or three
    /// quarters (a `rotation` above 3 counts as 3).
    pub open spec fn apply(self, p: (u32, u32), b: (u32, u32)) -> (u32, u32) {
        if self.rotation == 0 {
            ((self.x + p.0) as u32, (self.y + p.1) as u32)
        } else if self.rotation == 1 {
            ((self.right - p.1 - b.1) as u32, (self.y + p.0) as u32)
        } else if self.rotation == 2 {
            ((self.right - p.0 - b.0) as u32, (self.bottom - p.1 - b.1) as u32)
        } else {
            ((self.x + p.1) as u32, (self.bottom - p.0 - b.0) as u32)
        }
    }

    /// Whether the box of size `b` at `p` lies within the cell.
    pub open spec fn in_cell(self, p: (u32, u32), b: (u32, u32)) -> bool {
        p.0 + b.0 <= self.size() && p.1 + b.1 <= self.size()
    }

    /// The sides of a box of size `b` as it lies on the canvas: an odd
    /// `rotation` exchanges width and height.
    pub open spec fn turned(self, b: (u32, u32)) -> (u32, u32) {
        if self.rotation % 2 == 1 {
            (b.1, b.0)
        } else {
            b
        }
    }

    /// The placement of the cell of side `size` at `(x, y)`.
    pub fn new(x: u32, y: u32, size: u32, rotation: u8) -> (t: Transform)
        requires
            x + size <= u32::MAX,
            y + size <= u32::MAX,
        ensures
            t == (Transform { x, y, rotation, right: (x + size) as u32, bottom: (y + size) as u32 }),
            t.size() == size,
            rotation < 4 ==> t.wf(),
    {
        Transform { x, y, rotation, right: x + size, bottom: y + size }
    }

    /// Maps a point of the cell to the canvas.
    pub fn transform(&self, p: (u32, u32), b: (u32, u32)) -> (r: (u32, u32))
        requires
            self.admits(p, b),
        ensures
            r == self.apply(p, b),
    {
        if self.rotation == 0 {
            (self.x + p.0, self.y + p.1)
        } else if self.rotation == 1 {
            (self.right - p.1 - b.1, self.y + p.0)
        } else if self.rotation == 2 {
            (self.right - p.0 - b.0, self.bottom - p.1 - b.1)
        } else {
            (self.x + p.1, self.bottom - p.0 - b.0)
        }
    }
}

impl Default for Transform {
    /// The empty cell at the origin, not turned.
    fn default() -> (t: Transform)
        ensures
            t == (Transform { x: 0, y: 0, rotation: 0, right: 0, bottom: 0 }),
    {
        Transform { x: 0, y: 0, rotation: 0, right: 0, bottom: 0 }
    }
}

/// A box within a well-formed cell is admitted at each of the four
/// rotations, and the box that it covers on the canvas lies within the
/// cell's own square.
pub proof fn lemma_in_cell_stays_in_cell(t: Transform, p: (u32, u32), b: (u32, u32))
    requires
        t.wf(),
        t.in_cell(p, b),
    ensures
        t.admits(p, b),
        t.x <= t.apply(p, b).0,
        t.y <= t.apply(p, b).1,
        t.apply(p, b).0 + t.turned(b).0 <= t.right,
        t.apply(p, b).1 + t.turned(b).1 <= t.bottom,
{
}

} // verus!
