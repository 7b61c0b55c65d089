use vstd::prelude::*;

use crate::vertexes::Vertex;

verus! {

/// An axis-aligned box over map coordinates; `top` is the smallest y and
/// `bottom` the largest, `left` the smallest x and `right` the largest.
#[derive(Clone, Copy, Debug, PartialEq, Eq, Structural)]
pub struct BoundingBox {
    pub top: i32,
    pub bottom: i32,
    pub left: i32,
    pub right: i32,
}

impl BoundingBox {
    /// An empty box, ready to be extended: every bound starts at the
    /// opposite extreme, so the first extension snaps to that vertex.
    pub fn extendable_new() -> (r: BoundingBox)
        ensures
            r.left == i32::MAX,
            r.right == i32::MIN,
            r.top == i32::MAX,
            r.bottom == i32::MIN,
    {
        BoundingBox { top: i32::MAX, bottom: i32::MIN, left: i32::MAX, right: i32::MIN }
    }

    /// Grow the box to include a vertex.
    pub fn extend(&mut self, v: &Vertex)
        ensures
            final(self).left == if v.x < old(self).left { v.x as int } else { old(self).left as int },
            final(self).right == if v.x > old(self).right { v.x as int } else { old(self).right as int },
            final(self).top == if v.y < old(self).top { v.y as int } else { old(self).top as int },
            final(self).bottom == if v.y > old(self).bottom { v.y as int } else { old(self).bottom as int },
    {
        if (v.x as i32) < self.left {
            self.left = v.x as i32;
        }
        if (v.x as i32) > self.right {
            self.right = v.x as i32;
        }
        if (v.y as i32) < self.top {
            self.top = v.y as i32;
        }
        if (v.y as i32) > self.bottom {
            self.bottom = v.y as i32;
        }
    }

    /// Is the point inside the box?
    pub fn contains(&self, x: i32, y: i32) -> (r: bool)
        ensures
            r <==> (self.left <= x <= self.right && self.top <= y <= self.bottom),
    {
        self.left <= x && x <= self.right && self.top <= y && y <= self.bottom
    }
}

/// The sign test that orients the whole renderer: is the point on the left
/// of the directed line from `(ax, ay)` towards `(ax + dx, ay + dy)`? The
/// cross product of the two offsets is non-positive exactly then.
pub open spec fn spec_is_left_of(x: int, y: int, ax: int, ay: int, dx: int, dy: int) -> bool {
    (x - ax) * dy - (y - ay) * dx <= 0
}

/// Decide the left-of-line predicate with exact integer arithmetic.
pub fn is_left_of_line(x: i32, y: i32, ax: i32, ay: i32, dx: i32, dy: i32) -> (r: bool)
    ensures
        r == spec_is_left_of(x as int, y as int, ax as int, ay as int, dx as int, dy as int),
{
    let a1: i128 = x as i128 - ax as i128;
    let b1: i128 = dy as i128;
    let a2: i128 = y as i128 - ay as i128;
    let b2: i128 = dx as i128;
    proof {
        lemma_small_product_bounded(a1 as int, b1 as int);
        lemma_small_product_bounded(a2 as int, b2 as int);
    }
    let lhs: i128 = a1 * b1;
    let rhs: i128 = a2 * b2;
    lhs <= rhs
}

/// The product of a 33-bit and a 32-bit signed value stays far inside the
/// i128 range.
proof fn lemma_small_product_bounded(a: int, b: int)
    requires
        -0x2_0000_0000 <= a <= 0x2_0000_0000,
        -0x1_0000_0000 <= b <= 0x1_0000_0000,
    ensures
        -0x4_0000_0000_0000_0000 <= a * b <= 0x4_0000_0000_0000_0000,
{
    assert(-0x4_0000_0000_0000_0000 <= a * b <= 0x4_0000_0000_0000_0000) by (nonlinear_arith)
        requires
            -0x2_0000_0000 <= a <= 0x2_0000_0000,
            -0x1_0000_0000 <= b <= 0x1_0000_0000,
    ;
}

} // verus!
