use vstd::prelude::*;

use crate::palette::Color;

verus! {

/// A packed RGB framebuffer: `width * height * 3` bytes, row-major,
/// top-left origin.
pub struct Pixels {
    pub width: usize,
    pub height: usize,
    pub pixels: Vec<u8>,
}

/// The byte offset of the red channel of pixel `(x, y)`.
pub open spec fn spec_pixel_offset(width: int, x: int, y: int) -> int {
    3 * (y * width + x)
}

/// Distinct pixels own disjoint byte triples.
proof fn lemma_pixel_offset_disjoint(width: int, x1: int, y1: int, x2: int, y2: int)
    requires
        0 <= x1 < width,
        0 <= x2 < width,
        0 <= y1,
        0 <= y2,
        !(x1 == x2 && y1 == y2),
    ensures
        spec_pixel_offset(width, x1, y1) + 3 <= spec_pixel_offset(width, x2, y2)
            || spec_pixel_offset(width, x2, y2) + 3 <= spec_pixel_offset(width, x1, y1),
{
    assert(y1 * width + x1 != y2 * width + x2) by (nonlinear_arith)
        requires
            0 <= x1 < width,
            0 <= x2 < width,
            0 <= y1,
            0 <= y2,
            !(x1 == x2 && y1 == y2),
    ;
}

/// The pixel's three channel bytes stay inside the buffer.
proof fn lemma_pixel_index_bounds(width: int, height: int, x: int, y: int)
    requires
        0 <= x < width,
        0 <= y < height,
    ensures
        0 <= 3 * (y * width + x),
        3 * (y * width + x) + 2 < 3 * (width * height),
    decreases 0int,
{
    assert(0 <= 3 * (y * width + x) && 3 * (y * width + x) + 2 < 3 * (width * height))
        by (nonlinear_arith)
        requires
            0 <= x < width,
            0 <= y < height,
    ;
}

impl Pixels {
    pub open spec fn wf(self) -> bool {
        &&& self.pixels@.len() == 3 * (self.width * self.height)
        &&& self.width * self.height * 3 <= usize::MAX
    }

    /// A black framebuffer of the given dimensions.
    pub fn new(width: usize, height: usize) -> (r: Pixels)
        requires
            width * height * 3 <= usize::MAX,
        ensures
            r.wf(),
            r.width == width,
            r.height == height,
            forall|i: int| 0 <= i < r.pixels@.len() ==> #[trigger] r.pixels@[i] == 0,
    {
        proof {
            assert(width * height * 3 == 3 * (width * height)) by (nonlinear_arith);
        }
        let n = 3 * (width * height);
        let mut pixels: Vec<u8> = Vec::new();
        let mut i: usize = 0;
        while i < n
            invariant
                i <= n,
                pixels@.len() == i,
                forall|j: int| 0 <= j < i ==> #[trigger] pixels@[j] == 0,
            decreases n - i,
        {
            pixels.push(0);
            i = i + 1;
        }
        Pixels { width, height, pixels }
    }

    /// Zero the whole buffer.
    pub fn clear(&mut self)
        requires
            old(self).wf(),
        ensures
            final(self).wf(),
            final(self).width == old(self).width,
            final(self).height == old(self).height,
            final(self).pixels@.len() == old(self).pixels@.len(),
            forall|i: int|
                0 <= i < final(self).pixels@.len() ==> #[trigger] final(self).pixels@[i] == 0,
    {
        let n = self.pixels.len();
        let mut i: usize = 0;
        while i < n
            invariant
                n == self.pixels@.len(),
                self.width == old(self).width,
                self.height == old(self).height,
                self.wf(),
                i <= n,
                forall|j: int| 0 <= j < i ==> #[trigger] self.pixels@[j] == 0,
            decreases n - i,
        {
            self.pixels.set(i, 0);
            i = i + 1;
        }
    }

    /// Set one pixel; writes outside the buffer are ignored.
    pub fn set(&mut self, x: usize, y: usize, color: &Color)
        requires
            old(self).wf(),
        ensures
            final(self).wf(),
            final(self).width == old(self).width,
            final(self).height == old(self).height,
            x < old(self).width && y < old(self).height ==> {
                let base = spec_pixel_offset(old(self).width as int, x as int, y as int);
                final(self).pixels@ == old(self).pixels@.update(base, color.r).update(
                    base + 1,
                    color.g,
                ).update(base + 2, color.b)
            },
            !(x < old(self).width && y < old(self).height) ==> final(self).pixels@ == old(
                self,
            ).pixels@,
    {
        if x >= self.width || y >= self.height {
            return ;
        }
        proof {
            lemma_pixel_index_bounds(
                self.width as int,
                self.height as int,
                x as int,
                y as int,
            );
            assert(y * self.width + x <= self.width * self.height) by (nonlinear_arith)
                requires
                    0 <= x < self.width,
                    0 <= y < self.height,
            ;
        }
        let base = 3 * (y * self.width + x);
        self.pixels.set(base, color.r);
        self.pixels.set(base + 1, color.g);
        self.pixels.set(base + 2, color.b);
    }

    /// Draw a vertical run of one color from `top` to `bottom` inclusive:
    /// the on-screen rows of column `x` in that range take the color, and
    /// every other pixel keeps its bytes; out-of-screen parts are ignored.
    pub fn draw_vertical_line(&mut self, x: usize, top: usize, bottom: usize, color: &Color)
        requires
            old(self).wf(),
        ensures
            final(self).wf(),
            final(self).width == old(self).width,
            final(self).height == old(self).height,
            final(self).pixels@.len() == old(self).pixels@.len(),
            forall|cx: int, cy: int|
                #![trigger spec_pixel_offset(old(self).width as int, cx, cy)]
                0 <= cx < old(self).width && 0 <= cy < old(self).height ==> {
                    let base = spec_pixel_offset(old(self).width as int, cx, cy);
                    if cx == x && top <= cy <= bottom {
                        &&& final(self).pixels@[base] == color.r
                        &&& final(self).pixels@[base + 1] == color.g
                        &&& final(self).pixels@[base + 2] == color.b
                    } else {
                        &&& final(self).pixels@[base] == old(self).pixels@[base]
                        &&& final(self).pixels@[base + 1] == old(self).pixels@[base + 1]
                        &&& final(self).pixels@[base + 2] == old(self).pixels@[base + 2]
                    }
                },
    {
        let mut y = top;
        while y <= bottom
            invariant
                self.wf(),
                self.width == old(self).width,
                self.height == old(self).height,
                self.pixels@.len() == old(self).pixels@.len(),
                top <= y,
                forall|cx: int, cy: int|
                    #![trigger spec_pixel_offset(old(self).width as int, cx, cy)]
                    0 <= cx < old(self).width && 0 <= cy < old(self).height ==> {
                        let base = spec_pixel_offset(old(self).width as int, cx, cy);
                        if cx == x && top <= cy < y && cy <= bottom {
                            &&& self.pixels@[base] == color.r
                            &&& self.pixels@[base + 1] == color.g
                            &&& self.pixels@[base + 2] == color.b
                        } else {
                            &&& self.pixels@[base] == old(self).pixels@[base]
                            &&& self.pixels@[base + 1] == old(self).pixels@[base + 1]
                            &&& self.pixels@[base + 2] == old(self).pixels@[base + 2]
                        }
                    },
            decreases bottom - y + 1,
        {
            let ghost before = self.pixels@;
            self.set(x, y, color);
            proof {
                assert forall|cx: int, cy: int|
                    #![trigger spec_pixel_offset(old(self).width as int, cx, cy)]
                    0 <= cx < old(self).width && 0 <= cy < old(self).height && !(cx == x && cy
                        == y) implies {
                    let base = spec_pixel_offset(old(self).width as int, cx, cy);
                    &&& self.pixels@[base] == before[base]
                    &&& self.pixels@[base + 1] == before[base + 1]
                    &&& self.pixels@[base + 2] == before[base + 2]
                } by {
                    lemma_pixel_index_bounds(self.width as int, self.height as int, cx, cy);
                    if x < self.width && y < self.height {
                        lemma_pixel_index_bounds(
                            self.width as int,
                            self.height as int,
                            x as int,
                            y as int,
                        );
                        lemma_pixel_offset_disjoint(
                            self.width as int,
                            cx,
                            cy,
                            x as int,
                            y as int,
                        );
                    }
                }
                if x < self.width && y < self.height {
                    lemma_pixel_index_bounds(
                        self.width as int,
                        self.height as int,
                        x as int,
                        y as int,
                    );
                    assert({
                        let base = spec_pixel_offset(old(self).width as int, x as int, y as int);
                        self.pixels@[base] == color.r && self.pixels@[base + 1] == color.g
                            && self.pixels@[base + 2] == color.b
                    });
                }
            }
            if y == bottom {
                proof {
                    assert forall|cx: int, cy: int|
                        #![trigger spec_pixel_offset(old(self).width as int, cx, cy)]
                        0 <= cx < old(self).width && 0 <= cy < old(self).height implies {
                        let base = spec_pixel_offset(old(self).width as int, cx, cy);
                        if cx == x && top <= cy <= bottom {
                            &&& self.pixels@[base] == color.r
                            &&& self.pixels@[base + 1] == color.g
                            &&& self.pixels@[base + 2] == color.b
                        } else {
                            &&& self.pixels@[base] == old(self).pixels@[base]
                            &&& self.pixels@[base + 1] == old(self).pixels@[base + 1]
                            &&& self.pixels@[base + 2] == old(self).pixels@[base + 2]
                        }
                    } by {
                        if cx == x && cy == y {
                            lemma_pixel_index_bounds(
                                self.width as int,
                                self.height as int,
                                cx,
                                cy,
                            );
                        }
                    }
                }
                return ;
            }
            y = y + 1;
        }
    }
}

} // verus!
