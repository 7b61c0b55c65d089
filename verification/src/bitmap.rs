use vstd::prelude::*;

verus! {

/// A rectangular grid of palette indices; `None` marks a transparent cell.
pub struct Bitmap {
    pub width: i16,
    pub height: i16,
    /// Row-major: `pixels[y][x]`.
    pub pixels: Vec<Vec<Option<u8>>>,
}

impl Bitmap {
    /// The grid really is `height` rows of `width` cells.
    pub open spec fn wf(self) -> bool {
        &&& 0 <= self.width
        &&& 0 <= self.height
        &&& self.pixels@.len() == self.height
        &&& forall|y: int| 0 <= y < self.height ==> (#[trigger] self.pixels@[y])@.len() == self.width
    }

    /// The cell grid as a sequence of rows of optional palette bytes.
    pub open spec fn grid(self) -> Seq<Seq<Option<u8>>> {
        self.pixels@.map_values(|row: Vec<Option<u8>>| row@)
    }

    /// Wrap an existing grid whose dimensions match.
    pub fn new(width: i16, height: i16, pixels: Vec<Vec<Option<u8>>>) -> (r: Bitmap)
        requires
            0 <= width,
            0 <= height,
            pixels@.len() == height,
            forall|y: int| 0 <= y < height ==> (#[trigger] pixels@[y])@.len() == width,
        ensures
            r.wf(),
            r.width == width,
            r.height == height,
            r.pixels@ == pixels@,
    {
        Bitmap { width, height, pixels }
    }

    /// A fully transparent bitmap of the given dimensions.
    pub fn transparent(width: i16, height: i16) -> (r: Bitmap)
        requires
            0 <= width,
            0 <= height,
        ensures
            r.wf(),
            r.width == width,
            r.height == height,
            forall|y: int, x: int|
                0 <= y < height && 0 <= x < width ==> r.grid()[y][x] is None,
    {
        let w = width as usize;
        let h = height as usize;
        let mut pixels: Vec<Vec<Option<u8>>> = Vec::new();
        let mut y: usize = 0;
        while y < h
            invariant
                w == width,
                h == height,
                pixels@.len() == y,
                y <= h,
                forall|j: int| 0 <= j < y ==> (#[trigger] pixels@[j])@.len() == w,
                forall|j: int, x: int|
                    0 <= j < y && 0 <= x < w ==> #[trigger] pixels@[j]@[x] is None,
            decreases h - y,
        {
            let mut row: Vec<Option<u8>> = Vec::new();
            let mut x: usize = 0;
            while x < w
                invariant
                    row@.len() == x,
                    x <= w,
                    forall|k: int| 0 <= k < x ==> row@[k] is None,
                decreases w - x,
            {
                row.push(None);
                x = x + 1;
            }
            pixels.push(row);
            y = y + 1;
        }
        Bitmap { width, height, pixels }
    }
}

} // verus!
