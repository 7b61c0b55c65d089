use vstd::prelude::*;

verus! {

/// A visplane: a run of screen columns sharing one flat, height and light
/// level, drawn as a horizontal fill after the BSP walk.
pub struct Visplane {
    /// Index of the flat in the flat store.
    pub flat: usize,
    /// World height of the floor or ceiling.
    pub height: i16,
    pub light_level: i16,
    /// Leftmost column, -1 while empty.
    pub left: i32,
    /// Rightmost column, -1 while empty.
    pub right: i32,
    /// Top screen row per column.
    pub top: Vec<i16>,
    /// Bottom screen row per column.
    pub bottom: Vec<i16>,
}

impl Visplane {
    pub open spec fn wf(self) -> bool {
        self.top@.len() == self.bottom@.len()
    }

    /// An empty visplane over `width` columns.
    pub fn new(flat: usize, height: i16, light_level: i16, width: usize) -> (r: Visplane)
        ensures
            r.wf(),
            r.flat == flat,
            r.height == height,
            r.light_level == light_level,
            r.left == -1,
            r.right == -1,
            r.top@.len() == width,
    {
        let mut top: Vec<i16> = Vec::new();
        let mut bottom: Vec<i16> = Vec::new();
        let mut i: usize = 0;
        while i < width
            invariant
                i <= width,
                top@.len() == i,
                bottom@.len() == i,
            decreases width - i,
        {
            top.push(0);
            bottom.push(0);
            i = i + 1;
        }
        Visplane { flat, height, light_level, left: -1, right: -1, top, bottom }
    }
}

/// The running floor and ceiling visplanes of one sidedef: columns
/// accumulate while coverage is contiguous; a break flushes the plane to
/// the frame's list and starts a fresh one.
pub struct SidedefVisPlanes {
    pub light_level: i16,
    /// Index of the floor flat.
    pub floor_flat: usize,
    /// Index of the ceiling flat.
    pub ceiling_flat: usize,
    pub floor_height: i16,
    pub ceiling_height: i16,
    pub width: usize,
    pub bottom_visplane: Visplane,
    pub top_visplane: Visplane,
    pub bottom_visplane_used: bool,
    pub top_visplane_used: bool,
}

impl SidedefVisPlanes {
    pub open spec fn wf(self) -> bool {
        &&& self.bottom_visplane.wf()
        &&& self.top_visplane.wf()
        &&& self.bottom_visplane.top@.len() == self.width
        &&& self.top_visplane.top@.len() == self.width
    }

    /// Fresh accumulators for one sidedef.
    pub fn new(
        light_level: i16,
        floor_flat: usize,
        ceiling_flat: usize,
        floor_height: i16,
        ceiling_height: i16,
        width: usize,
    ) -> (r: SidedefVisPlanes)
        ensures
            r.wf(),
            r.light_level == light_level,
            r.floor_flat == floor_flat,
            r.ceiling_flat == ceiling_flat,
            r.floor_height == floor_height,
            r.ceiling_height == ceiling_height,
            r.width == width,
            !r.bottom_visplane_used,
            !r.top_visplane_used,
    {
        SidedefVisPlanes {
            light_level,
            floor_flat,
            ceiling_flat,
            floor_height,
            ceiling_height,
            width,
            bottom_visplane: Visplane::new(floor_flat, floor_height, light_level, width),
            top_visplane: Visplane::new(ceiling_flat, ceiling_height, light_level, width),
            bottom_visplane_used: false,
            top_visplane_used: false,
        }
    }

    /// Push the used accumulators to the frame's visplane list and start
    /// fresh ones; unused accumulators are dropped silently.
    pub fn flush(&mut self, visplanes: &mut Vec<Visplane>)
        requires
            old(self).wf(),
        ensures
            final(self).wf(),
            final(self).width == old(self).width,
            final(self).light_level == old(self).light_level,
            final(self).floor_flat == old(self).floor_flat,
            final(self).ceiling_flat == old(self).ceiling_flat,
            final(self).floor_height == old(self).floor_height,
            final(self).ceiling_height == old(self).ceiling_height,
            !final(self).bottom_visplane_used,
            !final(self).top_visplane_used,
            final(visplanes)@.len() == old(visplanes)@.len() + (if old(
                self,
            ).bottom_visplane_used {
                1int
            } else {
                0int
            }) + (if old(self).top_visplane_used {
                1int
            } else {
                0int
            }),
            forall|i: int|
                0 <= i < old(visplanes)@.len() ==> #[trigger] final(visplanes)@[i] == old(
                    visplanes,
                )@[i],
            old(self).bottom_visplane_used ==> final(visplanes)@[old(visplanes)@.len() as int]
                == old(self).bottom_visplane,
            old(self).top_visplane_used ==> final(visplanes)@.last() == old(self).top_visplane,
    {
        if self.bottom_visplane_used {
            let mut used = Visplane::new(
                self.floor_flat,
                self.floor_height,
                self.light_level,
                self.width,
            );
            core::mem::swap(&mut self.bottom_visplane, &mut used);
            visplanes.push(used);
            self.bottom_visplane_used = false;
        }
        if self.top_visplane_used {
            let mut used = Visplane::new(
                self.ceiling_flat,
                self.ceiling_height,
                self.light_level,
                self.width,
            );
            core::mem::swap(&mut self.top_visplane, &mut used);
            visplanes.push(used);
            self.top_visplane_used = false;
        }
    }

    /// Add one column to the floor accumulator: the first column fixes the
    /// left edge, each one extends the right edge.
    pub fn add_bottom_point(&mut self, x: usize, top_y: i16, bottom_y: i16)
        requires
            old(self).wf(),
            x < old(self).width,
        ensures
            final(self).wf(),
            final(self).width == old(self).width,
            final(self).light_level == old(self).light_level,
            final(self).floor_flat == old(self).floor_flat,
            final(self).ceiling_flat == old(self).ceiling_flat,
            final(self).floor_height == old(self).floor_height,
            final(self).ceiling_height == old(self).ceiling_height,
            final(self).top_visplane == old(self).top_visplane,
            final(self).top_visplane_used == old(self).top_visplane_used,
            final(self).bottom_visplane_used,
            final(self).bottom_visplane.left == (if old(self).bottom_visplane_used {
                old(self).bottom_visplane.left
            } else {
                x as i32
            }),
            final(self).bottom_visplane.right == x as i32,
            final(self).bottom_visplane.top@ == old(self).bottom_visplane.top@.update(
                x as int,
                top_y,
            ),
            final(self).bottom_visplane.bottom@ == old(self).bottom_visplane.bottom@.update(
                x as int,
                bottom_y,
            ),
            final(self).bottom_visplane.flat == old(self).bottom_visplane.flat,
            final(self).bottom_visplane.height == old(self).bottom_visplane.height,
            final(self).bottom_visplane.light_level == old(self).bottom_visplane.light_level,
    {
        if !self.bottom_visplane_used {
            self.bottom_visplane.left = x as i32;
        }
        self.bottom_visplane.right = x as i32;
        self.bottom_visplane_used = true;
        self.bottom_visplane.top.set(x, top_y);
        self.bottom_visplane.bottom.set(x, bottom_y);
    }

    /// Add one column to the ceiling accumulator: the first column fixes
    /// the left edge, each one extends the right edge.
    pub fn add_top_point(&mut self, x: usize, top_y: i16, bottom_y: i16)
        requires
            old(self).wf(),
            x < old(self).width,
        ensures
            final(self).wf(),
            final(self).width == old(self).width,
            final(self).light_level == old(self).light_level,
            final(self).floor_flat == old(self).floor_flat,
            final(self).ceiling_flat == old(self).ceiling_flat,
            final(self).floor_height == old(self).floor_height,
            final(self).ceiling_height == old(self).ceiling_height,
            final(self).bottom_visplane == old(self).bottom_visplane,
            final(self).bottom_visplane_used == old(self).bottom_visplane_used,
            final(self).top_visplane_used,
            final(self).top_visplane.left == (if old(self).top_visplane_used {
                old(self).top_visplane.left
            } else {
                x as i32
            }),
            final(self).top_visplane.right == x as i32,
            final(self).top_visplane.top@ == old(self).top_visplane.top@.update(x as int, top_y),
            final(self).top_visplane.bottom@ == old(self).top_visplane.bottom@.update(
                x as int,
                bottom_y,
            ),
            final(self).top_visplane.flat == old(self).top_visplane.flat,
            final(self).top_visplane.height == old(self).top_visplane.height,
            final(self).top_visplane.light_level == old(self).top_visplane.light_level,
    {
        if !self.top_visplane_used {
            self.top_visplane.left = x as i32;
        }
        self.top_visplane.right = x as i32;
        self.top_visplane_used = true;
        self.top_visplane.top.set(x, top_y);
        self.top_visplane.bottom.set(x, bottom_y);
    }
}

} // verus!
