use vstd::prelude::*;

verus! {

/// Per-column occlusion state of one frame: whether a column is wholly
/// occluded, and the shrinking vertical window still drawable in it.
pub struct Occlusion {
    /// Fully occluded columns.
    pub hor: Vec<bool>,
    /// Lower bound of the still-drawable floor region, per column.
    pub floor: Vec<i16>,
    /// Upper bound of the still-drawable ceiling region, per column.
    pub ceiling: Vec<i16>,
}

/// Occlusion only ever tightens: an occluded column never reopens, and an
/// open column's floor bound never rises nor its ceiling bound falls.
pub open spec fn spec_occlusion_tightens(before: Occlusion, after: Occlusion) -> bool {
    &&& after.hor@.len() == before.hor@.len()
    &&& after.floor@.len() == before.floor@.len()
    &&& after.ceiling@.len() == before.ceiling@.len()
    &&& forall|x: int| 0 <= x < before.hor@.len() && before.hor@[x] ==> #[trigger] after.hor@[x]
    &&& forall|x: int|
        0 <= x < before.floor@.len() && !after.hor@[x] ==> #[trigger] after.floor@[x]
            <= before.floor@[x] && after.ceiling@[x] >= before.ceiling@[x]
}

impl Occlusion {
    pub open spec fn wf(self) -> bool {
        &&& self.hor@.len() == self.floor@.len()
        &&& self.hor@.len() == self.ceiling@.len()
    }

    /// A fresh frame: nothing occluded, the floor window open to the
    /// screen height and the ceiling window to the top.
    pub fn new(width: usize, height: i16) -> (r: Occlusion)
        requires
            0 <= height,
        ensures
            r.wf(),
            r.hor@.len() == width,
            forall|x: int| 0 <= x < width ==> !(#[trigger] r.hor@[x]),
            forall|x: int| 0 <= x < width ==> #[trigger] r.floor@[x] == height,
            forall|x: int| 0 <= x < width ==> #[trigger] r.ceiling@[x] == -1,
    {
        let mut hor: Vec<bool> = Vec::new();
        let mut floor: Vec<i16> = Vec::new();
        let mut ceiling: Vec<i16> = Vec::new();
        let mut i: usize = 0;
        while i < width
            invariant
                i <= width,
                hor@.len() == i,
                floor@.len() == i,
                ceiling@.len() == i,
                forall|x: int| 0 <= x < i ==> !(#[trigger] hor@[x]),
                forall|x: int| 0 <= x < i ==> #[trigger] floor@[x] == height,
                forall|x: int| 0 <= x < i ==> #[trigger] ceiling@[x] == -1,
            decreases width - i,
        {
            hor.push(false);
            floor.push(height);
            ceiling.push(-1);
            i = i + 1;
        }
        Occlusion { hor, floor, ceiling }
    }

    /// Is the column wholly occluded?
    pub fn is_occluded(&self, x: usize) -> (r: bool)
        requires
            x < self.hor@.len(),
        ensures
            r == self.hor@[x as int],
    {
        self.hor[x]
    }

    pub fn floor_at(&self, x: usize) -> (r: i16)
        requires
            self.wf(),
            x < self.hor@.len(),
        ensures
            r == self.floor@[x as int],
    {
        self.floor[x]
    }

    pub fn ceiling_at(&self, x: usize) -> (r: i16)
        requires
            self.wf(),
            x < self.hor@.len(),
        ensures
            r == self.ceiling@[x as int],
    {
        self.ceiling[x]
    }

    /// Occlude a column entirely: everything behind it is hidden.
    pub fn occlude_column(&mut self, x: usize, mid: i16)
        requires
            old(self).wf(),
            x < old(self).hor@.len(),
        ensures
            final(self).wf(),
            spec_occlusion_tightens(*old(self), *final(self)),
            final(self).hor@ == old(self).hor@.update(x as int, true),
            final(self).floor@ == old(self).floor@.update(x as int, mid),
            final(self).ceiling@ == old(self).ceiling@.update(x as int, mid),
    {
        self.hor.set(x, true);
        self.floor.set(x, mid);
        self.ceiling.set(x, mid);
    }

    /// Lower the drawable floor bound of a column; the new bound may only
    /// tighten the window.
    pub fn set_floor(&mut self, x: usize, y: i16)
        requires
            old(self).wf(),
            x < old(self).hor@.len(),
            y <= old(self).floor@[x as int],
        ensures
            final(self).wf(),
            spec_occlusion_tightens(*old(self), *final(self)),
            final(self).hor@ == old(self).hor@,
            final(self).floor@ == old(self).floor@.update(x as int, y),
            final(self).ceiling@ == old(self).ceiling@,
    {
        self.floor.set(x, y);
    }

    /// Raise the drawable ceiling bound of a column; the new bound may
    /// only tighten the window.
    pub fn set_ceiling(&mut self, x: usize, y: i16)
        requires
            old(self).wf(),
            x < old(self).hor@.len(),
            y >= old(self).ceiling@[x as int],
        ensures
            final(self).wf(),
            spec_occlusion_tightens(*old(self), *final(self)),
            final(self).hor@ == old(self).hor@,
            final(self).floor@ == old(self).floor@,
            final(self).ceiling@ == old(self).ceiling@.update(x as int, y),
    {
        self.ceiling.set(x, y);
    }
}

/// Occlusion monotonicity: tightening composes, so across any whole
/// frame's seg processing — any chain of occlusion updates — every
/// column's floor bound is non-increasing and its ceiling bound
/// non-decreasing while the column stays open.
pub proof fn lemma_occlusion_monotone(a: Occlusion, b: Occlusion, c: Occlusion)
    requires
        a.wf(),
        spec_occlusion_tightens(a, b),
        spec_occlusion_tightens(b, c),
    ensures
        spec_occlusion_tightens(a, c),
{
    assert forall|x: int| 0 <= x < a.hor@.len() && a.hor@[x] implies #[trigger] c.hor@[x] by {
        assert(b.hor@[x]);
    }
    assert forall|x: int| 0 <= x < a.floor@.len() && !c.hor@[x] implies #[trigger] c.floor@[x]
        <= a.floor@[x] && c.ceiling@[x] >= a.ceiling@[x] by {
        if b.hor@[x] {
            assert(c.hor@[x]);
        } else {
            assert(b.floor@[x] <= a.floor@[x] && b.ceiling@[x] >= a.ceiling@[x]);
            assert(c.floor@[x] <= b.floor@[x] && c.ceiling@[x] >= b.ceiling@[x]);
        }
    }
}

} // verus!
