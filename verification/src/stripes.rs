use vstd::prelude::*;

use crate::bitmap_render::BitmapColumn;
use crate::linedefs::Flags;
use crate::occlusion::spec_occlusion_tightens;
use crate::occlusion::Occlusion;
use crate::visplanes::SidedefVisPlanes;
use crate::visplanes::Visplane;

verus! {

/// The bottom of a stripe column's drawable range: the stripe bottom
/// clipped by the column's floor bound and the bottom screen row.
pub open spec fn spec_clip_bottom(floor_bound: i16, bottom_y: i16, screen_height: i16) -> int {
    let c = if floor_bound <= bottom_y {
        floor_bound as int
    } else {
        bottom_y as int
    };
    if c <= screen_height - 1 {
        c
    } else {
        screen_height - 1
    }
}

/// The top of a stripe column's drawable range: the stripe top clipped by
/// the column's ceiling bound and the top screen row.
pub open spec fn spec_clip_top(ceiling_bound: i16, top_y: i16) -> int {
    let c = if ceiling_bound >= top_y {
        ceiling_bound as int
    } else {
        top_y as int
    };
    if c >= 0 {
        c
    } else {
        0
    }
}

/// What one stripe column does to the frame state. `spec_column_action`
/// decides it from the column's occlusion window alone, and
/// `process_stripe_column` applies it verbatim.
pub struct ColumnAction {
    /// The clipped drawable range (top row, bottom row), present when the
    /// stripe is visible in this column.
    pub draw: Option<(i16, i16)>,
    /// A point added to the floor visplane accumulator (top row, bottom row).
    pub bottom_point: Option<(i16, i16)>,
    /// A point added to the ceiling visplane accumulator (top row, bottom row).
    pub top_point: Option<(i16, i16)>,
    /// Flush the sidedef's visplane accumulators to the frame list.
    pub flush: bool,
    /// A new floor occlusion bound for this column.
    pub set_floor: Option<i16>,
    /// A new ceiling occlusion bound for this column.
    pub set_ceiling: Option<i16>,
    /// Occlude the column entirely.
    pub occlude: bool,
}

/// The decision for one column of one wall stripe.
///
/// An occluded column only flushes the visplane run (and a full-height
/// wall still occludes). An open column clips the stripe by its window:
/// if a drawable range remains, the column is drawn and queued, a solid
/// full-height or portal-frame stripe feeds the floor and ceiling
/// visplanes where the stripe leaves the window bounds visible, and the
/// window tightens to what the stripe leaves open — a portal frame by its
/// clipped edges, a lower wall raising the floor bound to the stripe top,
/// an upper wall dropping the ceiling bound to the stripe bottom. If no
/// drawable range remains but the window still has a vertical gap, the
/// gap is filled with this sidedef's visplanes and the column closed.
pub open spec fn spec_column_action(
    occluded: bool,
    floor_bound: i16,
    ceiling_bound: i16,
    bottom_y: i16,
    top_y: i16,
    screen_height: i16,
    only_occlusions: bool,
    is_lower: bool,
    is_upper: bool,
    draw_ceiling: bool,
    two_sided_middle: bool,
) -> ColumnAction {
    let full_height = !is_lower && !is_upper && !only_occlusions;
    if occluded {
        ColumnAction {
            draw: Option::None,
            bottom_point: Option::None,
            top_point: Option::None,
            flush: true,
            set_floor: Option::None,
            set_ceiling: Option::None,
            occlude: !two_sided_middle && full_height,
        }
    } else {
        let cb = spec_clip_bottom(floor_bound, bottom_y, screen_height);
        let ct = spec_clip_top(ceiling_bound, top_y);
        if cb >= ct {
            let vis = !two_sided_middle && (full_height || only_occlusions);
            let bp = if vis && cb < floor_bound && cb != screen_height - 1 {
                Option::Some(((cb as i16), floor_bound))
            } else {
                Option::None
            };
            let tp = if vis && draw_ceiling && ct > ceiling_bound && ct != -1 {
                Option::Some((ceiling_bound, (ct as i16)))
            } else {
                Option::None
            };
            ColumnAction {
                draw: Option::Some(((ct as i16), (cb as i16))),
                bottom_point: bp,
                top_point: tp,
                flush: vis && bp is None && tp is None,
                set_floor: if !two_sided_middle && is_lower {
                    Option::Some((ct as i16))
                } else if !two_sided_middle && only_occlusions {
                    Option::Some((cb as i16))
                } else {
                    Option::None
                },
                set_ceiling: if !two_sided_middle && is_upper {
                    Option::Some((cb as i16))
                } else if !two_sided_middle && only_occlusions && draw_ceiling {
                    Option::Some((ct as i16))
                } else {
                    Option::None
                },
                occlude: !two_sided_middle && full_height,
            }
        } else {
            let gap = !two_sided_middle && (full_height || only_occlusions) && floor_bound
                > ceiling_bound;
            let bp = if gap && bottom_y <= ceiling_bound {
                Option::Some((ceiling_bound, floor_bound))
            } else {
                Option::None
            };
            let tp = if gap && draw_ceiling && top_y >= floor_bound {
                Option::Some((ceiling_bound, floor_bound))
            } else {
                Option::None
            };
            ColumnAction {
                draw: Option::None,
                bottom_point: bp,
                top_point: tp,
                flush: false,
                set_floor: Option::None,
                set_ceiling: Option::None,
                occlude: (!two_sided_middle && full_height) || bp is Some || tp is Some,
            }
        }
    }
}

/// The sidedef accumulators keep their configuration across any step.
pub open spec fn spec_sv_config_kept(pre: SidedefVisPlanes, post: SidedefVisPlanes) -> bool {
    &&& post.width == pre.width
    &&& post.light_level == pre.light_level
    &&& post.floor_flat == pre.floor_flat
    &&& post.ceiling_flat == pre.ceiling_flat
    &&& post.floor_height == pre.floor_height
    &&& post.ceiling_height == pre.ceiling_height
}

/// The accumulators were flushed: both run empty afterwards, and the
/// frame list grew by exactly the used ones, in floor-then-ceiling order,
/// with the earlier planes untouched.
pub open spec fn spec_sv_flushed(
    pre: SidedefVisPlanes,
    post: SidedefVisPlanes,
    vp_pre: Seq<Visplane>,
    vp_post: Seq<Visplane>,
) -> bool {
    &&& spec_sv_config_kept(pre, post)
    &&& !post.bottom_visplane_used
    &&& !post.top_visplane_used
    &&& vp_post.len() == vp_pre.len() + (if pre.bottom_visplane_used {
        1int
    } else {
        0int
    }) + (if pre.top_visplane_used {
        1int
    } else {
        0int
    })
    &&& forall|i: int| 0 <= i < vp_pre.len() ==> #[trigger] vp_post[i] == vp_pre[i]
    &&& (pre.bottom_visplane_used ==> vp_post[vp_pre.len() as int] == pre.bottom_visplane)
    &&& (pre.top_visplane_used ==> vp_post.last() == pre.top_visplane)
}

/// One accumulator step without a flush: each present point is written
/// into its visplane at column `x`, extending the run's edges; an absent
/// point leaves its visplane untouched.
pub open spec fn spec_sv_step(
    pre: SidedefVisPlanes,
    post: SidedefVisPlanes,
    x: int,
    bottom_point: Option<(i16, i16)>,
    top_point: Option<(i16, i16)>,
) -> bool {
    &&& spec_sv_config_kept(pre, post)
    &&& match bottom_point {
        Option::Some(p) => {
            &&& post.bottom_visplane_used
            &&& post.bottom_visplane.left == (if pre.bottom_visplane_used {
                pre.bottom_visplane.left
            } else {
                x as i32
            })
            &&& post.bottom_visplane.right == x as i32
            &&& post.bottom_visplane.top@ == pre.bottom_visplane.top@.update(x, p.0)
            &&& post.bottom_visplane.bottom@ == pre.bottom_visplane.bottom@.update(x, p.1)
            &&& post.bottom_visplane.flat == pre.bottom_visplane.flat
            &&& post.bottom_visplane.height == pre.bottom_visplane.height
            &&& post.bottom_visplane.light_level == pre.bottom_visplane.light_level
        },
        Option::None => {
            &&& post.bottom_visplane == pre.bottom_visplane
            &&& post.bottom_visplane_used == pre.bottom_visplane_used
        },
    }
    &&& match top_point {
        Option::Some(p) => {
            &&& post.top_visplane_used
            &&& post.top_visplane.left == (if pre.top_visplane_used {
                pre.top_visplane.left
            } else {
                x as i32
            })
            &&& post.top_visplane.right == x as i32
            &&& post.top_visplane.top@ == pre.top_visplane.top@.update(x, p.0)
            &&& post.top_visplane.bottom@ == pre.top_visplane.bottom@.update(x, p.1)
            &&& post.top_visplane.flat == pre.top_visplane.flat
            &&& post.top_visplane.height == pre.top_visplane.height
            &&& post.top_visplane.light_level == pre.top_visplane.light_level
        },
        Option::None => {
            &&& post.top_visplane == pre.top_visplane
            &&& post.top_visplane_used == pre.top_visplane_used
        },
    }
}

/// Process one screen column of one wall stripe: clip it by the column's
/// occlusion window, queue and report the drawable range, feed the
/// sidedef's visplane accumulators, and tighten the window — exactly the
/// action of `spec_column_action` on the column's state before the call.
/// Returns the clipped drawable range, or `None` when nothing of the
/// stripe is visible in this column.
#[verifier::rlimit(100)]
pub fn process_stripe_column(
    occ: &mut Occlusion,
    sv: &mut SidedefVisPlanes,
    visplanes: &mut Vec<Visplane>,
    columns: &mut Vec<BitmapColumn>,
    x: usize,
    bottom_y: i16,
    top_y: i16,
    screen_height: i16,
    only_occlusions: bool,
    is_lower: bool,
    is_upper: bool,
    draw_ceiling: bool,
    two_sided_middle: bool,
) -> (r: Option<(i16, i16)>)
    requires
        old(occ).wf(),
        old(sv).wf(),
        x < old(occ).hor@.len(),
        x < old(sv).width,
        x <= 0x7fff,
        screen_height >= 1,
    ensures
        final(occ).wf(),
        final(sv).wf(),
        spec_occlusion_tightens(*old(occ), *final(occ)),
        ({
            let a = spec_column_action(
                old(occ).hor@[x as int],
                old(occ).floor@[x as int],
                old(occ).ceiling@[x as int],
                bottom_y,
                top_y,
                screen_height,
                only_occlusions,
                is_lower,
                is_upper,
                draw_ceiling,
                two_sided_middle,
            );
            let mid = ((screen_height as int) / 2) as i16;
            &&& r == a.draw
            &&& final(occ).hor@ == (if a.occlude {
                old(occ).hor@.update(x as int, true)
            } else {
                old(occ).hor@
            })
            &&& final(occ).floor@ == (if a.occlude {
                old(occ).floor@.update(x as int, mid)
            } else if a.set_floor is Some {
                old(occ).floor@.update(x as int, a.set_floor.unwrap())
            } else {
                old(occ).floor@
            })
            &&& final(occ).ceiling@ == (if a.occlude {
                old(occ).ceiling@.update(x as int, mid)
            } else if a.set_ceiling is Some {
                old(occ).ceiling@.update(x as int, a.set_ceiling.unwrap())
            } else {
                old(occ).ceiling@
            })
            &&& final(columns)@ == (if a.draw is Some {
                old(columns)@.push(
                    (BitmapColumn {
                        x: x as i32,
                        clipped_top_y: a.draw.unwrap().0 as i32,
                        clipped_bottom_y: a.draw.unwrap().1 as i32,
                        bottom_y: bottom_y as i32,
                        top_y: top_y as i32,
                    }),
                )
            } else {
                old(columns)@
            })
            &&& (a.flush ==> spec_sv_flushed(
                *old(sv),
                *final(sv),
                old(visplanes)@,
                final(visplanes)@,
            ))
            &&& (!a.flush ==> spec_sv_step(*old(sv), *final(sv), x as int, a.bottom_point, a.top_point)
                && final(visplanes)@ == old(visplanes)@)
        }),
{
    let full_height = !is_lower && !is_upper && !only_occlusions;
    let mid: i16 = screen_height / 2;
    if occ.is_occluded(x) {
        sv.flush(visplanes);
        if !two_sided_middle && full_height {
            occ.occlude_column(x, mid);
        }
        return None;
    }
    let floor_bound = occ.floor_at(x);
    let ceiling_bound = occ.ceiling_at(x);
    let mut cb: i16 = if floor_bound <= bottom_y {
        floor_bound
    } else {
        bottom_y
    };
    if cb > screen_height - 1 {
        cb = screen_height - 1;
    }
    let mut ct: i16 = if ceiling_bound >= top_y {
        ceiling_bound
    } else {
        top_y
    };
    if ct < 0 {
        ct = 0;
    }
    proof {
        assert(cb as int == spec_clip_bottom(floor_bound, bottom_y, screen_height));
        assert(ct as int == spec_clip_top(ceiling_bound, top_y));
    }
    if cb >= ct {
        columns.push(
            BitmapColumn {
                x: x as i32,
                clipped_top_y: ct as i32,
                clipped_bottom_y: cb as i32,
                bottom_y: bottom_y as i32,
                top_y: top_y as i32,
            },
        );
        if !two_sided_middle && (full_height || only_occlusions) {
            let mut added = false;
            if cb < floor_bound && cb != screen_height - 1 {
                sv.add_bottom_point(x, cb, floor_bound);
                added = true;
            }
            if draw_ceiling && ct > ceiling_bound && ct != -1 {
                sv.add_top_point(x, ceiling_bound, ct);
                added = true;
            }
            if !added {
                sv.flush(visplanes);
            }
        }
        if !two_sided_middle && only_occlusions {
            if cb <= occ.floor_at(x) {
                occ.set_floor(x, cb);
            }
            if draw_ceiling && ct >= occ.ceiling_at(x) {
                occ.set_ceiling(x, ct);
            }
        }
        if !two_sided_middle && is_lower {
            if ct <= occ.floor_at(x) {
                occ.set_floor(x, ct);
            }
        }
        if !two_sided_middle && is_upper {
            if cb >= occ.ceiling_at(x) {
                occ.set_ceiling(x, cb);
            }
        }
        if !two_sided_middle && full_height {
            occ.occlude_column(x, mid);
        }
        Some((ct, cb))
    } else {
        if !two_sided_middle && (full_height || only_occlusions) && floor_bound > ceiling_bound {
            if bottom_y <= ceiling_bound {
                sv.add_bottom_point(x, ceiling_bound, floor_bound);
                occ.occlude_column(x, mid);
            }
            if draw_ceiling && top_y >= floor_bound {
                sv.add_top_point(x, ceiling_bound, floor_bound);
                occ.occlude_column(x, mid);
            }
        }
        if !two_sided_middle && full_height {
            occ.occlude_column(x, mid);
        }
        proof {
            if occ.hor@ != old(occ).hor@ {
                assert(occ.hor@ =~= old(occ).hor@.update(x as int, true));
                assert(occ.floor@ =~= old(occ).floor@.update(x as int, mid));
                assert(occ.ceiling@ =~= old(occ).ceiling@.update(x as int, mid));
            }
        }
        None
    }
}

/// Which of the sidedef's three texture slots a wall stripe samples.
#[derive(Clone, Copy, Debug, PartialEq, Eq, Structural)]
pub enum StripeTexture {
    Middle,
    Lower,
    Upper,
}

/// One vertical stripe of a seg's wall: its world height range, the
/// pegging offset into its texture, and how its columns are processed.
#[derive(Clone, Copy, Debug, PartialEq, Eq, Structural)]
pub struct WallStripe {
    /// World height of the stripe's bottom edge.
    pub bottom_height: i16,
    /// World height of the stripe's top edge.
    pub top_height: i16,
    /// Vertical texture offset from the pegging flags.
    pub offset_y: i32,
    pub texture: StripeTexture,
    pub only_occlusions: bool,
    pub is_lower: bool,
    pub is_upper: bool,
    pub two_sided_middle: bool,
}

/// The sky hack applies when a portal joins two sky ceilings: the upper
/// stripe and the ceiling are not drawn there.
pub open spec fn spec_sky_hack(back: Option<(i16, i16)>, front_sky: bool, back_sky: bool) -> bool {
    back is Some && front_sky && back_sky
}

/// The ceiling height a seg is drawn with: under the sky hack the front
/// ceiling is pulled down to the back one where that is lower.
pub open spec fn spec_effective_ceiling(
    front_ceiling: i16,
    back: Option<(i16, i16)>,
    front_sky: bool,
    back_sky: bool,
) -> i16 {
    if spec_sky_hack(back, front_sky, back_sky) && back.unwrap().1 < front_ceiling {
        back.unwrap().1
    } else {
        front_ceiling
    }
}

/// The bottom of a portal's opening: the back floor where it rises above
/// the front one, leaving a lower wall below it.
pub open spec fn spec_portal_bottom(front_floor: i16, back: Option<(i16, i16)>) -> Option<i16> {
    match back {
        Option::Some(b) => if b.0 > front_floor {
            Option::Some(b.0)
        } else {
            Option::None
        },
        Option::None => Option::None,
    }
}

/// The top of a portal's opening: the back ceiling where it hangs below
/// the front one, leaving an upper wall above it — absent under the sky
/// hack.
pub open spec fn spec_portal_top(
    front_ceiling: i16,
    back: Option<(i16, i16)>,
    front_sky: bool,
    back_sky: bool,
) -> Option<i16> {
    if spec_sky_hack(back, front_sky, back_sky) {
        Option::None
    } else {
        match back {
            Option::Some(b) => if b.1 < front_ceiling {
                Option::Some(b.1)
            } else {
                Option::None
            },
            Option::None => Option::None,
        }
    }
}

/// The stripes a seg's wall decomposes into, in processing order.
///
/// A one-sided wall is a single full stripe of the middle texture, its
/// offset pegged to the floor when the bottom is unpegged. A two-sided
/// wall yields: an invisible full stripe that only feeds occlusion and
/// visplanes; the transparent middle over the portal opening, drawn later
/// with the sprites; a lower wall below a raised back floor, pegged to
/// the front ceiling when the bottom is unpegged; and an upper wall above
/// a lowered back ceiling, pegged to the back ceiling unless the top is
/// unpegged.
pub open spec fn spec_wall_stripes(
    front_floor: i16,
    front_ceiling: i16,
    back: Option<(i16, i16)>,
    flags: i16,
    front_sky: bool,
    back_sky: bool,
) -> Seq<WallStripe> {
    let two_sided = flags & Flags::TWOSIDED != 0;
    let top_unpegged = flags & Flags::DONTPEGTOP != 0;
    let bottom_unpegged = flags & Flags::DONTPEGBOTTOM != 0;
    let ceil = spec_effective_ceiling(front_ceiling, back, front_sky, back_sky);
    let pb = spec_portal_bottom(front_floor, back);
    let pt = spec_portal_top(front_ceiling, back, front_sky, back_sky);
    if !two_sided {
        seq![
            (WallStripe {
                bottom_height: front_floor,
                top_height: ceil,
                offset_y: if bottom_unpegged {
                    (front_floor - ceil) as i32
                } else {
                    0i32
                },
                texture: StripeTexture::Middle,
                only_occlusions: false,
                is_lower: false,
                is_upper: false,
                two_sided_middle: false,
            }),
        ]
    } else {
        let occl = WallStripe {
            bottom_height: front_floor,
            top_height: ceil,
            offset_y: 0i32,
            texture: StripeTexture::Middle,
            only_occlusions: true,
            is_lower: false,
            is_upper: false,
            two_sided_middle: false,
        };
        let middle = WallStripe {
            bottom_height: if pb is Some {
                pb.unwrap()
            } else {
                front_floor
            },
            top_height: if pt is Some {
                pt.unwrap()
            } else {
                ceil
            },
            offset_y: 0i32,
            texture: StripeTexture::Middle,
            only_occlusions: false,
            is_lower: false,
            is_upper: false,
            two_sided_middle: true,
        };
        let base = seq![occl, middle];
        let with_lower = if pb is Some {
            base.push(
                WallStripe {
                    bottom_height: front_floor,
                    top_height: pb.unwrap(),
                    offset_y: if bottom_unpegged {
                        (ceil - pb.unwrap()) as i32
                    } else {
                        0i32
                    },
                    texture: StripeTexture::Lower,
                    only_occlusions: false,
                    is_lower: true,
                    is_upper: false,
                    two_sided_middle: false,
                },
            )
        } else {
            base
        };
        if pt is Some {
            with_lower.push(
                WallStripe {
                    bottom_height: pt.unwrap(),
                    top_height: ceil,
                    offset_y: if top_unpegged {
                        0i32
                    } else {
                        (pt.unwrap() - ceil) as i32
                    },
                    texture: StripeTexture::Upper,
                    only_occlusions: false,
                    is_lower: false,
                    is_upper: true,
                    two_sided_middle: false,
                },
            )
        } else {
            with_lower
        }
    }
}

/// Decompose a seg's wall into its stripes and say whether its ceiling is
/// drawn. `back` carries the back sector's floor and ceiling heights for
/// a portal, `None` for a one-sided wall; the sky booleans say whether
/// each side's ceiling is a sky.
pub fn wall_stripes(
    front_floor: i16,
    front_ceiling: i16,
    back: Option<(i16, i16)>,
    flags: i16,
    front_sky: bool,
    back_sky: bool,
) -> (r: (Vec<WallStripe>, bool))
    ensures
        r.0@ == spec_wall_stripes(front_floor, front_ceiling, back, flags, front_sky, back_sky),
        r.1 == !spec_sky_hack(back, front_sky, back_sky),
{
    let two_sided = flags & Flags::TWOSIDED != 0;
    let top_unpegged = flags & Flags::DONTPEGTOP != 0;
    let bottom_unpegged = flags & Flags::DONTPEGBOTTOM != 0;
    let ceil: i16 = match back {
        Some(b) => if front_sky && back_sky && b.1 < front_ceiling {
            b.1
        } else {
            front_ceiling
        },
        None => front_ceiling,
    };
    let pb: Option<i16> = match back {
        Some(b) => if b.0 > front_floor {
            Some(b.0)
        } else {
            None
        },
        None => None,
    };
    let pt: Option<i16> = match back {
        Some(b) => if !(front_sky && back_sky) && b.1 < front_ceiling {
            Some(b.1)
        } else {
            None
        },
        None => None,
    };
    let draw_ceiling = match back {
        Some(_) => !(front_sky && back_sky),
        None => true,
    };
    let mut out: Vec<WallStripe> = Vec::new();
    if !two_sided {
        let off: i32 = if bottom_unpegged {
            front_floor as i32 - ceil as i32
        } else {
            0
        };
        out.push(WallStripe {
            bottom_height: front_floor,
            top_height: ceil,
            offset_y: off,
            texture: StripeTexture::Middle,
            only_occlusions: false,
            is_lower: false,
            is_upper: false,
            two_sided_middle: false,
        });
    } else {
        out.push(WallStripe {
            bottom_height: front_floor,
            top_height: ceil,
            offset_y: 0,
            texture: StripeTexture::Middle,
            only_occlusions: true,
            is_lower: false,
            is_upper: false,
            two_sided_middle: false,
        });
        let mid_floor: i16 = match pb {
            Some(v) => v,
            None => front_floor,
        };
        let mid_ceil: i16 = match pt {
            Some(v) => v,
            None => ceil,
        };
        out.push(WallStripe {
            bottom_height: mid_floor,
            top_height: mid_ceil,
            offset_y: 0,
            texture: StripeTexture::Middle,
            only_occlusions: false,
            is_lower: false,
            is_upper: false,
            two_sided_middle: true,
        });
        match pb {
            Some(v) => {
                let off: i32 = if bottom_unpegged {
                    ceil as i32 - v as i32
                } else {
                    0
                };
                out.push(WallStripe {
                    bottom_height: front_floor,
                    top_height: v,
                    offset_y: off,
                    texture: StripeTexture::Lower,
                    only_occlusions: false,
                    is_lower: true,
                    is_upper: false,
                    two_sided_middle: false,
                });
            },
            None => {},
        }
        match pt {
            Some(v) => {
                let off: i32 = if top_unpegged {
                    0
                } else {
                    v as i32 - ceil as i32
                };
                out.push(WallStripe {
                    bottom_height: v,
                    top_height: ceil,
                    offset_y: off,
                    texture: StripeTexture::Upper,
                    only_occlusions: false,
                    is_lower: false,
                    is_upper: true,
                    two_sided_middle: false,
                });
            },
            None => {},
        }
    }
    proof {
        assert(out@ =~= spec_wall_stripes(
            front_floor,
            front_ceiling,
            back,
            flags,
            front_sky,
            back_sky,
        ));
    }
    (out, draw_ceiling)
}

} // verus!
