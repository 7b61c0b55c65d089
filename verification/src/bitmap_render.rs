use vstd::prelude::*;

verus! {

/// How a queued render item is used during compositing.
#[derive(Clone, Copy, Debug, PartialEq, Eq, Structural)]
pub enum BitmapRenderState {
    /// An already drawn solid wall; only clips map objects.
    SolidSeg,
    /// A two-sided portal, drawn later behind map objects; also clips them.
    TwoSidedSeg,
    /// A portal that has been drawn.
    DrawnSeg,
    /// A map object.
    MapObject,
}

/// One screen column of a queued render item: its full vertical extent and
/// the part of it left visible after clipping.
#[derive(Clone, Copy, Debug, PartialEq, Eq, Structural)]
pub struct BitmapColumn {
    /// Screen x.
    pub x: i32,
    /// Top of the visible region.
    pub clipped_top_y: i32,
    /// Bottom of the visible region.
    pub clipped_bottom_y: i32,
    /// Bottom of the full line.
    pub bottom_y: i32,
    /// Top of the full line.
    pub top_y: i32,
}

/// All four extents of the column fit i16, as every column built by
/// `add_column` does.
pub open spec fn spec_column_in_i16(c: BitmapColumn) -> bool {
    &&& -0x8000 <= c.x <= 0x7fff
    &&& -0x8000 <= c.clipped_top_y <= 0x7fff
    &&& -0x8000 <= c.clipped_bottom_y <= 0x7fff
    &&& -0x8000 <= c.bottom_y <= 0x7fff
    &&& -0x8000 <= c.top_y <= 0x7fff
}

/// The sprite clip bounds after folding the first `k` columns of one
/// queued seg, per the compositing rules: a solid seg that extends to the
/// floor (or ceiling) clips by its visible region; a two-sided portal
/// clips by its full stripe, its top only while its ceiling is drawn —
/// the sky hack leaves tops open. Columns outside the screen are skipped.
pub open spec fn spec_seg_clips_after(
    cols: Seq<BitmapColumn>,
    k: int,
    top0: Seq<i16>,
    bottom0: Seq<i16>,
    solid: bool,
    two_sided: bool,
    extends_bottom: bool,
    extends_top: bool,
    draw_ceiling: bool,
) -> (Seq<i16>, Seq<i16>)
    decreases k,
{
    if k <= 0 {
        (top0, bottom0)
    } else {
        let prev = spec_seg_clips_after(
            cols,
            k - 1,
            top0,
            bottom0,
            solid,
            two_sided,
            extends_bottom,
            extends_top,
            draw_ceiling,
        );
        let t = prev.0;
        let b = prev.1;
        let c = cols[k - 1];
        if 0 <= c.x < t.len() && 0 <= c.x < b.len() {
            let x = c.x as int;
            let t2 = if solid && extends_top && c.clipped_bottom_y > t[x] {
                t.update(x, c.clipped_bottom_y as i16)
            } else if two_sided && draw_ceiling && c.top_y > t[x] {
                t.update(x, c.top_y as i16)
            } else {
                t
            };
            let b2 = if solid && extends_bottom && c.clipped_top_y < b[x] {
                b.update(x, c.clipped_top_y as i16)
            } else if two_sided && c.bottom_y < b[x] {
                b.update(x, c.bottom_y as i16)
            } else {
                b
            };
            (t2, b2)
        } else {
            (t, b)
        }
    }
}

/// Fold one queued seg's columns into a sprite's clip bounds.
pub fn accumulate_seg_clips(
    columns: &Vec<BitmapColumn>,
    solid: bool,
    two_sided: bool,
    extends_bottom: bool,
    extends_top: bool,
    draw_ceiling: bool,
    top_clip: &mut Vec<i16>,
    bottom_clip: &mut Vec<i16>,
)
    requires
        old(top_clip)@.len() == old(bottom_clip)@.len(),
        forall|i: int| 0 <= i < columns@.len() ==> spec_column_in_i16(#[trigger] columns@[i]),
    ensures
        final(top_clip)@.len() == old(top_clip)@.len(),
        final(bottom_clip)@.len() == old(bottom_clip)@.len(),
        (final(top_clip)@, final(bottom_clip)@) == spec_seg_clips_after(
            columns@,
            columns@.len() as int,
            old(top_clip)@,
            old(bottom_clip)@,
            solid,
            two_sided,
            extends_bottom,
            extends_top,
            draw_ceiling,
        ),
{
    let n = columns.len();
    let mut k: usize = 0;
    while k < n
        invariant
            n == columns@.len(),
            k <= n,
            top_clip@.len() == old(top_clip)@.len(),
            bottom_clip@.len() == old(bottom_clip)@.len(),
            old(top_clip)@.len() == old(bottom_clip)@.len(),
            forall|i: int| 0 <= i < columns@.len() ==> spec_column_in_i16(#[trigger] columns@[i]),
            (top_clip@, bottom_clip@) == spec_seg_clips_after(
                columns@,
                k as int,
                old(top_clip)@,
                old(bottom_clip)@,
                solid,
                two_sided,
                extends_bottom,
                extends_top,
                draw_ceiling,
            ),
        decreases n - k,
    {
        let c = columns[k];
        if c.x >= 0 && (c.x as usize) < top_clip.len() {
            let x = c.x as usize;
            if solid && extends_top && c.clipped_bottom_y > top_clip[x] as i32 {
                top_clip.set(x, c.clipped_bottom_y as i16);
            } else if two_sided && draw_ceiling && c.top_y > top_clip[x] as i32 {
                top_clip.set(x, c.top_y as i16);
            }
            if solid && extends_bottom && c.clipped_top_y < bottom_clip[x] as i32 {
                bottom_clip.set(x, c.clipped_top_y as i16);
            } else if two_sided && c.bottom_y < bottom_clip[x] as i32 {
                bottom_clip.set(x, c.bottom_y as i16);
            }
        }
        k = k + 1;
    }
}

/// Clip one sprite column to the accumulated seg bounds and the screen:
/// the drawable range is the sprite's own extent held inside both.
pub fn clip_sprite_column(
    top_y: i16,
    bottom_y: i16,
    top_clip: i16,
    bottom_clip: i16,
    screen_height: i16,
) -> (r: (i16, i16))
    requires
        screen_height >= 1,
    ensures
        r.0 as int == if top_y as int >= top_clip as int {
            if top_y as int >= 0 {
                top_y as int
            } else {
                0
            }
        } else {
            if top_clip as int >= 0 {
                top_clip as int
            } else {
                0
            }
        },
        r.1 as int == if bottom_y as int <= bottom_clip as int {
            if bottom_y as int <= screen_height - 1 {
                bottom_y as int
            } else {
                screen_height - 1
            }
        } else {
            if bottom_clip as int <= screen_height - 1 {
                bottom_clip as int
            } else {
                screen_height - 1
            }
        },
{
    let mut t = if top_y >= top_clip {
        top_y
    } else {
        top_clip
    };
    if t < 0 {
        t = 0;
    }
    let mut b = if bottom_y <= bottom_clip {
        bottom_y
    } else {
        bottom_clip
    };
    if b > screen_height - 1 {
        b = screen_height - 1;
    }
    (t, b)
}

/// Append one column to a render item's column list.
pub fn add_column(
    columns: &mut Vec<BitmapColumn>,
    x: i16,
    clipped_top_y: i16,
    clipped_bottom_y: i16,
    bottom_y: i16,
    top_y: i16,
)
    ensures
        final(columns)@ == old(columns)@.push(
            BitmapColumn {
                x: x as i32,
                clipped_top_y: clipped_top_y as i32,
                clipped_bottom_y: clipped_bottom_y as i32,
                bottom_y: bottom_y as i32,
                top_y: top_y as i32,
            },
        ),
{
    columns.push(BitmapColumn {
        x: x as i32,
        clipped_top_y: clipped_top_y as i32,
        clipped_bottom_y: clipped_bottom_y as i32,
        bottom_y: bottom_y as i32,
        top_y: top_y as i32,
    });
}

} // verus!
