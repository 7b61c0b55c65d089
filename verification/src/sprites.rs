use vstd::prelude::*;

use crate::errors::WadError;
use crate::bytes::spec_upper_seq;
use crate::pictures::{spec_mirrored, spec_picture_ok, Picture};
use crate::wad::{spec_find_last, DirEntry, WadFile};

verus! {

// -------------------------------------------------------------------------
// Sprite lumps live between S_START and S_END. A lump named e.g. "TROOA1"
// holds sprite "TROO", frame 'A', rotation 1; an 8-character name carries a
// second (frame, rotation) pair served by the horizontally mirrored image.
// Rotation digit 0 marks a non-rotated frame.
// -------------------------------------------------------------------------

/// One animation frame: a single picture, or eight rotations.
pub struct SpriteFrame {
    /// True when the frame stores eight rotations, false for a single view.
    pub rotate: bool,
    /// One picture, or the rotations 1..8 in order.
    pub pictures: Vec<Picture>,
}

/// All frames of one sprite, indexed by frame letter (A is 0).
pub struct Sprite {
    pub frames: Vec<Option<SpriteFrame>>,
}

/// The picture is the decode of the lump carrying its name.
pub open spec fn spec_picture_decode_direct(p: Picture, wad: WadFile) -> bool {
    spec_find_last(wad.dirs@, p.name@) matches Some(d) && p.matches(
        wad.file@,
        wad.dirs@[d].offset as int,
    )
}

/// The picture is the horizontal mirror of the decode of the lump
/// carrying its name.
pub open spec fn spec_picture_decode_mirrored(p: Picture, wad: WadFile) -> bool {
    spec_find_last(wad.dirs@, p.name@) matches Some(d) && (exists|q: Picture|
        (#[trigger] q.matches(wad.file@, wad.dirs@[d].offset as int)) && q.bitmap.wf()
            && p.bitmap.width == q.bitmap.width && p.bitmap.height == q.bitmap.height
            && p.left_offset == q.left_offset && p.top_offset == q.top_offset && p.bitmap.grid()
            == spec_mirrored(q.bitmap.grid(), q.bitmap.width as int))
}

/// The picture either decodes from the lump carrying its name, or is the
/// horizontal mirror of that decode.
pub open spec fn spec_sprite_picture_ok(p: Picture, wad: WadFile) -> bool {
    &&& p.bitmap.wf()
    &&& (spec_picture_decode_direct(p, wad) || spec_picture_decode_mirrored(p, wad))
}

impl SpriteFrame {
    /// A non-rotated frame holds one picture; a rotated frame holds eight.
    pub open spec fn wf(self, wad: WadFile) -> bool {
        &&& (self.rotate ==> self.pictures@.len() == 8)
        &&& (!self.rotate ==> self.pictures@.len() == 1)
        &&& forall|i: int|
            0 <= i < self.pictures@.len() ==> spec_sprite_picture_ok(
                #[trigger] self.pictures@[i],
                wad,
            )
    }
}

impl Sprite {
    pub open spec fn wf(self, wad: WadFile) -> bool {
        forall|f: int|
            0 <= f < self.frames@.len() ==> ((#[trigger] self.frames@[f]) matches Some(fr)
                ==> fr.wf(wad))
    }
}

/// Does directory entry `e` declare frame `f` of the sprite named by
/// `prefix`, either directly or as a mirrored second pair?
pub open spec fn spec_entry_declares(e: DirEntry, prefix: Seq<u8>, f: int) -> bool {
    &&& e.name@.len() >= 6
    &&& e.name@.len() >= prefix.len()
    &&& e.name@.take(prefix.len() as int) == prefix
    &&& (e.name@[4] - 65 == f || (e.name@.len() >= 8 && e.name@[6] - 65 == f))
}

/// Is frame `f` of the sprite named by `prefix` declared by any lump in the
/// sprite range `[lo, hi)`?
pub open spec fn spec_frame_declared(
    dirs: Seq<DirEntry>,
    lo: int,
    hi: int,
    prefix: Seq<u8>,
    f: int,
) -> bool {
    exists|i: int| lo <= i < hi && spec_entry_declares(#[trigger] dirs[i], prefix, f)
}

/// Does entry `e` declare frame `f` with rotation `r` by its first
/// (frame, rotation) name pair, served by the direct decode?
pub open spec fn spec_entry_declares_direct(e: DirEntry, prefix: Seq<u8>, f: int, r: int) -> bool {
    &&& e.name@.len() >= 6
    &&& e.name@.len() >= prefix.len()
    &&& e.name@.take(prefix.len() as int) == prefix
    &&& e.name@[4] - 65 == f
    &&& e.name@[5] - 48 == r
}

/// Does entry `e` declare frame `f` with rotation `r` by its second
/// (frame, rotation) name pair, served by the mirrored decode?
pub open spec fn spec_entry_declares_mirrored(
    e: DirEntry,
    prefix: Seq<u8>,
    f: int,
    r: int,
) -> bool {
    &&& e.name@.len() >= 8
    &&& e.name@.len() >= prefix.len()
    &&& e.name@.take(prefix.len() as int) == prefix
    &&& e.name@[6] - 65 == f
    &&& e.name@[7] - 48 == r
}

/// Is rotation `r` of frame `f` declared by any lump in the sprite range?
pub open spec fn spec_rot_declared(
    dirs: Seq<DirEntry>,
    lo: int,
    hi: int,
    prefix: Seq<u8>,
    f: int,
    r: int,
) -> bool {
    exists|i: int|
        lo <= i < hi && (spec_entry_declares_direct(#[trigger] dirs[i], prefix, f, r)
            || spec_entry_declares_mirrored(dirs[i], prefix, f, r))
}

/// The picture served for rotation `r` of frame `f` comes from a lump in
/// the range declaring that pair: it carries the lump's name and is the
/// lump's decode for a first-pair declaration, or the mirrored decode for
/// a second-pair declaration.
pub open spec fn spec_rotation_source(
    dirs: Seq<DirEntry>,
    lo: int,
    hi: int,
    prefix: Seq<u8>,
    f: int,
    r: int,
    p: Picture,
    wad: WadFile,
) -> bool {
    exists|i: int|
        lo <= i < hi && (#[trigger] dirs[i]).name@ == p.name@ && ((spec_entry_declares_direct(
            dirs[i],
            prefix,
            f,
            r,
        ) && spec_picture_decode_direct(p, wad)) || (spec_entry_declares_mirrored(
            dirs[i],
            prefix,
            f,
            r,
        ) && spec_picture_decode_mirrored(p, wad)))
}

/// Scanning one more entry extends the declared rotations by exactly what
/// that entry declares.
pub proof fn lemma_rot_declared_extend(dirs: Seq<DirEntry>, lo: int, i: int, prefix: Seq<u8>)
    requires
        lo <= i < dirs.len(),
    ensures
        forall|f: int, r: int|
            spec_rot_declared(dirs, lo, i + 1, prefix, f, r) <==> (spec_rot_declared(
                dirs,
                lo,
                i,
                prefix,
                f,
                r,
            ) || spec_entry_declares_direct(dirs[i], prefix, f, r)
                || spec_entry_declares_mirrored(dirs[i], prefix, f, r)),
{
    assert forall|f: int, r: int|
        spec_rot_declared(dirs, lo, i + 1, prefix, f, r) <==> (spec_rot_declared(
            dirs,
            lo,
            i,
            prefix,
            f,
            r,
        ) || spec_entry_declares_direct(dirs[i], prefix, f, r)
            || spec_entry_declares_mirrored(dirs[i], prefix, f, r)) by {
        if spec_rot_declared(dirs, lo, i + 1, prefix, f, r) {
            let j = choose|j: int|
                lo <= j < i + 1 && (spec_entry_declares_direct(#[trigger] dirs[j], prefix, f, r)
                    || spec_entry_declares_mirrored(dirs[j], prefix, f, r));
            if j < i {
                assert(lo <= j < i && (spec_entry_declares_direct(dirs[j], prefix, f, r)
                    || spec_entry_declares_mirrored(dirs[j], prefix, f, r)));
            }
        }
        if spec_rot_declared(dirs, lo, i, prefix, f, r) {
            let j = choose|j: int|
                lo <= j < i && (spec_entry_declares_direct(#[trigger] dirs[j], prefix, f, r)
                    || spec_entry_declares_mirrored(dirs[j], prefix, f, r));
            assert(lo <= j < i + 1 && (spec_entry_declares_direct(dirs[j], prefix, f, r)
                || spec_entry_declares_mirrored(dirs[j], prefix, f, r)));
        }
        if spec_entry_declares_direct(dirs[i], prefix, f, r) || spec_entry_declares_mirrored(
            dirs[i],
            prefix,
            f,
            r,
        ) {
            assert(lo <= i < i + 1 && (spec_entry_declares_direct(dirs[i], prefix, f, r)
                || spec_entry_declares_mirrored(dirs[i], prefix, f, r)));
        }
    }
}

/// A sprite-range entry is scannable: when its name starts with the
/// sprite's prefix it is long enough, its frame and rotation digit bytes
/// are valid, and its picture lump decodes.
pub open spec fn spec_scan_entry_ok(e: DirEntry, prefix: Seq<u8>, wad: WadFile) -> bool {
    (e.name@.len() >= prefix.len() && e.name@.take(prefix.len() as int) == prefix) ==> {
        &&& e.name@.len() >= 6
        &&& 65 <= e.name@[4]
        &&& 48 <= e.name@[5] <= 56
        &&& (e.name@.len() >= 8 ==> 65 <= e.name@[6] && 48 <= e.name@[7] <= 56)
        &&& spec_find_last(wad.dirs@, e.name@) matches Some(d) && spec_picture_ok(
            wad.file@,
            wad.dirs@[d].offset as int,
            wad.dirs@[d].size as int,
        )
    }
}

/// The declared rotations form whole frames: a frame with any rotation
/// 1..8 declared has all eight and no rotation 0.
pub open spec fn spec_shapes_ok(dirs: Seq<DirEntry>, lo: int, hi: int, prefix: Seq<u8>) -> bool {
    forall|f: int, r: int|
        1 <= r < 9 && #[trigger] spec_rot_declared(dirs, lo, hi, prefix, f, r)
            ==> !spec_rot_declared(dirs, lo, hi, prefix, f, 0) && (forall|r2: int|
            1 <= r2 < 9 ==> #[trigger] spec_rot_declared(dirs, lo, hi, prefix, f, r2))
}

/// Frame `f`'s stored shape follows its declarations exactly: a rotated
/// frame has all eight rotations 1..8 declared and none at 0, and picture
/// `r - 1` sources from a lump declaring rotation `r`; a single-view
/// frame has rotation 0 declared and no other, and its picture sources
/// from a rotation-0 lump.
pub open spec fn spec_frame_shape(
    dirs: Seq<DirEntry>,
    lo: int,
    hi: int,
    prefix: Seq<u8>,
    f: int,
    fr: SpriteFrame,
    wad: WadFile,
) -> bool {
    &&& (fr.rotate ==> !spec_rot_declared(dirs, lo, hi, prefix, f, 0) && (forall|rr: int|
        #![trigger spec_rot_declared(dirs, lo, hi, prefix, f, rr)]
        1 <= rr < 9 ==> spec_rot_declared(dirs, lo, hi, prefix, f, rr) && spec_rotation_source(
            dirs,
            lo,
            hi,
            prefix,
            f,
            rr,
            fr.pictures@[rr - 1],
            wad,
        )))
    &&& (!fr.rotate ==> spec_rot_declared(dirs, lo, hi, prefix, f, 0) && (forall|rr: int|
        #![trigger spec_rot_declared(dirs, lo, hi, prefix, f, rr)]
        1 <= rr < 9 ==> !spec_rot_declared(dirs, lo, hi, prefix, f, rr)) && spec_rotation_source(
        dirs,
        lo,
        hi,
        prefix,
        f,
        0,
        fr.pictures@[0],
        wad,
    ))
}

/// Is any rotation slot of frame `f` filled?
pub open spec fn spec_row_used(slots: Seq<Option<Picture>>, f: int) -> bool {
    exists|r: int| 0 <= r < 9 && #[trigger] slots[9 * f + r] is Some
}

/// Does `a` start with `prefix`?
fn bytes_starts_with(a: &Vec<u8>, prefix: &Vec<u8>) -> (r: bool)
    ensures
        r <==> (a@.len() >= prefix@.len() && a@.take(prefix@.len() as int) == prefix@),
{
    if a.len() < prefix.len() {
        proof {
            assert(a@.len() < prefix@.len());
        }
        return false;
    }
    let mut i: usize = 0;
    while i < prefix.len()
        invariant
            a@.len() >= prefix@.len(),
            i <= prefix@.len(),
            forall|j: int| 0 <= j < i ==> a@[j] == prefix@[j],
        decreases prefix@.len() - i,
    {
        if a[i] != prefix[i] {
            proof {
                assert(a@.take(prefix@.len() as int)[i as int] != prefix@[i as int]);
            }
            return false;
        }
        i = i + 1;
    }
    proof {
        assert(a@.take(prefix@.len() as int) =~= prefix@);
    }
    true
}

/// Fill one rotation slot, growing the slot table to cover the frame.
fn place_slot(slots: &mut Vec<Option<Picture>>, f: usize, r: usize, pic: Picture, wad: &WadFile)
    requires
        r < 9,
        f <= 190,
        old(slots)@.len() % 9 == 0,
        spec_sprite_picture_ok(pic, *wad),
        forall|k: int|
            0 <= k < old(slots)@.len() ==> ((#[trigger] old(slots)@[k]) matches Some(p)
                ==> spec_sprite_picture_ok(p, *wad)),
    ensures
        final(slots)@.len() % 9 == 0,
        final(slots)@.len() >= old(slots)@.len(),
        final(slots)@.len() >= 9 * f + 9,
        forall|k: int|
            0 <= k < final(slots)@.len() ==> ((#[trigger] final(slots)@[k]) matches Some(p)
                ==> spec_sprite_picture_ok(p, *wad)),
        final(slots)@[9 * f + r] == Some(pic),
        forall|k: int|
            0 <= k < final(slots)@.len() && k != 9 * f + r ==> #[trigger] final(slots)@[k] == (
            if k < old(slots)@.len() {
                old(slots)@[k]
            } else {
                None
            }),
{
    let target = 9 * f + 9;
    while slots.len() < target
        invariant
            target == 9 * f + 9,
            slots@.len() >= old(slots)@.len(),
            forall|k: int|
                0 <= k < slots@.len() ==> #[trigger] slots@[k] == (if k < old(slots)@.len() {
                    old(slots)@[k]
                } else {
                    None
                }),
            slots@.len() % 9 == 0 || slots@.len() > old(slots)@.len(),
            slots@.len() <= old(slots)@.len() || slots@.len() <= target,
            old(slots)@.len() % 9 == 0,
        decreases target - slots@.len(),
    {
        slots.push(None);
    }
    proof {
        assert(slots@.len() % 9 == 0);
    }
    slots.set(9 * f + r, Some(pic));
}

/// Scanning one more directory entry extends the declared-frame set by
/// exactly what that entry declares.
proof fn lemma_declared_extend(dirs: Seq<DirEntry>, lo: int, i: int, prefix: Seq<u8>)
    requires
        lo <= i < dirs.len(),
    ensures
        forall|f: int|
            spec_frame_declared(dirs, lo, i + 1, prefix, f) <==> (spec_frame_declared(
                dirs,
                lo,
                i,
                prefix,
                f,
            ) || spec_entry_declares(dirs[i], prefix, f)),
{
    assert forall|f: int|
        spec_frame_declared(dirs, lo, i + 1, prefix, f) <==> (spec_frame_declared(
            dirs,
            lo,
            i,
            prefix,
            f,
        ) || spec_entry_declares(dirs[i], prefix, f)) by {
        if spec_frame_declared(dirs, lo, i + 1, prefix, f) {
            let j = choose|j: int| lo <= j < i + 1 && spec_entry_declares(#[trigger] dirs[j], prefix, f);
            if j < i {
                assert(lo <= j < i && spec_entry_declares(dirs[j], prefix, f));
            }
        }
        if spec_frame_declared(dirs, lo, i, prefix, f) {
            let j = choose|j: int| lo <= j < i && spec_entry_declares(#[trigger] dirs[j], prefix, f);
            assert(lo <= j < i + 1 && spec_entry_declares(dirs[j], prefix, f));
        }
        if spec_entry_declares(dirs[i], prefix, f) {
            assert(lo <= i < i + 1 && spec_entry_declares(dirs[i], prefix, f));
        }
    }
}

/// Group the filled slots into frames: a frame is either a single rotation
/// 0 picture, eight rotation 1..8 pictures, or wholly absent; anything
/// else is a malformed sprite set.
fn finalize_sprite(
    slots: Vec<Option<Picture>>,
    Ghost(wad): Ghost<WadFile>,
    Ghost(dirs): Ghost<Seq<DirEntry>>,
    Ghost(lo): Ghost<int>,
    Ghost(hi): Ghost<int>,
    Ghost(prefix): Ghost<Seq<u8>>,
) -> (r: Result<Sprite, WadError>)
    requires
        slots@.len() % 9 == 0,
        forall|k: int|
            0 <= k < slots@.len() ==> ((#[trigger] slots@[k]) matches Some(p)
                ==> spec_sprite_picture_ok(p, wad)),
        forall|f: int|
            0 <= f && 9 * f < slots@.len() ==> (spec_row_used(slots@, f) <==> spec_frame_declared(
                dirs,
                lo,
                hi,
                prefix,
                f,
            )),
        forall|f: int|
            f >= 0 && 9 * f >= slots@.len() ==> !spec_frame_declared(dirs, lo, hi, prefix, f),
        forall|f: int, rr: int|
            0 <= rr < 9 && 0 <= f && 9 * f + rr < slots@.len() ==> ((#[trigger] slots@[9 * f
                + rr]) is Some <==> spec_rot_declared(dirs, lo, hi, prefix, f, rr)),
        forall|f: int, rr: int|
            0 <= rr < 9 && 0 <= f && 9 * f + rr < slots@.len() ==> ((#[trigger] slots@[9 * f
                + rr]) matches Some(p) ==> spec_rotation_source(dirs, lo, hi, prefix, f, rr, p, wad)),
    ensures
        r matches Ok(s) ==> {
            &&& s.wf(wad)
            &&& forall|f: int|
                0 <= f < s.frames@.len() ==> ((#[trigger] s.frames@[f]) is Some
                    <==> spec_frame_declared(dirs, lo, hi, prefix, f))
            &&& forall|f: int| f >= s.frames@.len() ==> !spec_frame_declared(dirs, lo, hi, prefix, f)
            &&& forall|f: int|
                0 <= f < s.frames@.len() ==> ((#[trigger] s.frames@[f]) matches Some(fr)
                    ==> spec_frame_shape(dirs, lo, hi, prefix, f, fr, wad))
        },
        spec_shapes_ok(dirs, lo, hi, prefix) ==> r is Ok,
{
    let ghost full = slots@;
    let nframes = slots.len() / 9;
    proof {
        assert(nframes * 9 == slots@.len());
    }
    let mut rest = slots;
    let mut frames: Vec<Option<SpriteFrame>> = Vec::new();
    let mut f: usize = 0;
    proof {
        assert(rest@ =~= full.skip(0));
    }
    while f < nframes
        invariant
            full.len() % 9 == 0,
            nframes == full.len() / 9,
            f <= nframes,
            frames@.len() == f,
            rest@ == full.skip(9 * f),
            forall|k: int|
                0 <= k < full.len() ==> ((#[trigger] full[k]) matches Some(p)
                    ==> spec_sprite_picture_ok(p, wad)),
            forall|g: int|
                0 <= g < f ==> ((#[trigger] frames@[g]) is Some <==> spec_row_used(full, g)),
            forall|g: int|
                0 <= g < f ==> ((#[trigger] frames@[g]) matches Some(fr) ==> fr.wf(wad)),
            forall|g: int, rr: int|
                0 <= rr < 9 && 0 <= g && 9 * g + rr < full.len() ==> ((#[trigger] full[9 * g
                    + rr]) is Some <==> spec_rot_declared(dirs, lo, hi, prefix, g, rr)),
            forall|g: int, rr: int|
                0 <= rr < 9 && 0 <= g && 9 * g + rr < full.len() ==> ((#[trigger] full[9 * g
                    + rr]) matches Some(p) ==> spec_rotation_source(
                    dirs,
                    lo,
                    hi,
                    prefix,
                    g,
                    rr,
                    p,
                    wad,
                )),
            forall|g: int|
                0 <= g < f ==> ((#[trigger] frames@[g]) matches Some(fr) ==> spec_frame_shape(
                    dirs,
                    lo,
                    hi,
                    prefix,
                    g,
                    fr,
                    wad,
                )),
        decreases nframes - f,
    {
        proof {
            assert forall|k: int| 0 <= k < 9 implies rest@[k] == full[9 * f + k] by {}
        }
        let b0 = rest[0].is_some();
        let b1 = rest[1].is_some();
        let b2 = rest[2].is_some();
        let b3 = rest[3].is_some();
        let b4 = rest[4].is_some();
        let b5 = rest[5].is_some();
        let b6 = rest[6].is_some();
        let b7 = rest[7].is_some();
        let b8 = rest[8].is_some();
        let any_rot = b1 || b2 || b3 || b4 || b5 || b6 || b7 || b8;
        let all_rot = b1 && b2 && b3 && b4 && b5 && b6 && b7 && b8;

        if b0 && !any_rot {
            // A single non-rotated view.
            let p0 = rest.remove(0).unwrap();
            let ghost p0_g = p0;
            let mut k: usize = 0;
            while k < 8
                invariant
                    k <= 8,
                    rest@ == full.skip(9 * f + 1 + k),
                    full.len() % 9 == 0,
                    nframes == full.len() / 9,
                    nframes * 9 == full.len(),
                    f < nframes,
                decreases 8 - k,
            {
                let ghost before = rest@;
                let _ = rest.remove(0);
                proof {
                    assert(before.remove(0) =~= full.skip(9 * f + 1 + k + 1));
                }
                k = k + 1;
            }
            let mut pictures: Vec<Picture> = Vec::new();
            pictures.push(p0);
            frames.push(Some(SpriteFrame { rotate: false, pictures }));
            proof {
                assert(spec_row_used(full, f as int));
                assert(rest@ =~= full.skip(9 * (f + 1)));
                assert(full[9 * (f as int)] == Some(p0_g));
                assert(spec_rot_declared(dirs, lo, hi, prefix, f as int, 0));
                assert(spec_rotation_source(dirs, lo, hi, prefix, f as int, 0, p0_g, wad));
                assert forall|rr: int| 1 <= rr < 9 implies !spec_rot_declared(
                    dirs,
                    lo,
                    hi,
                    prefix,
                    f as int,
                    rr,
                ) by {
                    assert(!(#[trigger] full[9 * (f as int) + rr] is Some));
                }
            }
        } else if !b0 && all_rot {
            // Eight rotations 1..8.
            let ghost before0 = rest@;
            let _ = rest.remove(0);
            proof {
                assert(before0.remove(0) =~= full.skip(9 * f + 1));
            }
            let mut pictures: Vec<Picture> = Vec::new();
            let mut k: usize = 0;
            while k < 8
                invariant
                    k <= 8,
                    rest@ == full.skip(9 * f + 1 + k),
                    pictures@.len() == k,
                    forall|m: int|
                        0 <= m < k ==> spec_sprite_picture_ok(#[trigger] pictures@[m], wad),
                    forall|m: int|
                        0 <= m < k ==> #[trigger] pictures@[m] == full[9 * f + 1 + m].unwrap(),
                    forall|m: int|
                        9 * f + 1 <= m < 9 * f + 9 ==> (#[trigger] full[m]) is Some,
                    forall|m: int|
                        0 <= m < full.len() ==> ((#[trigger] full[m]) matches Some(p)
                            ==> spec_sprite_picture_ok(p, wad)),
                    full.len() % 9 == 0,
                    nframes == full.len() / 9,
                    nframes * 9 == full.len(),
                    f < nframes,
                decreases 8 - k,
            {
                let ghost before = rest@;
                let p = rest.remove(0).unwrap();
                proof {
                    assert(before.remove(0) =~= full.skip(9 * f + 1 + k + 1));
                }
                pictures.push(p);
                k = k + 1;
            }
            frames.push(Some(SpriteFrame { rotate: true, pictures }));
            proof {
                assert(full[9 * f + 1] is Some);
                assert(spec_row_used(full, f as int));
                assert(rest@ =~= full.skip(9 * (f + 1)));
                assert(!(full[9 * (f as int)] is Some));
                assert(!spec_rot_declared(dirs, lo, hi, prefix, f as int, 0));
                assert forall|rr: int| 1 <= rr < 9 implies spec_rot_declared(
                    dirs,
                    lo,
                    hi,
                    prefix,
                    f as int,
                    rr,
                ) && spec_rotation_source(
                    dirs,
                    lo,
                    hi,
                    prefix,
                    f as int,
                    rr,
                    frames@.last().unwrap().pictures@[rr - 1],
                    wad,
                ) by {
                    assert((#[trigger] full[9 * (f as int) + rr]) is Some);
                    assert(frames@.last().unwrap().pictures@[rr - 1] == full[9 * (
                    f as int) + rr].unwrap());
                }
            }
        } else if !b0 && !any_rot {
            // Wholly absent frame.
            let mut k: usize = 0;
            while k < 9
                invariant
                    k <= 9,
                    rest@ == full.skip(9 * f + k),
                    full.len() % 9 == 0,
                    nframes == full.len() / 9,
                    nframes * 9 == full.len(),
                    f < nframes,
                decreases 9 - k,
            {
                let ghost before = rest@;
                let _ = rest.remove(0);
                proof {
                    assert(before.remove(0) =~= full.skip(9 * f + k + 1));
                }
                k = k + 1;
            }
            frames.push(None);
            proof {
                assert forall|r2: int| 0 <= r2 < 9 implies !(#[trigger] full[9 * (f as int) + r2]
                    is Some) by {}
                assert(!spec_row_used(full, f as int));
                assert(rest@ =~= full.skip(9 * (f + 1)));
            }
        } else {
            // Neither a lone rotation 0 nor a full set of rotations 1..8.
            proof {
                let ghost fw = f as int;
                let some_rot: int = if b1 {
                    1int
                } else if b2 {
                    2int
                } else if b3 {
                    3int
                } else if b4 {
                    4int
                } else if b5 {
                    5int
                } else if b6 {
                    6int
                } else if b7 {
                    7int
                } else {
                    8int
                };
                let missing_rot: int = if !b1 {
                    1int
                } else if !b2 {
                    2int
                } else if !b3 {
                    3int
                } else if !b4 {
                    4int
                } else if !b5 {
                    5int
                } else if !b6 {
                    6int
                } else if !b7 {
                    7int
                } else {
                    8int
                };
                if b0 && any_rot {
                    assert(full[9 * fw] is Some);
                    assert(full[9 * fw + some_rot] is Some);
                    assert(spec_rot_declared(dirs, lo, hi, prefix, fw, 0));
                    assert(spec_rot_declared(dirs, lo, hi, prefix, fw, some_rot));
                    assert(!spec_shapes_ok(dirs, lo, hi, prefix));
                } else {
                    // Some rotation present, some missing.
                    assert(full[9 * fw + some_rot] is Some);
                    assert(!(full[9 * fw + missing_rot] is Some));
                    assert(spec_rot_declared(dirs, lo, hi, prefix, fw, some_rot));
                    assert(!spec_rot_declared(dirs, lo, hi, prefix, fw, missing_rot));
                    assert(!spec_shapes_ok(dirs, lo, hi, prefix));
                }
            }
            return Err(WadError::MalformedRecord);
        }
        f = f + 1;
    }
    Ok(Sprite { frames })
}

/// Scan the sprite range for one sprite's lumps and group its frames.
#[verifier::rlimit(100)]
fn build_sprite(wad: &WadFile, prefix: &Vec<u8>, lo: usize, hi: usize) -> (r: Result<
    Sprite,
    WadError,
>)
    requires
        wad.wf(),
        hi <= wad.dirs@.len(),
    ensures
        r matches Ok(s) ==> {
            &&& s.wf(*wad)
            &&& forall|f: int|
                0 <= f < s.frames@.len() ==> ((#[trigger] s.frames@[f]) is Some
                    <==> spec_frame_declared(wad.dirs@, lo as int, hi as int, prefix@, f))
            &&& forall|f: int|
                f >= s.frames@.len() ==> !spec_frame_declared(
                    wad.dirs@,
                    lo as int,
                    hi as int,
                    prefix@,
                    f,
                )
            &&& forall|f: int|
                0 <= f < s.frames@.len() ==> ((#[trigger] s.frames@[f]) matches Some(fr)
                    ==> spec_frame_shape(
                    wad.dirs@,
                    lo as int,
                    hi as int,
                    prefix@,
                    f,
                    fr,
                    *wad,
                ))
        },
        ((forall|i: int|
            lo <= i < hi ==> #[trigger] spec_scan_entry_ok(wad.dirs@[i], prefix@, *wad))
            && spec_shapes_ok(wad.dirs@, lo as int, hi as int, prefix@)) ==> r is Ok,
{
    let mut slots: Vec<Option<Picture>> = Vec::new();
    let mut i: usize = lo;
    if hi < lo {
        proof {
            assert(forall|f: int|
                !spec_frame_declared(wad.dirs@, lo as int, hi as int, prefix@, f));
        }
        return Ok(Sprite { frames: Vec::new() });
    }
    while i < hi
        invariant
            wad.wf(),
            lo <= i <= hi,
            hi <= wad.dirs@.len(),
            slots@.len() % 9 == 0,
            forall|k: int|
                0 <= k < slots@.len() ==> ((#[trigger] slots@[k]) matches Some(p)
                    ==> spec_sprite_picture_ok(p, *wad)),
            forall|f: int|
                0 <= f && 9 * f < slots@.len() ==> (spec_row_used(slots@, f)
                    <==> spec_frame_declared(wad.dirs@, lo as int, i as int, prefix@, f)),
            forall|f: int|
                f >= 0 && 9 * f >= slots@.len() ==> !spec_frame_declared(
                    wad.dirs@,
                    lo as int,
                    i as int,
                    prefix@,
                    f,
                ),
            forall|f: int, rr: int|
                0 <= rr < 9 && 0 <= f && 9 * f + rr < slots@.len() ==> ((#[trigger] slots@[9 * f
                    + rr]) is Some <==> spec_rot_declared(
                    wad.dirs@,
                    lo as int,
                    i as int,
                    prefix@,
                    f,
                    rr,
                )),
            forall|f: int, rr: int|
                0 <= rr < 9 && f >= 0 && 9 * f + rr >= slots@.len()
                    ==> !#[trigger] spec_rot_declared(
                    wad.dirs@,
                    lo as int,
                    i as int,
                    prefix@,
                    f,
                    rr,
                ),
            forall|f: int, rr: int|
                0 <= rr < 9 && 0 <= f && 9 * f + rr < slots@.len() ==> ((#[trigger] slots@[9 * f
                    + rr]) matches Some(p) ==> spec_rotation_source(
                    wad.dirs@,
                    lo as int,
                    i as int,
                    prefix@,
                    f,
                    rr,
                    p,
                    *wad,
                )),
        decreases hi - i,
    {
        let entry = &wad.dirs[i];
        let ghost slots_at_entry = slots@;
        if bytes_starts_with(&entry.name, prefix) {
            proof {
                assert(wad.dirs@[i as int].matches(
                    wad.file@,
                    wad.header.dir_offset as int,
                    i as int,
                ));
                let name_field = wad.header.dir_offset as int + 16 * (i as int) + 8;
                crate::bytes::lemma_upper_idempotent(
                    wad.file@.subrange(
                        name_field,
                        name_field + crate::bytes::spec_name_len(wad.file@, name_field),
                    ),
                );
                assert(spec_upper_seq(entry.name@) == entry.name@);
            }
            if entry.name.len() < 6 {
                proof {
                    assert(!spec_scan_entry_ok(wad.dirs@[i as int], prefix@, *wad));
                }
                return Err(WadError::MalformedRecord);
            }
            let fb = entry.name[4];
            let rb = entry.name[5];
            if fb < 65 || rb < 48 || rb > 56 {
                proof {
                    assert(!spec_scan_entry_ok(wad.dirs@[i as int], prefix@, *wad));
                }
                return Err(WadError::MalformedRecord);
            }
            let picture = match Picture::new(wad, &entry.name) {
                Ok(p) => p,
                Err(e) => {
                    proof {
                        assert(!spec_scan_entry_ok(wad.dirs@[i as int], prefix@, *wad));
                    }
                    return Err(e);
                },
            };
            let f1 = (fb - 65) as usize;
            let r1 = (rb - 48) as usize;
            let ghost placed_direct = picture;
            place_slot(&mut slots, f1, r1, picture, wad);
            let ghost mid = slots@;

            let mut f2: usize = f1;
            let mut r2: usize = r1;
            let ghost mut placed_mirror_g = placed_direct;
            let ghost mut mirror_src_g = placed_direct;
            let second = entry.name.len() >= 8;
            if second {
                let fb2 = entry.name[6];
                let rb2 = entry.name[7];
                if fb2 < 65 || rb2 < 48 || rb2 > 56 {
                    proof {
                        assert(!spec_scan_entry_ok(wad.dirs@[i as int], prefix@, *wad));
                    }
                    return Err(WadError::MalformedRecord);
                }
                // Decode the source again and mirror it for the second pair.
                let picture2 = match Picture::new(wad, &entry.name) {
                    Ok(p) => p,
                    Err(e) => {
                        proof {
                            assert(!spec_scan_entry_ok(wad.dirs@[i as int], prefix@, *wad));
                        }
                        return Err(e);
                    },
                };
                let mirrored = picture2.mirror();
                f2 = (fb2 - 65) as usize;
                r2 = (rb2 - 48) as usize;
                let ghost placed_mirror = mirrored;
                let ghost mirror_src = picture2;
                place_slot(&mut slots, f2, r2, mirrored, wad);
                proof {
                    placed_mirror_g = placed_mirror;
                    mirror_src_g = mirror_src;
                }
            }
            proof {
                lemma_declared_extend(wad.dirs@, lo as int, i as int, prefix@);
                let e = wad.dirs@[i as int];
                let t1 = 9 * (f1 as int) + r1 as int;
                let t2 = 9 * (f2 as int) + r2 as int;
                assert(spec_entry_declares(e, prefix@, f1 as int));
                if second {
                    assert(spec_entry_declares(e, prefix@, f2 as int));
                }
                assert forall|f: int|
                    spec_entry_declares(e, prefix@, f) implies f == f1 as int || (second && f
                    == f2 as int) by {}
                // The first placed slot survives the second placement, or
                // is overwritten in place by it; either way it is filled.
                assert(slots@[t1] is Some);
                assert(slots@[t2] is Some || !second);
                // Cells outside the two targets are unchanged (new cells
                // are empty).
                assert forall|k: int|
                    0 <= k < slots@.len() && k != t1 && k != t2 implies slots@[k] == (if k
                    < slots_at_entry.len() {
                    slots_at_entry[k]
                } else {
                    None
                }) by {}
                assert forall|f: int|
                    0 <= f && 9 * f < slots@.len() implies (spec_row_used(slots@, f)
                    <==> spec_frame_declared(wad.dirs@, lo as int, i + 1, prefix@, f)) by {
                    if f == f1 as int {
                        assert(0 <= (r1 as int) && (r1 as int) < 9 && slots@[9 * f + r1 as int]
                            is Some);
                        assert(spec_row_used(slots@, f));
                    } else if second && f == f2 as int {
                        assert(0 <= (r2 as int) && (r2 as int) < 9 && slots@[9 * f + r2 as int]
                            is Some);
                        assert(spec_row_used(slots@, f));
                    } else {
                        // Unplaced rows: cells unchanged, and the entry
                        // does not declare this frame.
                        if spec_row_used(slots@, f) {
                            let r = choose|r: int| 0 <= r < 9 && #[trigger] slots@[9 * f + r] is Some;
                            assert(9 * f + r != t1 && 9 * f + r != t2);
                            assert(9 * f + r < slots_at_entry.len());
                            assert(spec_row_used(slots_at_entry, f));
                            assert(9 * f < slots_at_entry.len());
                        }
                        if 9 * f < slots_at_entry.len() {
                            assert(9 * f + 9 <= slots_at_entry.len());
                            if spec_row_used(slots_at_entry, f) {
                                let r = choose|r: int|
                                    0 <= r < 9 && #[trigger] slots_at_entry[9 * f + r] is Some;
                                assert(9 * f + r != t1 && 9 * f + r != t2);
                                assert(slots@[9 * f + r] is Some);
                                assert(spec_row_used(slots@, f));
                            }
                        } else {
                            assert(!spec_frame_declared(
                                wad.dirs@,
                                lo as int,
                                i as int,
                                prefix@,
                                f,
                            ));
                        }
                    }
                }
                assert forall|f: int|
                    #![trigger spec_frame_declared(wad.dirs@, lo as int, i + 1, prefix@, f)]
                    f >= 0 && 9 * f >= slots@.len() implies !spec_frame_declared(
                    wad.dirs@,
                    lo as int,
                    i + 1,
                    prefix@,
                    f,
                ) by {
                    assert(9 * f >= slots_at_entry.len());
                    assert(slots@.len() >= 9 * (f1 as int) + 9);
                    assert(f != f1 as int);
                    if second {
                        assert(slots@.len() >= 9 * (f2 as int) + 9);
                        assert(f != f2 as int);
                    }
                    assert(!spec_frame_declared(wad.dirs@, lo as int, i as int, prefix@, f));
                    assert(!spec_entry_declares(wad.dirs@[i as int], prefix@, f));
                }
                // Rotation-level bookkeeping: the entry's canonical name
                // is upper-fixed, so the placed pictures carry it.
                lemma_rot_declared_extend(wad.dirs@, lo as int, i as int, prefix@);
                assert(wad.dirs@[i as int].matches(
                    wad.file@,
                    wad.header.dir_offset as int,
                    i as int,
                ));
                let name_field = wad.header.dir_offset as int + 16 * (i as int) + 8;
                assert(e.name@ == crate::bytes::spec_name_at(wad.file@, name_field));
                crate::bytes::lemma_upper_idempotent(
                    wad.file@.subrange(
                        name_field,
                        name_field + crate::bytes::spec_name_len(wad.file@, name_field),
                    ),
                );
                assert(spec_upper_seq(e.name@) == e.name@);
                assert(spec_entry_declares_direct(e, prefix@, f1 as int, r1 as int));
                assert(spec_picture_decode_direct(placed_direct, *wad));
                assert(placed_direct.name@ == e.name@);
                if second {
                    assert(spec_entry_declares_mirrored(e, prefix@, f2 as int, r2 as int));
                    assert(spec_picture_decode_mirrored(placed_mirror_g, *wad));
                    assert(placed_mirror_g.name@ == e.name@);
                }
                assert forall|f: int, rr: int|
                    (spec_entry_declares_direct(e, prefix@, f, rr) ==> f == f1 as int && rr
                        == r1 as int) && (spec_entry_declares_mirrored(e, prefix@, f, rr) ==> (
                    second && f == f2 as int && rr == r2 as int)) by {}
                // The two placed slots hold the placed pictures.
                if second && t1 == t2 {
                    assert(slots@[t1] == Some(placed_mirror_g));
                } else {
                    assert(slots@[t1] == Some(placed_direct));
                }
                if second {
                    assert(slots@[t2] == Some(placed_mirror_g));
                }
                assert forall|f: int, rr: int|
                    0 <= rr < 9 && 0 <= f && 9 * f + rr < slots@.len() implies ((
                #[trigger] slots@[9 * f + rr]) is Some <==> spec_rot_declared(
                    wad.dirs@,
                    lo as int,
                    i + 1,
                    prefix@,
                    f,
                    rr,
                )) by {
                    if f == f1 as int && rr == r1 as int {
                        assert(slots@[t1] is Some);
                    } else if second && f == f2 as int && rr == r2 as int {
                        assert(slots@[t2] is Some);
                    } else {
                        assert(9 * f + rr != t1 && 9 * f + rr != t2);
                        if 9 * f + rr < slots_at_entry.len() {
                            assert(slots@[9 * f + rr] == slots_at_entry[9 * f + rr]);
                        } else {
                            assert(slots@[9 * f + rr] is None);
                            assert(!spec_rot_declared(
                                wad.dirs@,
                                lo as int,
                                i as int,
                                prefix@,
                                f,
                                rr,
                            ));
                        }
                    }
                }
                assert forall|f: int, rr: int|
                    0 <= rr < 9 && f >= 0 && 9 * f + rr >= slots@.len()
                        implies !#[trigger] spec_rot_declared(
                    wad.dirs@,
                    lo as int,
                    i + 1,
                    prefix@,
                    f,
                    rr,
                ) by {
                    assert(9 * f + rr >= slots_at_entry.len());
                    assert(slots@.len() >= 9 * (f1 as int) + 9);
                    assert(!(f == f1 as int && rr == r1 as int));
                    if second {
                        assert(slots@.len() >= 9 * (f2 as int) + 9);
                        assert(!(f == f2 as int && rr == r2 as int));
                    }
                    assert(!spec_rot_declared(wad.dirs@, lo as int, i as int, prefix@, f, rr));
                }
                assert forall|f: int, rr: int|
                    0 <= rr < 9 && 0 <= f && 9 * f + rr < slots@.len() implies ((
                #[trigger] slots@[9 * f + rr]) matches Some(p) ==> spec_rotation_source(
                    wad.dirs@,
                    lo as int,
                    i + 1,
                    prefix@,
                    f,
                    rr,
                    p,
                    *wad,
                )) by {
                    if f == f1 as int && rr == r1 as int {
                        if second && t1 == t2 {
                            assert(spec_entry_declares_mirrored(e, prefix@, f, rr));
                        }
                    } else if second && f == f2 as int && rr == r2 as int {
                    } else {
                        assert(9 * f + rr != t1 && 9 * f + rr != t2);
                        if slots@[9 * f + rr] is Some {
                            let p = slots@[9 * f + rr].unwrap();
                            assert(9 * f + rr < slots_at_entry.len());
                            assert(slots_at_entry[9 * f + rr] == Some(p));
                            assert(spec_rotation_source(
                                wad.dirs@,
                                lo as int,
                                i as int,
                                prefix@,
                                f,
                                rr,
                                p,
                                *wad,
                            ));
                            let j = choose|j: int|
                                lo <= j < i && (#[trigger] wad.dirs@[j]).name@ == p.name@ && ((
                                spec_entry_declares_direct(wad.dirs@[j], prefix@, f, rr)
                                    && spec_picture_decode_direct(p, *wad)) || (
                                spec_entry_declares_mirrored(wad.dirs@[j], prefix@, f, rr)
                                    && spec_picture_decode_mirrored(p, *wad)));
                            assert(lo <= j < i + 1);
                        }
                    }
                }
            }
        } else {
            proof {
                lemma_declared_extend(wad.dirs@, lo as int, i as int, prefix@);
                assert forall|f: int|
                    #![trigger spec_entry_declares(wad.dirs@[i as int], prefix@, f)]
                    !spec_entry_declares(wad.dirs@[i as int], prefix@, f) by {}
                assert forall|f: int|
                    0 <= f && 9 * f < slots@.len() implies (spec_row_used(slots@, f)
                    <==> spec_frame_declared(wad.dirs@, lo as int, i + 1, prefix@, f)) by {
                    assert(spec_row_used(slots@, f) <==> spec_frame_declared(
                        wad.dirs@,
                        lo as int,
                        i as int,
                        prefix@,
                        f,
                    ));
                    assert(!spec_entry_declares(wad.dirs@[i as int], prefix@, f));
                }
                assert forall|f: int|
                    #![trigger spec_frame_declared(wad.dirs@, lo as int, i + 1, prefix@, f)]
                    f >= 0 && 9 * f >= slots@.len() implies !spec_frame_declared(
                    wad.dirs@,
                    lo as int,
                    i + 1,
                    prefix@,
                    f,
                ) by {
                    assert(!spec_frame_declared(wad.dirs@, lo as int, i as int, prefix@, f));
                    assert(!spec_entry_declares(wad.dirs@[i as int], prefix@, f));
                }
                lemma_rot_declared_extend(wad.dirs@, lo as int, i as int, prefix@);
                assert forall|f: int, rr: int|
                    #![trigger spec_rot_declared(wad.dirs@, lo as int, i + 1, prefix@, f, rr)]
                    !spec_entry_declares_direct(wad.dirs@[i as int], prefix@, f, rr)
                        && !spec_entry_declares_mirrored(
                        wad.dirs@[i as int],
                        prefix@,
                        f,
                        rr,
                    ) by {}
                assert forall|f: int, rr: int|
                    0 <= rr < 9 && 0 <= f && 9 * f + rr < slots@.len() implies ((
                #[trigger] slots@[9 * f + rr]) matches Some(p) ==> spec_rotation_source(
                    wad.dirs@,
                    lo as int,
                    i + 1,
                    prefix@,
                    f,
                    rr,
                    p,
                    *wad,
                )) by {
                    if slots@[9 * f + rr] is Some {
                        let p = slots@[9 * f + rr].unwrap();
                        assert(spec_rotation_source(
                            wad.dirs@,
                            lo as int,
                            i as int,
                            prefix@,
                            f,
                            rr,
                            p,
                            *wad,
                        ));
                        let j = choose|j: int|
                            lo <= j < i && (#[trigger] wad.dirs@[j]).name@ == p.name@ && ((
                            spec_entry_declares_direct(wad.dirs@[j], prefix@, f, rr)
                                && spec_picture_decode_direct(p, *wad)) || (
                            spec_entry_declares_mirrored(wad.dirs@[j], prefix@, f, rr)
                                && spec_picture_decode_mirrored(p, *wad)));
                        assert(lo <= j < i + 1);
                    }
                }
            }
        }
        i = i + 1;
    }

    finalize_sprite(slots, Ghost(*wad), Ghost(wad.dirs@), Ghost(lo as int), Ghost(hi as int), Ghost(prefix@))
}

/// The sprite stores, indexed like the name list handed to `new`.
pub struct Sprites {
    /// The sprite name prefixes, in order.
    pub names: Vec<Vec<u8>>,
    /// One sprite per name.
    pub sprites: Vec<Sprite>,
    /// The WAD file this store decoded from.
    pub wad_snap: Ghost<WadFile>,
}

impl Sprites {
    pub open spec fn wf(self) -> bool {
        &&& self.sprites@.len() == self.names@.len()
        &&& forall|s: int|
            0 <= s < self.sprites@.len() ==> (#[trigger] self.sprites@[s]).wf(self.wad_snap@)
    }

    /// Scan the sprite range of the WAD (between S_START and S_END) and
    /// group every named sprite's lumps into frames. A frame exists in the
    /// result exactly when some lump in the range declares it.
    pub fn new(wad: &WadFile, sprite_names: Vec<Vec<u8>>) -> (r: Result<Sprites, WadError>)
        requires
            wad.wf(),
        ensures
            r matches Ok(s) ==> {
                &&& s.wf()
                &&& s.wad_snap@ == *wad
                &&& s.names@ == sprite_names@
                &&& wad.first_sprite_lump matches Some(lo)
                &&& wad.last_sprite_lump matches Some(hi)
                &&& forall|si: int, f: int|
                    0 <= si < s.sprites@.len() && 0 <= f < s.sprites@[si].frames@.len() ==> (
                    #[trigger] s.sprites@[si].frames@[f] is Some <==> spec_frame_declared(
                        wad.dirs@,
                        wad.first_sprite_lump.unwrap() as int,
                        wad.last_sprite_lump.unwrap() as int,
                        sprite_names@[si]@,
                        f,
                    ))
                &&& forall|si: int, f: int|
                    0 <= si < s.sprites@.len() && f >= s.sprites@[si].frames@.len()
                        ==> !#[trigger] spec_frame_declared(
                        wad.dirs@,
                        wad.first_sprite_lump.unwrap() as int,
                        wad.last_sprite_lump.unwrap() as int,
                        sprite_names@[si]@,
                        f,
                    )
                &&& forall|si: int, f: int|
                    0 <= si < s.sprites@.len() && 0 <= f < s.sprites@[si].frames@.len() ==> ((
                    #[trigger] s.sprites@[si].frames@[f]) matches Some(fr) ==> spec_frame_shape(
                        wad.dirs@,
                        wad.first_sprite_lump.unwrap() as int,
                        wad.last_sprite_lump.unwrap() as int,
                        sprite_names@[si]@,
                        f,
                        fr,
                        *wad,
                    ))
            },
            (wad.first_sprite_lump is None || wad.last_sprite_lump is None) ==> (r matches Err(e)
                && e == WadError::MissingLump),
            (wad.first_sprite_lump matches Some(lo2) && wad.last_sprite_lump matches Some(hi2)
                && hi2 <= wad.dirs@.len() && (forall|si: int|
                #![trigger sprite_names@[si]]
                0 <= si < sprite_names@.len() ==> ((forall|i: int|
                    lo2 <= i < hi2 ==> #[trigger] spec_scan_entry_ok(
                        wad.dirs@[i],
                        sprite_names@[si]@,
                        *wad,
                    )) && spec_shapes_ok(
                    wad.dirs@,
                    lo2 as int,
                    hi2 as int,
                    sprite_names@[si]@,
                )))) ==> r is Ok,
    {
        let lo = match wad.first_sprite_lump {
            Some(v) => v,
            None => {
                return Err(WadError::MissingLump);
            },
        };
        let hi = match wad.last_sprite_lump {
            Some(v) => v,
            None => {
                return Err(WadError::MissingLump);
            },
        };
        if hi > wad.dirs.len() {
            return Err(WadError::MalformedRecord);
        }

        let mut sprites: Vec<Sprite> = Vec::new();
        let mut si: usize = 0;
        while si < sprite_names.len()
            invariant
                wad.wf(),
                wad.first_sprite_lump == Some(lo),
                wad.last_sprite_lump == Some(hi),
                hi <= wad.dirs@.len(),
                si <= sprite_names@.len(),
                sprites@.len() == si,
                forall|s: int| 0 <= s < si ==> (#[trigger] sprites@[s]).wf(*wad),
                forall|s: int, f: int|
                    0 <= s < si && 0 <= f < sprites@[s].frames@.len() ==> (
                    #[trigger] sprites@[s].frames@[f] is Some <==> spec_frame_declared(
                        wad.dirs@,
                        lo as int,
                        hi as int,
                        sprite_names@[s]@,
                        f,
                    )),
                forall|s: int, f: int|
                    0 <= s < si && f >= sprites@[s].frames@.len() ==> !#[trigger] spec_frame_declared(
                        wad.dirs@,
                        lo as int,
                        hi as int,
                        sprite_names@[s]@,
                        f,
                    ),
                forall|s: int, f: int|
                    0 <= s < si && 0 <= f < sprites@[s].frames@.len() ==> ((
                    #[trigger] sprites@[s].frames@[f]) matches Some(fr) ==> spec_frame_shape(
                        wad.dirs@,
                        lo as int,
                        hi as int,
                        sprite_names@[s]@,
                        f,
                        fr,
                        *wad,
                    )),
            decreases sprite_names@.len() - si,
        {
            let sprite = match build_sprite(wad, &sprite_names[si], lo, hi) {
                Ok(s) => s,
                Err(e) => {
                    proof {
                        assert(!((forall|i: int|
                            lo <= i < hi ==> #[trigger] spec_scan_entry_ok(
                                wad.dirs@[i],
                                sprite_names@[si as int]@,
                                *wad,
                            )) && spec_shapes_ok(
                            wad.dirs@,
                            lo as int,
                            hi as int,
                            sprite_names@[si as int]@,
                        )));
                    }
                    return Err(e);
                },
            };
            sprites.push(sprite);
            si = si + 1;
        }
        Ok(Sprites { names: sprite_names, sprites, wad_snap: Ghost(*wad) })
    }

    /// Look up the picture for a sprite, frame and rotation. The rotation
    /// must be 0..7; a non-rotated frame serves its single picture for
    /// every rotation. Fails with `UnknownSprite` when the sprite index or
    /// frame is unknown or the rotation is out of range.
    pub fn get_picture(&self, sprite: usize, frame: u8, rotation: u8) -> (r: Result<
        &Picture,
        WadError,
    >)
        requires
            self.wf(),
        ensures
            match r {
                Ok(p) => {
                    &&& sprite < self.sprites@.len()
                    &&& frame < self.sprites@[sprite as int].frames@.len()
                    &&& rotation < 8
                    &&& self.sprites@[sprite as int].frames@[frame as int] matches Some(fr) && *p
                        == fr.pictures@[if fr.rotate {
                        rotation as int
                    } else {
                        0
                    }]
                    &&& spec_sprite_picture_ok(*p, self.wad_snap@)
                },
                Err(e) => {
                    &&& e == WadError::UnknownSprite
                    &&& (sprite >= self.sprites@.len() || rotation >= 8 || frame
                        >= self.sprites@[sprite as int].frames@.len()
                        || self.sprites@[sprite as int].frames@[frame as int] is None)
                },
            },
    {
        if sprite >= self.sprites.len() || rotation > 7 {
            return Err(WadError::UnknownSprite);
        }
        let sp = &self.sprites[sprite];
        if frame as usize >= sp.frames.len() {
            return Err(WadError::UnknownSprite);
        }
        match &sp.frames[frame as usize] {
            Some(fr) => {
                let idx: usize = if fr.rotate {
                    rotation as usize
                } else {
                    0
                };
                Ok(&fr.pictures[idx])
            },
            None => Err(WadError::UnknownSprite),
        }
    }
}

} // verus!
