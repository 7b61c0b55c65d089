use vstd::prelude::*;

use crate::bytes::{spec_i16_at, spec_upper_seq};
use crate::errors::WadError;
use crate::segs::Seg;
use crate::wad::{
    lemma_find_first_some, spec_find_first_from, spec_map_lump_index, MapLumpName, WadFile,
};

verus! {

/// A convex BSP leaf: an ordered run of segs.
pub struct SubSector {
    /// Indices into the map's seg list, in lump order.
    pub segs: Vec<usize>,
}

/// The subsector matches record `i` of the SSECTORS lump at `off`: the
/// contiguous run of segs it names.
pub open spec fn spec_subsector_matches(s: SubSector, b: Seq<u8>, off: int, i: int) -> bool {
    &&& s.segs@.len() == spec_i16_at(b, off + 4 * i)
    &&& forall|k: int|
        0 <= k < s.segs@.len() ==> #[trigger] s.segs@[k] == spec_i16_at(b, off + 4 * i + 2) + k
}

/// Record `i` names a seg run that lies inside the seg table.
pub open spec fn spec_subsector_record_ok(b: Seq<u8>, off: int, i: int, n_segs: int) -> bool {
    &&& spec_i16_at(b, off + 4 * i) >= 0
    &&& spec_i16_at(b, off + 4 * i + 2) >= 0
    &&& spec_i16_at(b, off + 4 * i + 2) + spec_i16_at(b, off + 4 * i) <= n_segs
}

/// Load the SSECTORS lump of a map: 4-byte records of (seg count, first
/// seg); the named seg range must exist, else the record is malformed.
/// Succeeds exactly when the lump exists, holds at most 32767 records,
/// and every record's seg run is in range.
pub fn load_subsectors(wad: &WadFile, segs: &Vec<Seg>, map_name: &Vec<u8>) -> (r: Result<
    Vec<SubSector>,
    WadError,
>)
    requires
        wad.wf(),
    ensures
        r matches Err(e) ==> match spec_find_first_from(
            wad.dirs@,
            spec_upper_seq(map_name@),
            0,
        ) {
            None => e == WadError::MissingLump,
            Some(m) => e == WadError::MalformedRecord && (m + 6 >= wad.dirs@.len()
                || wad.dirs@[m + 6].size as int / 4 > 32767 || !(forall|i: int|
                0 <= i < wad.dirs@[m + 6].size as int / 4 ==> #[trigger] spec_subsector_record_ok(
                    wad.file@,
                    wad.dirs@[m + 6].offset as int,
                    i,
                    segs@.len() as int,
                ))),
        },
        (spec_map_lump_index(wad.dirs@, spec_upper_seq(map_name@), 6) matches Some(d)
            && wad.dirs@[d].size as int / 4 <= 32767 && (forall|i: int|
            0 <= i < wad.dirs@[d].size as int / 4 ==> #[trigger] spec_subsector_record_ok(
                wad.file@,
                wad.dirs@[d].offset as int,
                i,
                segs@.len() as int,
            ))) ==> r is Ok,
        r matches Ok(ss) ==> {
            &&& spec_map_lump_index(wad.dirs@, spec_upper_seq(map_name@), 6) matches Some(d)
            &&& ss@.len() == wad.dirs@[d].size as int / 4
            &&& ss@.len() <= 32767
            &&& forall|i: int|
                0 <= i < ss@.len() ==> spec_subsector_matches(
                    #[trigger] ss@[i],
                    wad.file@,
                    wad.dirs@[d].offset as int,
                    i,
                )
            &&& forall|i: int, k: int|
                0 <= i < ss@.len() && 0 <= k < ss@[i].segs@.len()
                    ==> #[trigger] ss@[i].segs@[k] < segs@.len()
        },
{
    let entry = match wad.get_dir_entry_for_map_lump(map_name, MapLumpName::Ssectors) {
        Ok(e) => e,
        Err(e) => {
            return Err(e);
        },
    };
    proof {
        lemma_find_first_some(wad.dirs@, spec_upper_seq(map_name@), 0);
        let d = spec_map_lump_index(wad.dirs@, spec_upper_seq(map_name@), 6).unwrap();
        assert(wad.dirs@[d].matches(wad.file@, wad.header.dir_offset as int, d));
    }
    let off = entry.offset as usize;
    let count = (entry.size as usize) / 4;
    if count > 32767 {
        return Err(WadError::MalformedRecord);
    }
    let flen = wad.file.len();

    let mut results: Vec<SubSector> = Vec::new();
    let mut i: usize = 0;
    while i < count
        invariant
            wad.wf(),
            flen == wad.file@.len(),
            off + 4 * count <= flen,
            count <= 32767,
            spec_find_first_from(wad.dirs@, spec_upper_seq(map_name@), 0) is Some,
            ({
                let m = spec_find_first_from(wad.dirs@, spec_upper_seq(map_name@), 0).unwrap();
                m + 6 < wad.dirs@.len() && off == wad.dirs@[m + 6].offset && count == wad.dirs@[m
                    + 6].size as int / 4
            }),
            results@.len() == i,
            i <= count,
            forall|j: int|
                0 <= j < i ==> spec_subsector_matches(
                    #[trigger] results@[j],
                    wad.file@,
                    off as int,
                    j,
                ),
            forall|j: int, k: int|
                0 <= j < i && 0 <= k < results@[j].segs@.len()
                    ==> #[trigger] results@[j].segs@[k] < segs@.len(),
        decreases count - i,
    {
        let base = off + 4 * i;
        let seg_count = wad.read_i16(base);
        let first_seg = wad.read_i16(base + 2);
        if seg_count < 0 || first_seg < 0 || (first_seg as usize) + (seg_count as usize)
            > segs.len() {
            proof {
                let m = spec_find_first_from(wad.dirs@, spec_upper_seq(map_name@), 0).unwrap();
                assert(!spec_subsector_record_ok(
                    wad.file@,
                    wad.dirs@[m + 6].offset as int,
                    i as int,
                    segs@.len() as int,
                ));
            }
            return Err(WadError::MalformedRecord);
        }
        let mut subsector_segs: Vec<usize> = Vec::new();
        let mut k: usize = 0;
        while k < seg_count as usize
            invariant
                0 <= first_seg,
                0 <= seg_count,
                first_seg + seg_count <= segs@.len(),
                subsector_segs@.len() == k,
                k <= seg_count,
                forall|m: int|
                    0 <= m < k ==> #[trigger] subsector_segs@[m] == first_seg + m,
            decreases seg_count - k,
        {
            subsector_segs.push(first_seg as usize + k);
            k = k + 1;
        }
        results.push(SubSector { segs: subsector_segs });
        i = i + 1;
    }
    Ok(results)
}

} // verus!
