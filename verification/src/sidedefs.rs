use vstd::prelude::*;

use crate::bytes::{spec_i16_at, spec_name_at, spec_upper_seq};
use crate::errors::WadError;
use crate::sectors::Sector;
use crate::wad::{
    lemma_find_first_some, spec_find_first_from, spec_map_lump_index, MapLumpName, WadFile,
};

verus! {

/// One side of a linedef: texture names, offsets, and the faced sector.
pub struct Sidedef {
    pub id: i16,
    pub x_offset: i16,
    pub y_offset: i16,
    /// Canonical texture names; a single `-` means absent.
    pub upper_texture: Vec<u8>,
    pub lower_texture: Vec<u8>,
    pub middle_texture: Vec<u8>,
    /// Index of the faced sector.
    pub sector: usize,
}

/// The sidedef matches record `i` of the SIDEDEFS lump at `off`.
pub open spec fn spec_sidedef_matches(s: Sidedef, b: Seq<u8>, off: int, i: int) -> bool {
    &&& s.id == i
    &&& s.x_offset == spec_i16_at(b, off + 30 * i)
    &&& s.y_offset == spec_i16_at(b, off + 30 * i + 2)
    &&& s.upper_texture@ == spec_name_at(b, off + 30 * i + 4)
    &&& s.lower_texture@ == spec_name_at(b, off + 30 * i + 12)
    &&& s.middle_texture@ == spec_name_at(b, off + 30 * i + 20)
    &&& s.sector == spec_i16_at(b, off + 30 * i + 28)
}

/// Record `i`'s stored sector index lands in the sector table.
pub open spec fn spec_sidedef_record_ok(b: Seq<u8>, off: int, i: int, n_sectors: int) -> bool {
    0 <= spec_i16_at(b, off + 30 * i + 28) < n_sectors
}

/// Load the SIDEDEFS lump of a map: 30-byte records; the sector index must
/// exist, else the record is malformed. Succeeds exactly when the lump
/// exists, holds at most 32767 records, and every record's sector index
/// is in range.
pub fn load_sidedefs(wad: &WadFile, sectors: &Vec<Sector>, map_name: &Vec<u8>) -> (r: Result<
    Vec<Sidedef>,
    WadError,
>)
    requires
        wad.wf(),
    ensures
        r matches Err(e) ==> match spec_find_first_from(
            wad.dirs@,
            spec_upper_seq(map_name@),
            0,
        ) {
            None => e == WadError::MissingLump,
            Some(m) => e == WadError::MalformedRecord && (m + 3 >= wad.dirs@.len()
                || wad.dirs@[m + 3].size as int / 30 > 32767 || !(forall|i: int|
                0 <= i < wad.dirs@[m + 3].size as int / 30 ==> #[trigger] spec_sidedef_record_ok(
                    wad.file@,
                    wad.dirs@[m + 3].offset as int,
                    i,
                    sectors@.len() as int,
                ))),
        },
        (spec_map_lump_index(wad.dirs@, spec_upper_seq(map_name@), 3) matches Some(d)
            && wad.dirs@[d].size as int / 30 <= 32767 && (forall|i: int|
            0 <= i < wad.dirs@[d].size as int / 30 ==> #[trigger] spec_sidedef_record_ok(
                wad.file@,
                wad.dirs@[d].offset as int,
                i,
                sectors@.len() as int,
            ))) ==> r is Ok,
        r matches Ok(ss) ==> {
            &&& spec_map_lump_index(wad.dirs@, spec_upper_seq(map_name@), 3) matches Some(d)
            &&& ss@.len() == wad.dirs@[d].size as int / 30
            &&& ss@.len() <= 32767
            &&& forall|i: int|
                0 <= i < ss@.len() ==> spec_sidedef_matches(
                    #[trigger] ss@[i],
                    wad.file@,
                    wad.dirs@[d].offset as int,
                    i,
                )
            &&& forall|i: int| 0 <= i < ss@.len() ==> (#[trigger] ss@[i]).sector < sectors@.len()
        },
{
    let entry = match wad.get_dir_entry_for_map_lump(map_name, MapLumpName::Sidedefs) {
        Ok(e) => e,
        Err(e) => {
            return Err(e);
        },
    };
    proof {
        lemma_find_first_some(wad.dirs@, spec_upper_seq(map_name@), 0);
        let d = spec_map_lump_index(wad.dirs@, spec_upper_seq(map_name@), 3).unwrap();
        assert(wad.dirs@[d].matches(wad.file@, wad.header.dir_offset as int, d));
    }
    let off = entry.offset as usize;
    let count = (entry.size as usize) / 30;
    if count > 32767 {
        return Err(WadError::MalformedRecord);
    }
    let flen = wad.file.len();

    let mut results: Vec<Sidedef> = Vec::new();
    let mut i: usize = 0;
    while i < count
        invariant
            wad.wf(),
            flen == wad.file@.len(),
            off + 30 * count <= flen,
            count <= 32767,
            spec_find_first_from(wad.dirs@, spec_upper_seq(map_name@), 0) is Some,
            ({
                let m = spec_find_first_from(wad.dirs@, spec_upper_seq(map_name@), 0).unwrap();
                m + 3 < wad.dirs@.len() && off == wad.dirs@[m + 3].offset && count == wad.dirs@[m
                    + 3].size as int / 30
            }),
            results@.len() == i,
            i <= count,
            forall|j: int|
                0 <= j < i ==> spec_sidedef_matches(
                    #[trigger] results@[j],
                    wad.file@,
                    off as int,
                    j,
                ),
            forall|j: int| 0 <= j < i ==> (#[trigger] results@[j]).sector < sectors@.len(),
        decreases count - i,
    {
        let base = off + 30 * i;
        let sector_index = wad.read_i16(base + 28);
        if sector_index < 0 || sector_index as usize >= sectors.len() {
            proof {
                let m = spec_find_first_from(wad.dirs@, spec_upper_seq(map_name@), 0).unwrap();
                assert(!spec_sidedef_record_ok(
                    wad.file@,
                    wad.dirs@[m + 3].offset as int,
                    i as int,
                    sectors@.len() as int,
                ));
            }
            return Err(WadError::MalformedRecord);
        }
        results.push(Sidedef {
            id: i as i16,
            x_offset: wad.read_i16(base),
            y_offset: wad.read_i16(base + 2),
            upper_texture: wad.read_lump_name(base + 4),
            lower_texture: wad.read_lump_name(base + 12),
            middle_texture: wad.read_lump_name(base + 20),
            sector: sector_index as usize,
        });
        i = i + 1;
    }
    Ok(results)
}

} // verus!
