use vstd::prelude::*;

use crate::bytes::{spec_i16_at, spec_name_at, spec_upper_seq};
use crate::errors::WadError;
use crate::wad::{
    lemma_find_first_some, spec_find_first_from, spec_map_lump_index, MapLumpName, WadFile,
};

verus! {

/// A sector: a closed region with floor, ceiling and a mutable light level.
pub struct Sector {
    pub id: i16,
    pub floor_height: i16,
    pub ceiling_height: i16,
    /// Canonical floor flat name.
    pub floor_texture: Vec<u8>,
    /// Canonical ceiling flat name.
    pub ceiling_texture: Vec<u8>,
    /// 0 to 255; mutated at runtime by light thinkers.
    pub light_level: i16,
    pub special_type: i16,
    pub tag_number: i16,
}

/// The sector matches record `i` of the SECTORS lump at `off`, except for
/// the light level, which thinkers may have changed since loading.
pub open spec fn spec_sector_matches(s: Sector, b: Seq<u8>, off: int, i: int) -> bool {
    &&& s.id == i
    &&& s.floor_height == spec_i16_at(b, off + 26 * i)
    &&& s.ceiling_height == spec_i16_at(b, off + 26 * i + 2)
    &&& s.floor_texture@ == spec_name_at(b, off + 26 * i + 4)
    &&& s.ceiling_texture@ == spec_name_at(b, off + 26 * i + 12)
    &&& s.special_type == spec_i16_at(b, off + 26 * i + 22)
    &&& s.tag_number == spec_i16_at(b, off + 26 * i + 24)
}

/// Load the SECTORS lump of a map: 26-byte records. The light level of a
/// freshly loaded sector is the stored one. Succeeds exactly when the
/// map's sector lump exists and holds at most 32767 records; it fails
/// with `MissingLump` when the map marker is absent and with
/// `MalformedRecord` when the directory ends early or the lump overflows
/// the record cap.
pub fn load_sectors(wad: &WadFile, map_name: &Vec<u8>) -> (r: Result<Vec<Sector>, WadError>)
    requires
        wad.wf(),
    ensures
        r matches Err(e) ==> match spec_find_first_from(
            wad.dirs@,
            spec_upper_seq(map_name@),
            0,
        ) {
            None => e == WadError::MissingLump,
            Some(m) => e == WadError::MalformedRecord && (m + 8 >= wad.dirs@.len()
                || wad.dirs@[m + 8].size as int / 26 > 32767),
        },
        (spec_map_lump_index(wad.dirs@, spec_upper_seq(map_name@), 8) matches Some(d)
            && wad.dirs@[d].size as int / 26 <= 32767) ==> r is Ok,
        r matches Ok(ss) ==> {
            &&& spec_map_lump_index(wad.dirs@, spec_upper_seq(map_name@), 8) matches Some(d)
            &&& ss@.len() == wad.dirs@[d].size as int / 26
            &&& ss@.len() <= 32767
            &&& forall|i: int|
                0 <= i < ss@.len() ==> spec_sector_matches(
                    #[trigger] ss@[i],
                    wad.file@,
                    wad.dirs@[d].offset as int,
                    i,
                )
            &&& forall|i: int|
                0 <= i < ss@.len() ==> (#[trigger] ss@[i]).light_level == spec_i16_at(
                    wad.file@,
                    wad.dirs@[d].offset + 26 * i + 20,
                )
        },
{
    let entry = match wad.get_dir_entry_for_map_lump(map_name, MapLumpName::Sectors) {
        Ok(e) => e,
        Err(e) => {
            return Err(e);
        },
    };
    proof {
        lemma_find_first_some(wad.dirs@, spec_upper_seq(map_name@), 0);
        let d = spec_map_lump_index(wad.dirs@, spec_upper_seq(map_name@), 8).unwrap();
        assert(wad.dirs@[d].matches(wad.file@, wad.header.dir_offset as int, d));
    }
    let off = entry.offset as usize;
    let count = (entry.size as usize) / 26;
    if count > 32767 {
        return Err(WadError::MalformedRecord);
    }
    let flen = wad.file.len();

    let mut results: Vec<Sector> = Vec::new();
    let mut i: usize = 0;
    while i < count
        invariant
            wad.wf(),
            flen == wad.file@.len(),
            off + 26 * count <= flen,
            count <= 32767,
            results@.len() == i,
            i <= count,
            forall|j: int|
                0 <= j < i ==> spec_sector_matches(
                    #[trigger] results@[j],
                    wad.file@,
                    off as int,
                    j,
                ),
            forall|j: int|
                0 <= j < i ==> (#[trigger] results@[j]).light_level == spec_i16_at(
                    wad.file@,
                    off + 26 * j + 20,
                ),
        decreases count - i,
    {
        let base = off + 26 * i;
        results.push(Sector {
            id: i as i16,
            floor_height: wad.read_i16(base),
            ceiling_height: wad.read_i16(base + 2),
            floor_texture: wad.read_lump_name(base + 4),
            ceiling_texture: wad.read_lump_name(base + 12),
            light_level: wad.read_i16(base + 20),
            special_type: wad.read_i16(base + 22),
            tag_number: wad.read_i16(base + 24),
        });
        i = i + 1;
    }
    Ok(results)
}

} // verus!
