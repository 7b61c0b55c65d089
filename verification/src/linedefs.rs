use vstd::prelude::*;

use crate::bytes::{spec_i16_at, spec_upper_seq};
use crate::errors::WadError;
use crate::sidedefs::Sidedef;
use crate::vertexes::Vertex;
use crate::wad::{
    lemma_find_first_some, spec_find_first_from, spec_map_lump_index, MapLumpName, WadFile,
};

verus! {

/// The linedef flag bits.
pub struct Flags;

impl Flags {
    /// Solid, is an obstacle.
    pub const BLOCKING: i16 = 1;

    /// Blocks monsters only.
    pub const BLOCKMONSTERS: i16 = 2;

    /// Two sided: a back side is present.
    pub const TWOSIDED: i16 = 4;

    /// Upper texture is unpegged (anchored at the ceiling).
    pub const DONTPEGTOP: i16 = 8;

    /// Lower texture is unpegged (anchored at the floor).
    pub const DONTPEGBOTTOM: i16 = 16;

    /// Shown as one-sided on the map.
    pub const SECRET: i16 = 32;

    /// Sound does not cross two of these.
    pub const SOUNDBLOCK: i16 = 64;

    /// Never drawn on the map overlay.
    pub const DONTDRAW: i16 = 128;

    /// Already seen; drawn on the map overlay.
    pub const MAPPED: i16 = 256;
}

/// A directed map line with up to two sides.
pub struct Linedef {
    pub id: i16,
    /// Index of the start vertex.
    pub start_vertex: usize,
    /// Index of the end vertex.
    pub end_vertex: usize,
    pub flags: i16,
    pub special_type: i16,
    pub sector_tag: i16,
    /// Index of the front sidedef, if any.
    pub front_sidedef: Option<usize>,
    /// Index of the back sidedef, if any.
    pub back_sidedef: Option<usize>,
}

/// The linedef matches record `i` of the LINEDEFS lump at `off`; a stored
/// sidedef index of -1 means the side is absent.
pub open spec fn spec_linedef_matches(l: Linedef, b: Seq<u8>, off: int, i: int) -> bool {
    &&& l.id == i
    &&& l.start_vertex == spec_i16_at(b, off + 14 * i)
    &&& l.end_vertex == spec_i16_at(b, off + 14 * i + 2)
    &&& l.flags == spec_i16_at(b, off + 14 * i + 4)
    &&& l.special_type == spec_i16_at(b, off + 14 * i + 6)
    &&& l.sector_tag == spec_i16_at(b, off + 14 * i + 8)
    &&& l.front_sidedef == (if spec_i16_at(b, off + 14 * i + 10) == -1 {
        Option::<usize>::None
    } else {
        Some(spec_i16_at(b, off + 14 * i + 10) as usize)
    })
    &&& l.back_sidedef == (if spec_i16_at(b, off + 14 * i + 12) == -1 {
        Option::<usize>::None
    } else {
        Some(spec_i16_at(b, off + 14 * i + 12) as usize)
    })
}

/// All vertex and sidedef references of the linedef are in range.
pub open spec fn spec_linedef_in_range(l: Linedef, n_vertexes: int, n_sidedefs: int) -> bool {
    &&& l.start_vertex < n_vertexes
    &&& l.end_vertex < n_vertexes
    &&& (l.front_sidedef matches Some(s) ==> s < n_sidedefs)
    &&& (l.back_sidedef matches Some(s) ==> s < n_sidedefs)
}

/// Record `i`'s stored vertex indices land in the vertex table, and each
/// sidedef field is -1 or lands in the sidedef table.
pub open spec fn spec_linedef_record_ok(
    b: Seq<u8>,
    off: int,
    i: int,
    n_vertexes: int,
    n_sidedefs: int,
) -> bool {
    &&& 0 <= spec_i16_at(b, off + 14 * i) < n_vertexes
    &&& 0 <= spec_i16_at(b, off + 14 * i + 2) < n_vertexes
    &&& (spec_i16_at(b, off + 14 * i + 10) == -1 || 0 <= spec_i16_at(b, off + 14 * i + 10)
        < n_sidedefs)
    &&& (spec_i16_at(b, off + 14 * i + 12) == -1 || 0 <= spec_i16_at(b, off + 14 * i + 12)
        < n_sidedefs)
}

/// Load the LINEDEFS lump of a map: 14-byte records; every stored vertex
/// or sidedef index must exist, else the record is malformed. Succeeds
/// exactly when the lump exists, holds at most 32767 records, and every
/// record's references are in range.
pub fn load_linedefs(
    wad: &WadFile,
    vertexes: &Vec<Vertex>,
    sidedefs: &Vec<Sidedef>,
    map_name: &Vec<u8>,
) -> (r: Result<Vec<Linedef>, WadError>)
    requires
        wad.wf(),
    ensures
        r matches Err(e) ==> match spec_find_first_from(
            wad.dirs@,
            spec_upper_seq(map_name@),
            0,
        ) {
            None => e == WadError::MissingLump,
            Some(m) => e == WadError::MalformedRecord && (m + 2 >= wad.dirs@.len()
                || wad.dirs@[m + 2].size as int / 14 > 32767 || !(forall|i: int|
                0 <= i < wad.dirs@[m + 2].size as int / 14 ==> #[trigger] spec_linedef_record_ok(
                    wad.file@,
                    wad.dirs@[m + 2].offset as int,
                    i,
                    vertexes@.len() as int,
                    sidedefs@.len() as int,
                ))),
        },
        (spec_map_lump_index(wad.dirs@, spec_upper_seq(map_name@), 2) matches Some(d)
            && wad.dirs@[d].size as int / 14 <= 32767 && (forall|i: int|
            0 <= i < wad.dirs@[d].size as int / 14 ==> #[trigger] spec_linedef_record_ok(
                wad.file@,
                wad.dirs@[d].offset as int,
                i,
                vertexes@.len() as int,
                sidedefs@.len() as int,
            ))) ==> r is Ok,
        r matches Ok(ls) ==> {
            &&& spec_map_lump_index(wad.dirs@, spec_upper_seq(map_name@), 2) matches Some(d)
            &&& ls@.len() == wad.dirs@[d].size as int / 14
            &&& ls@.len() <= 32767
            &&& forall|i: int|
                0 <= i < ls@.len() ==> spec_linedef_matches(
                    #[trigger] ls@[i],
                    wad.file@,
                    wad.dirs@[d].offset as int,
                    i,
                )
            &&& forall|i: int|
                0 <= i < ls@.len() ==> spec_linedef_in_range(
                    #[trigger] ls@[i],
                    vertexes@.len() as int,
                    sidedefs@.len() as int,
                )
        },
{
    let entry = match wad.get_dir_entry_for_map_lump(map_name, MapLumpName::Linedefs) {
        Ok(e) => e,
        Err(e) => {
            return Err(e);
        },
    };
    proof {
        lemma_find_first_some(wad.dirs@, spec_upper_seq(map_name@), 0);
        let d = spec_map_lump_index(wad.dirs@, spec_upper_seq(map_name@), 2).unwrap();
        assert(wad.dirs@[d].matches(wad.file@, wad.header.dir_offset as int, d));
    }
    let off = entry.offset as usize;
    let count = (entry.size as usize) / 14;
    if count > 32767 {
        return Err(WadError::MalformedRecord);
    }
    let flen = wad.file.len();

    let mut results: Vec<Linedef> = Vec::new();
    let mut i: usize = 0;
    while i < count
        invariant
            wad.wf(),
            flen == wad.file@.len(),
            off + 14 * count <= flen,
            count <= 32767,
            spec_find_first_from(wad.dirs@, spec_upper_seq(map_name@), 0) is Some,
            ({
                let m = spec_find_first_from(wad.dirs@, spec_upper_seq(map_name@), 0).unwrap();
                m + 2 < wad.dirs@.len() && off == wad.dirs@[m + 2].offset && count == wad.dirs@[m
                    + 2].size as int / 14
            }),
            results@.len() == i,
            i <= count,
            forall|j: int|
                0 <= j < i ==> spec_linedef_matches(
                    #[trigger] results@[j],
                    wad.file@,
                    off as int,
                    j,
                ),
            forall|j: int|
                0 <= j < i ==> spec_linedef_in_range(
                    #[trigger] results@[j],
                    vertexes@.len() as int,
                    sidedefs@.len() as int,
                ),
        decreases count - i,
    {
        let base = off + 14 * i;
        let start_index = wad.read_i16(base);
        let end_index = wad.read_i16(base + 2);
        if start_index < 0 || start_index as usize >= vertexes.len() || end_index < 0
            || end_index as usize >= vertexes.len() {
            proof {
                let m = spec_find_first_from(wad.dirs@, spec_upper_seq(map_name@), 0).unwrap();
                assert(!spec_linedef_record_ok(
                    wad.file@,
                    wad.dirs@[m + 2].offset as int,
                    i as int,
                    vertexes@.len() as int,
                    sidedefs@.len() as int,
                ));
            }
            return Err(WadError::MalformedRecord);
        }
        let front_index = wad.read_i16(base + 10);
        let back_index = wad.read_i16(base + 12);
        let front_sidedef = if front_index == -1 {
            None
        } else {
            if front_index < 0 || front_index as usize >= sidedefs.len() {
                proof {
                    let m = spec_find_first_from(wad.dirs@, spec_upper_seq(map_name@), 0).unwrap();
                    assert(!spec_linedef_record_ok(
                        wad.file@,
                        wad.dirs@[m + 2].offset as int,
                        i as int,
                        vertexes@.len() as int,
                        sidedefs@.len() as int,
                    ));
                }
                return Err(WadError::MalformedRecord);
            }
            Some(front_index as usize)
        };
        let back_sidedef = if back_index == -1 {
            None
        } else {
            if back_index < 0 || back_index as usize >= sidedefs.len() {
                proof {
                    let m = spec_find_first_from(wad.dirs@, spec_upper_seq(map_name@), 0).unwrap();
                    assert(!spec_linedef_record_ok(
                        wad.file@,
                        wad.dirs@[m + 2].offset as int,
                        i as int,
                        vertexes@.len() as int,
                        sidedefs@.len() as int,
                    ));
                }
                return Err(WadError::MalformedRecord);
            }
            Some(back_index as usize)
        };
        results.push(Linedef {
            id: i as i16,
            start_vertex: start_index as usize,
            end_vertex: end_index as usize,
            flags: wad.read_i16(base + 4),
            special_type: wad.read_i16(base + 6),
            sector_tag: wad.read_i16(base + 8),
            front_sidedef,
            back_sidedef,
        });
        i = i + 1;
    }
    Ok(results)
}

} // verus!
