use vstd::prelude::*;

use crate::bytes::{spec_i16_at, spec_upper_seq};
use crate::errors::WadError;
use crate::linedefs::Linedef;
use crate::vertexes::Vertex;
use crate::wad::{
    lemma_find_first_some, spec_find_first_from, spec_map_lump_index, MapLumpName, WadFile,
};

verus! {

/// A wall segment: a portion of a linedef produced by the BSP builder.
pub struct Seg {
    pub id: i16,
    /// Index of the start vertex.
    pub start_vertex: usize,
    /// Index of the end vertex.
    pub end_vertex: usize,
    /// Angle; a full circle spans the whole i16 range.
    pub angle: i16,
    /// Index of the corresponding linedef.
    pub linedef: usize,
    /// False: same direction as the linedef; true: opposite.
    pub direction: bool,
    /// Distance along the linedef to the start of the seg.
    pub offset: i16,
}

/// The seg matches record `i` of the SEGS lump at `off`.
pub open spec fn spec_seg_matches(s: Seg, b: Seq<u8>, off: int, i: int) -> bool {
    &&& s.id == i
    &&& s.start_vertex == spec_i16_at(b, off + 12 * i)
    &&& s.end_vertex == spec_i16_at(b, off + 12 * i + 2)
    &&& s.angle == spec_i16_at(b, off + 12 * i + 4)
    &&& s.linedef == spec_i16_at(b, off + 12 * i + 6)
    &&& s.direction == (spec_i16_at(b, off + 12 * i + 8) != 0)
    &&& s.offset == spec_i16_at(b, off + 12 * i + 10)
}

/// Record `i`'s stored vertex and linedef indices land in their tables.
pub open spec fn spec_seg_record_ok(
    b: Seq<u8>,
    off: int,
    i: int,
    n_vertexes: int,
    n_linedefs: int,
) -> bool {
    &&& 0 <= spec_i16_at(b, off + 12 * i) < n_vertexes
    &&& 0 <= spec_i16_at(b, off + 12 * i + 2) < n_vertexes
    &&& 0 <= spec_i16_at(b, off + 12 * i + 6) < n_linedefs
}

/// Load the SEGS lump of a map: 12-byte records; vertex and linedef
/// references must exist, else the record is malformed. Succeeds exactly
/// when the lump exists, holds at most 32767 records, and every record's
/// references are in range.
pub fn load_segs(
    wad: &WadFile,
    vertexes: &Vec<Vertex>,
    linedefs: &Vec<Linedef>,
    map_name: &Vec<u8>,
) -> (r: Result<Vec<Seg>, WadError>)
    requires
        wad.wf(),
    ensures
        r matches Err(e) ==> match spec_find_first_from(
            wad.dirs@,
            spec_upper_seq(map_name@),
            0,
        ) {
            None => e == WadError::MissingLump,
            Some(m) => e == WadError::MalformedRecord && (m + 5 >= wad.dirs@.len()
                || wad.dirs@[m + 5].size as int / 12 > 32767 || !(forall|i: int|
                0 <= i < wad.dirs@[m + 5].size as int / 12 ==> #[trigger] spec_seg_record_ok(
                    wad.file@,
                    wad.dirs@[m + 5].offset as int,
                    i,
                    vertexes@.len() as int,
                    linedefs@.len() as int,
                ))),
        },
        (spec_map_lump_index(wad.dirs@, spec_upper_seq(map_name@), 5) matches Some(d)
            && wad.dirs@[d].size as int / 12 <= 32767 && (forall|i: int|
            0 <= i < wad.dirs@[d].size as int / 12 ==> #[trigger] spec_seg_record_ok(
                wad.file@,
                wad.dirs@[d].offset as int,
                i,
                vertexes@.len() as int,
                linedefs@.len() as int,
            ))) ==> r is Ok,
        r matches Ok(ss) ==> {
            &&& spec_map_lump_index(wad.dirs@, spec_upper_seq(map_name@), 5) matches Some(d)
            &&& ss@.len() == wad.dirs@[d].size as int / 12
            &&& ss@.len() <= 32767
            &&& forall|i: int|
                0 <= i < ss@.len() ==> spec_seg_matches(
                    #[trigger] ss@[i],
                    wad.file@,
                    wad.dirs@[d].offset as int,
                    i,
                )
            &&& forall|i: int|
                0 <= i < ss@.len() ==> (#[trigger] ss@[i]).start_vertex < vertexes@.len()
                    && ss@[i].end_vertex < vertexes@.len() && ss@[i].linedef < linedefs@.len()
        },
{
    let entry = match wad.get_dir_entry_for_map_lump(map_name, MapLumpName::Segs) {
        Ok(e) => e,
        Err(e) => {
            return Err(e);
        },
    };
    proof {
        lemma_find_first_some(wad.dirs@, spec_upper_seq(map_name@), 0);
        let d = spec_map_lump_index(wad.dirs@, spec_upper_seq(map_name@), 5).unwrap();
        assert(wad.dirs@[d].matches(wad.file@, wad.header.dir_offset as int, d));
    }
    let off = entry.offset as usize;
    let count = (entry.size as usize) / 12;
    if count > 32767 {
        return Err(WadError::MalformedRecord);
    }
    let flen = wad.file.len();

    let mut results: Vec<Seg> = Vec::new();
    let mut i: usize = 0;
    while i < count
        invariant
            wad.wf(),
            flen == wad.file@.len(),
            off + 12 * count <= flen,
            count <= 32767,
            spec_find_first_from(wad.dirs@, spec_upper_seq(map_name@), 0) is Some,
            ({
                let m = spec_find_first_from(wad.dirs@, spec_upper_seq(map_name@), 0).unwrap();
                m + 5 < wad.dirs@.len() && off == wad.dirs@[m + 5].offset && count == wad.dirs@[m
                    + 5].size as int / 12
            }),
            results@.len() == i,
            i <= count,
            forall|j: int|
                0 <= j < i ==> spec_seg_matches(#[trigger] results@[j], wad.file@, off as int, j),
            forall|j: int|
                0 <= j < i ==> (#[trigger] results@[j]).start_vertex < vertexes@.len()
                    && results@[j].end_vertex < vertexes@.len() && results@[j].linedef
                    < linedefs@.len(),
        decreases count - i,
    {
        let base = off + 12 * i;
        let start_index = wad.read_i16(base);
        let end_index = wad.read_i16(base + 2);
        let linedef_index = wad.read_i16(base + 6);
        if start_index < 0 || start_index as usize >= vertexes.len() || end_index < 0
            || end_index as usize >= vertexes.len() || linedef_index < 0 || linedef_index as usize
            >= linedefs.len() {
            proof {
                let m = spec_find_first_from(wad.dirs@, spec_upper_seq(map_name@), 0).unwrap();
                assert(!spec_seg_record_ok(
                    wad.file@,
                    wad.dirs@[m + 5].offset as int,
                    i as int,
                    vertexes@.len() as int,
                    linedefs@.len() as int,
                ));
            }
            return Err(WadError::MalformedRecord);
        }
        results.push(Seg {
            id: i as i16,
            start_vertex: start_index as usize,
            end_vertex: end_index as usize,
            angle: wad.read_i16(base + 4),
            linedef: linedef_index as usize,
            direction: wad.read_i16(base + 8) != 0,
            offset: wad.read_i16(base + 10),
        });
        i = i + 1;
    }
    Ok(results)
}

} // verus!
