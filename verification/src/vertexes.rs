use vstd::prelude::*;

use crate::bytes::{spec_i16_at, spec_upper_seq};
use crate::errors::WadError;
use crate::wad::{
    lemma_find_first_some, spec_find_first_from, spec_map_lump_index, MapLumpName, WadFile,
};

verus! {

/// A map vertex, in map units.
#[derive(Clone, Copy, Debug, PartialEq, Eq, Structural)]
pub struct Vertex {
    pub x: i16,
    pub y: i16,
}

impl Vertex {
    pub fn new(x: i16, y: i16) -> (r: Vertex)
        ensures
            r.x == x && r.y == y,
    {
        Vertex { x, y }
    }
}

/// The vertex matches record `i` of the VERTEXES lump at `off`.
pub open spec fn spec_vertex_matches(v: Vertex, b: Seq<u8>, off: int, i: int) -> bool {
    &&& v.x == spec_i16_at(b, off + 4 * i)
    &&& v.y == spec_i16_at(b, off + 4 * i + 2)
}

/// Load the VERTEXES lump of a map: 4-byte records of two i16 coordinates.
/// Succeeds exactly when the map's vertex lump exists; it fails with
/// `MissingLump` when the map marker is absent and with `MalformedRecord`
/// when the directory ends before the lump.
pub fn load_vertexes(wad: &WadFile, map_name: &Vec<u8>) -> (r: Result<Vec<Vertex>, WadError>)
    requires
        wad.wf(),
    ensures
        r matches Ok(vs) ==> {
            &&& spec_map_lump_index(wad.dirs@, spec_upper_seq(map_name@), 4) matches Some(d)
            &&& vs@.len() == wad.dirs@[d].size as int / 4
            &&& forall|i: int|
                0 <= i < vs@.len() ==> spec_vertex_matches(
                    #[trigger] vs@[i],
                    wad.file@,
                    wad.dirs@[d].offset as int,
                    i,
                )
        },
        r matches Err(e) ==> match spec_find_first_from(
            wad.dirs@,
            spec_upper_seq(map_name@),
            0,
        ) {
            None => e == WadError::MissingLump,
            Some(m) => e == WadError::MalformedRecord && m + 4 >= wad.dirs@.len(),
        },
        spec_map_lump_index(wad.dirs@, spec_upper_seq(map_name@), 4) is Some ==> r is Ok,
{
    let entry = match wad.get_dir_entry_for_map_lump(map_name, MapLumpName::Vertexes) {
        Ok(e) => e,
        Err(e) => {
            return Err(e);
        },
    };
    proof {
        lemma_find_first_some(wad.dirs@, spec_upper_seq(map_name@), 0);
        let d = spec_map_lump_index(wad.dirs@, spec_upper_seq(map_name@), 4).unwrap();
        assert(wad.dirs@[d].matches(wad.file@, wad.header.dir_offset as int, d));
    }
    let off = entry.offset as usize;
    let count = (entry.size as usize) / 4;
    let flen = wad.file.len();

    let mut results: Vec<Vertex> = Vec::new();
    let mut i: usize = 0;
    while i < count
        invariant
            wad.wf(),
            flen == wad.file@.len(),
            off + 4 * count <= flen,
            results@.len() == i,
            i <= count,
            forall|j: int|
                0 <= j < i ==> spec_vertex_matches(
                    #[trigger] results@[j],
                    wad.file@,
                    off as int,
                    j,
                ),
        decreases count - i,
    {
        let base = off + 4 * i;
        results.push(Vertex { x: wad.read_i16(base), y: wad.read_i16(base + 2) });
        i = i + 1;
    }
    Ok(results)
}

} // verus!
