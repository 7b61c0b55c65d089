use vstd::prelude::*;

use crate::bytes::{spec_i16_at, spec_upper_seq};
use crate::errors::WadError;
use crate::wad::{
    lemma_find_first_some, spec_find_first_from, spec_map_lump_index, MapLumpName, WadFile,
};

verus! {

/// The thing type codes with fixed meaning for spawning.
#[derive(Clone, Copy, Debug, PartialEq, Eq, Structural)]
pub enum ThingTypes {
    Player1Start,
    Player2Start,
    Player3Start,
    Player4Start,
    DeathMatchStart,
}

impl ThingTypes {
    /// The type code this variant stands for.
    pub open spec fn spec_code(self) -> int {
        match self {
            ThingTypes::Player1Start => 1,
            ThingTypes::Player2Start => 2,
            ThingTypes::Player3Start => 3,
            ThingTypes::Player4Start => 4,
            ThingTypes::DeathMatchStart => 11,
        }
    }

    /// The type code this variant stands for.
    pub fn code(self) -> (r: i16)
        ensures
            r == self.spec_code(),
    {
        match self {
            ThingTypes::Player1Start => 1,
            ThingTypes::Player2Start => 2,
            ThingTypes::Player3Start => 3,
            ThingTypes::Player4Start => 4,
            ThingTypes::DeathMatchStart => 11,
        }
    }
}

/// A spawn record: position, facing in degrees (east is 0), type and flags.
#[derive(Clone, Copy, Debug, PartialEq, Eq, Structural)]
pub struct Thing {
    pub x: i16,
    pub y: i16,
    /// Facing angle in degrees; east is 0.
    pub angle_degrees: i16,
    pub thing_type: i16,
    pub flags: i16,
}

/// The thing matches record `i` of the THINGS lump at `off`.
pub open spec fn spec_thing_matches(t: Thing, b: Seq<u8>, off: int, i: int) -> bool {
    &&& t.x == spec_i16_at(b, off + 10 * i)
    &&& t.y == spec_i16_at(b, off + 10 * i + 2)
    &&& t.angle_degrees == spec_i16_at(b, off + 10 * i + 4)
    &&& t.thing_type == spec_i16_at(b, off + 10 * i + 6)
    &&& t.flags == spec_i16_at(b, off + 10 * i + 8)
}

/// Load the THINGS lump of a map: 10-byte records of five i16 fields.
/// Succeeds exactly when the map's thing lump exists; it fails with
/// `MissingLump` when the map marker is absent and with `MalformedRecord`
/// when the directory ends before the lump.
pub fn load_things(wad: &WadFile, map_name: &Vec<u8>) -> (r: Result<Vec<Thing>, WadError>)
    requires
        wad.wf(),
    ensures
        r matches Ok(ts) ==> {
            &&& spec_map_lump_index(wad.dirs@, spec_upper_seq(map_name@), 1) matches Some(d)
            &&& ts@.len() == wad.dirs@[d].size as int / 10
            &&& forall|i: int|
                0 <= i < ts@.len() ==> spec_thing_matches(
                    #[trigger] ts@[i],
                    wad.file@,
                    wad.dirs@[d].offset as int,
                    i,
                )
        },
        r matches Err(e) ==> match spec_find_first_from(
            wad.dirs@,
            spec_upper_seq(map_name@),
            0,
        ) {
            None => e == WadError::MissingLump,
            Some(m) => e == WadError::MalformedRecord && m + 1 >= wad.dirs@.len(),
        },
        spec_map_lump_index(wad.dirs@, spec_upper_seq(map_name@), 1) is Some ==> r is Ok,
{
    let entry = match wad.get_dir_entry_for_map_lump(map_name, MapLumpName::Things) {
        Ok(e) => e,
        Err(e) => {
            return Err(e);
        },
    };
    proof {
        lemma_find_first_some(wad.dirs@, spec_upper_seq(map_name@), 0);
        let d = spec_map_lump_index(wad.dirs@, spec_upper_seq(map_name@), 1).unwrap();
        assert(wad.dirs@[d].matches(wad.file@, wad.header.dir_offset as int, d));
    }
    let off = entry.offset as usize;
    let count = (entry.size as usize) / 10;
    let flen = wad.file.len();

    let mut results: Vec<Thing> = Vec::new();
    let mut i: usize = 0;
    while i < count
        invariant
            wad.wf(),
            flen == wad.file@.len(),
            off + 10 * count <= flen,
            results@.len() == i,
            i <= count,
            forall|j: int|
                0 <= j < i ==> spec_thing_matches(#[trigger] results@[j], wad.file@, off as int, j),
        decreases count - i,
    {
        let base = off + 10 * i;
        results.push(Thing {
            x: wad.read_i16(base),
            y: wad.read_i16(base + 2),
            angle_degrees: wad.read_i16(base + 4),
            thing_type: wad.read_i16(base + 6),
            flags: wad.read_i16(base + 8),
        });
        i = i + 1;
    }
    Ok(results)
}

/// The index of the first thing with the given type code, if any.
pub open spec fn spec_find_thing(things: Seq<Thing>, code: int, lo: int) -> Option<int>
    decreases things.len() - lo,
{
    if lo < 0 || lo >= things.len() {
        None
    } else if things[lo].thing_type == code {
        Some(lo)
    } else {
        spec_find_thing(things, code, lo + 1)
    }
}

/// Find the first thing of a fixed type, such as the player 1 start.
pub fn get_thing_by_type(things: &Vec<Thing>, thing_type: ThingTypes) -> (r: Option<Thing>)
    ensures
        match r {
            Some(t) => {
                &&& spec_find_thing(things@, thing_type.spec_code(), 0) matches Some(i)
                &&& t == things@[i]
                &&& t.thing_type == thing_type.spec_code()
            },
            None => spec_find_thing(things@, thing_type.spec_code(), 0) is None,
        },
{
    let code = thing_type.code();
    let mut i: usize = 0;
    while i < things.len()
        invariant
            i <= things@.len(),
            code == thing_type.spec_code(),
            spec_find_thing(things@, code as int, 0) == spec_find_thing(
                things@,
                code as int,
                i as int,
            ),
        decreases things@.len() - i,
    {
        if things[i].thing_type == code {
            return Some(things[i]);
        }
        i = i + 1;
    }
    None
}

} // verus!
