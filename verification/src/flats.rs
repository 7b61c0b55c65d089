use vstd::prelude::*;

use crate::bytes::{bytes_eq, spec_upper_seq, upper_bytes};
use crate::errors::WadError;
use crate::wad::{lemma_find_last_some, spec_find_last, WadFile};

verus! {

/// Flats are square tiles of 64 by 64 palette bytes.
pub const FLAT_SIZE: usize = 64;

/// A floor or ceiling tile: a name and a 64x64 grid of palette indices.
pub struct Flat {
    /// Canonical lump name.
    pub name: Vec<u8>,
    /// Row-major: `pixels[y][x]`.
    pub pixels: Vec<Vec<u8>>,
}

/// The flat is the exact decode of the lump carrying its name: 4096 raw
/// bytes, row-major.
pub open spec fn spec_flat_matches(f: Flat, wad: WadFile) -> bool {
    match spec_find_last(wad.dirs@, f.name@) {
        Some(d) => {
            let off = wad.dirs@[d].offset as int;
            &&& wad.dirs@[d].size >= 4096
            &&& f.pixels@.len() == 64
            &&& forall|y: int| 0 <= y < 64 ==> (#[trigger] f.pixels@[y])@.len() == 64
            &&& forall|y: int, x: int|
                0 <= y < 64 && 0 <= x < 64 ==> #[trigger] f.pixels@[y]@[x] == wad.file@[off + 64
                    * y + x]
        },
        None => false,
    }
}

impl Flat {
    /// Decode a flat lump by name. Fails with `MissingLump` when the name
    /// is absent and with `MalformedRecord` when the lump holds fewer than
    /// 4096 bytes.
    pub fn new(wad: &WadFile, name: &Vec<u8>) -> (r: Result<Flat, WadError>)
        requires
            wad.wf(),
        ensures
            match r {
                Ok(f) => f.name@ == spec_upper_seq(name@) && spec_flat_matches(f, *wad),
                Err(e) => match spec_find_last(wad.dirs@, spec_upper_seq(name@)) {
                    Some(d) => e == WadError::MalformedRecord && wad.dirs@[d].size < 4096,
                    None => e == WadError::MissingLump,
                },
            },
    {
        let entry = match wad.get_dir_entry(name) {
            Ok(e) => e,
            Err(e) => {
                return Err(e);
            },
        };
        proof {
            lemma_find_last_some(wad.dirs@, spec_upper_seq(name@));
            let d = spec_find_last(wad.dirs@, spec_upper_seq(name@)).unwrap();
            assert(wad.dirs@[d].matches(wad.file@, wad.header.dir_offset as int, d));
        }
        if entry.size < 4096 {
            return Err(WadError::MalformedRecord);
        }
        let off = entry.offset as usize;
        let flen = wad.file.len();
        let lump_name = entry.name.clone();

        let mut pixels: Vec<Vec<u8>> = Vec::new();
        let mut y: usize = 0;
        while y < FLAT_SIZE
            invariant
                flen == wad.file@.len(),
                off + 4096 <= flen,
                pixels@.len() == y,
                y <= 64,
                forall|j: int| 0 <= j < y ==> (#[trigger] pixels@[j])@.len() == 64,
                forall|j: int, x: int|
                    0 <= j < y && 0 <= x < 64 ==> #[trigger] pixels@[j]@[x] == wad.file@[off + 64
                        * j + x],
            decreases 64 - y,
        {
            let mut row: Vec<u8> = Vec::new();
            let mut x: usize = 0;
            while x < FLAT_SIZE
                invariant
                    flen == wad.file@.len(),
                    off + 4096 <= flen,
                    y < 64,
                    row@.len() == x,
                    x <= 64,
                    forall|k: int|
                        0 <= k < x ==> #[trigger] row@[k] == wad.file@[off + 64 * y + k],
                decreases 64 - x,
            {
                row.push(wad.file[off + 64 * y + x]);
                x = x + 1;
            }
            pixels.push(row);
            y = y + 1;
        }
        Ok(Flat { name: lump_name, pixels })
    }
}

/// One cycle of animated flat names, in display order.
pub struct FlatCycle {
    pub names: Vec<Vec<u8>>,
}

/// The first cycle whose list contains `name`, if any.
pub open spec fn spec_cycle_of(cycles: Seq<FlatCycle>, name: Seq<u8>, lo: int) -> Option<int>
    decreases cycles.len() - lo,
{
    if lo < 0 || lo >= cycles.len() {
        None
    } else if exists|j: int| 0 <= j < cycles[lo].names@.len() && (#[trigger] cycles[lo].names@[j])@
        == name {
        Some(lo)
    } else {
        spec_cycle_of(cycles, name, lo + 1)
    }
}

/// The built-in animated flat cycles, each in display order.
pub open spec fn spec_flat_cycles() -> Seq<Seq<Seq<u8>>> {
    seq![
        seq![seq![78u8, 85u8, 75u8, 65u8, 71u8, 69u8, 49u8], seq![78u8, 85u8, 75u8, 65u8, 71u8, 69u8, 50u8], seq![78u8, 85u8, 75u8, 65u8, 71u8, 69u8, 51u8]],
        seq![seq![70u8, 87u8, 65u8, 84u8, 69u8, 82u8, 49u8], seq![70u8, 87u8, 65u8, 84u8, 69u8, 82u8, 50u8], seq![70u8, 87u8, 65u8, 84u8, 69u8, 82u8, 51u8], seq![70u8, 87u8, 65u8, 84u8, 69u8, 82u8, 52u8]],
        seq![seq![83u8, 87u8, 65u8, 84u8, 69u8, 82u8, 49u8], seq![83u8, 87u8, 65u8, 84u8, 69u8, 82u8, 50u8], seq![83u8, 87u8, 65u8, 84u8, 69u8, 82u8, 51u8], seq![83u8, 87u8, 65u8, 84u8, 69u8, 82u8, 52u8]],
        seq![seq![76u8, 65u8, 86u8, 65u8, 49u8], seq![76u8, 65u8, 86u8, 65u8, 50u8], seq![76u8, 65u8, 86u8, 65u8, 51u8], seq![76u8, 65u8, 86u8, 65u8, 52u8]],
        seq![seq![66u8, 76u8, 79u8, 79u8, 68u8, 49u8], seq![66u8, 76u8, 79u8, 79u8, 68u8, 50u8], seq![66u8, 76u8, 79u8, 79u8, 68u8, 51u8]],
        seq![seq![82u8, 82u8, 79u8, 67u8, 75u8, 48u8, 53u8], seq![82u8, 82u8, 79u8, 67u8, 75u8, 48u8, 54u8], seq![82u8, 82u8, 79u8, 67u8, 75u8, 48u8, 55u8], seq![82u8, 82u8, 79u8, 67u8, 75u8, 48u8, 56u8]],
        seq![seq![83u8, 76u8, 73u8, 77u8, 69u8, 48u8, 49u8], seq![83u8, 76u8, 73u8, 77u8, 69u8, 48u8, 50u8], seq![83u8, 76u8, 73u8, 77u8, 69u8, 48u8, 51u8], seq![83u8, 76u8, 73u8, 77u8, 69u8, 48u8, 52u8]],
        seq![seq![83u8, 76u8, 73u8, 77u8, 69u8, 48u8, 53u8], seq![83u8, 76u8, 73u8, 77u8, 69u8, 48u8, 54u8], seq![83u8, 76u8, 73u8, 77u8, 69u8, 48u8, 55u8], seq![83u8, 76u8, 73u8, 77u8, 69u8, 48u8, 56u8]],
        seq![seq![83u8, 76u8, 73u8, 77u8, 69u8, 48u8, 57u8], seq![83u8, 76u8, 73u8, 77u8, 69u8, 49u8, 48u8], seq![83u8, 76u8, 73u8, 77u8, 69u8, 49u8, 49u8], seq![83u8, 76u8, 73u8, 77u8, 69u8, 49u8, 50u8]],
    ]
}

/// The name lists a cycle table holds.
pub open spec fn spec_cycle_names(cycles: Seq<FlatCycle>) -> Seq<Seq<Seq<u8>>> {
    cycles.map_values(|c: FlatCycle| c.names@.map_values(|n: Vec<u8>| n@))
}

/// The built-in table of animated flat cycles.
fn animated_flat_cycles() -> (r: Vec<FlatCycle>)
    ensures
        spec_cycle_names(r@) == spec_flat_cycles(),
        forall|c: int| 0 <= c < r@.len() ==> (#[trigger] r@[c]).names@.len() >= 3,
{
    let mut cycles: Vec<FlatCycle> = Vec::new();
    cycles.push(FlatCycle {
        names: vec![
            vec![78, 85, 75, 65, 71, 69, 49],
            vec![78, 85, 75, 65, 71, 69, 50],
            vec![78, 85, 75, 65, 71, 69, 51],
        ],
    });
    cycles.push(FlatCycle {
        names: vec![
            vec![70, 87, 65, 84, 69, 82, 49],
            vec![70, 87, 65, 84, 69, 82, 50],
            vec![70, 87, 65, 84, 69, 82, 51],
            vec![70, 87, 65, 84, 69, 82, 52],
        ],
    });
    cycles.push(FlatCycle {
        names: vec![
            vec![83, 87, 65, 84, 69, 82, 49],
            vec![83, 87, 65, 84, 69, 82, 50],
            vec![83, 87, 65, 84, 69, 82, 51],
            vec![83, 87, 65, 84, 69, 82, 52],
        ],
    });
    cycles.push(FlatCycle {
        names: vec![
            vec![76, 65, 86, 65, 49],
            vec![76, 65, 86, 65, 50],
            vec![76, 65, 86, 65, 51],
            vec![76, 65, 86, 65, 52],
        ],
    });
    cycles.push(FlatCycle {
        names: vec![
            vec![66, 76, 79, 79, 68, 49],
            vec![66, 76, 79, 79, 68, 50],
            vec![66, 76, 79, 79, 68, 51],
        ],
    });
    cycles.push(FlatCycle {
        names: vec![
            vec![82, 82, 79, 67, 75, 48, 53],
            vec![82, 82, 79, 67, 75, 48, 54],
            vec![82, 82, 79, 67, 75, 48, 55],
            vec![82, 82, 79, 67, 75, 48, 56],
        ],
    });
    cycles.push(FlatCycle {
        names: vec![
            vec![83, 76, 73, 77, 69, 48, 49],
            vec![83, 76, 73, 77, 69, 48, 50],
            vec![83, 76, 73, 77, 69, 48, 51],
            vec![83, 76, 73, 77, 69, 48, 52],
        ],
    });
    cycles.push(FlatCycle {
        names: vec![
            vec![83, 76, 73, 77, 69, 48, 53],
            vec![83, 76, 73, 77, 69, 48, 54],
            vec![83, 76, 73, 77, 69, 48, 55],
            vec![83, 76, 73, 77, 69, 48, 56],
        ],
    });
    cycles.push(FlatCycle {
        names: vec![
            vec![83, 76, 73, 77, 69, 48, 57],
            vec![83, 76, 73, 77, 69, 49, 48],
            vec![83, 76, 73, 77, 69, 49, 49],
            vec![83, 76, 73, 77, 69, 49, 50],
        ],
    });
    proof {
        assert(spec_cycle_names(cycles@) =~~= spec_flat_cycles());
    }
    cycles
}

/// The animation phase at a timestamp, cycling three times a second.
pub fn animation_phase(millis: u64) -> (r: usize)
    ensures
        r == (millis as int % 1000) * 3 / 1000,
        r <= 2,
{
    (((millis % 1000) * 3) / 1000) as usize
}

/// A lazy store of decoded flats, bound to one WAD file.
pub struct Flats {
    /// Decoded flats, in load order.
    pub entries: Vec<Flat>,
    /// The built-in animation cycles.
    pub animated: Vec<FlatCycle>,
    /// The WAD file this store decodes from.
    pub wad_snap: Ghost<WadFile>,
}

impl Flats {
    /// Every cached flat is the decode of its name from the bound WAD.
    pub open spec fn wf(self) -> bool {
        &&& self.wad_snap@.wf()
        &&& forall|i: int|
            0 <= i < self.entries@.len() ==> spec_flat_matches(
                #[trigger] self.entries@[i],
                self.wad_snap@,
            )
        &&& forall|c: int|
            0 <= c < self.animated@.len() ==> (#[trigger] self.animated@[c]).names@.len() >= 3
    }

    /// An empty store bound to `wad`.
    pub fn new(wad: &WadFile) -> (r: Flats)
        requires
            wad.wf(),
        ensures
            r.wf(),
            r.wad_snap@ == *wad,
            r.entries@.len() == 0,
            spec_cycle_names(r.animated@) == spec_flat_cycles(),
    {
        Flats { entries: Vec::new(), animated: animated_flat_cycles(), wad_snap: Ghost(*wad) }
    }

    /// Fetch a flat by name, decoding and caching it on first request.
    /// Returns the index of the flat in the store; the cache only grows,
    /// and a cached name is served without touching the WAD. Succeeds
    /// exactly when the name is cached or its lump exists with at least
    /// 4096 bytes.
    pub fn get(&mut self, wad: &WadFile, name: &Vec<u8>) -> (r: Result<usize, WadError>)
        requires
            old(self).wf(),
            *wad == old(self).wad_snap@,
        ensures
            final(self).wf(),
            final(self).wad_snap@ == old(self).wad_snap@,
            final(self).animated@ == old(self).animated@,
            old(self).entries@.len() <= final(self).entries@.len(),
            forall|j: int|
                0 <= j < old(self).entries@.len() ==> #[trigger] final(self).entries@[j] == old(
                    self,
                ).entries@[j],
            match r {
                Ok(i) => {
                    &&& i < final(self).entries@.len()
                    &&& final(self).entries@[i as int].name@ == spec_upper_seq(name@)
                    &&& spec_flat_matches(final(self).entries@[i as int], *wad)
                },
                Err(e) => final(self).entries@ == old(self).entries@ && (match spec_find_last(
                    wad.dirs@,
                    spec_upper_seq(name@),
                ) {
                    Some(d) => e == WadError::MalformedRecord && wad.dirs@[d].size < 4096,
                    None => e == WadError::MissingLump,
                }),
            },
            ((exists|j: int|
                0 <= j < old(self).entries@.len() && (#[trigger] old(self).entries@[j]).name@
                    == spec_upper_seq(name@)) || (spec_find_last(
                wad.dirs@,
                spec_upper_seq(name@),
            ) matches Some(d) && wad.dirs@[d].size >= 4096)) ==> r is Ok,
    {
        let canonical = upper_bytes(name);
        let mut i: usize = 0;
        while i < self.entries.len()
            invariant
                *self == *old(self),
                old(self).wf(),
                *wad == old(self).wad_snap@,
                i <= self.entries@.len(),
                canonical@ == spec_upper_seq(name@),
                forall|k: int|
                    0 <= k < i ==> (#[trigger] self.entries@[k]).name@ != canonical@,
            decreases self.entries@.len() - i,
        {
            if bytes_eq(&self.entries[i].name, &canonical) {
                return Ok(i);
            }
            i = i + 1;
        }
        let flat = match Flat::new(wad, name) {
            Ok(f) => f,
            Err(e) => {
                return Err(e);
            },
        };
        self.entries.push(flat);
        Ok(self.entries.len() - 1)
    }

    /// Access a cached flat.
    pub fn flat(&self, index: usize) -> (r: &Flat)
        requires
            index < self.entries@.len(),
        ensures
            *r == self.entries@[index as int],
    {
        &self.entries[index]
    }

    /// Fetch a flat that may be animated: a name in an animation cycle
    /// resolves to the cycle's frame at the given timestamp, three frames a
    /// second; any other name resolves to itself.
    pub fn get_animated(&mut self, wad: &WadFile, name: &Vec<u8>, millis: u64) -> (r: Result<
        usize,
        WadError,
    >)
        requires
            old(self).wf(),
            *wad == old(self).wad_snap@,
        ensures
            final(self).wf(),
            final(self).wad_snap@ == old(self).wad_snap@,
            final(self).animated@ == old(self).animated@,
            old(self).entries@.len() <= final(self).entries@.len(),
            forall|j: int|
                0 <= j < old(self).entries@.len() ==> #[trigger] final(self).entries@[j] == old(
                    self,
                ).entries@[j],
            r matches Ok(i) ==> {
                &&& i < final(self).entries@.len()
                &&& spec_flat_matches(final(self).entries@[i as int], *wad)
                &&& final(self).entries@[i as int].name@ == spec_upper_seq(
                    match spec_cycle_of(old(self).animated@, spec_upper_seq(name@), 0) {
                        Some(c) => old(self).animated@[c].names@[(millis as int % 1000) * 3
                            / 1000]@,
                        None => name@,
                    },
                )
            },
            r matches Err(e) ==> final(self).entries@ == old(self).entries@ && ({
                let resolved = spec_upper_seq(
                    match spec_cycle_of(old(self).animated@, spec_upper_seq(name@), 0) {
                        Some(c) => old(self).animated@[c].names@[(millis as int % 1000) * 3
                            / 1000]@,
                        None => name@,
                    },
                );
                match spec_find_last(wad.dirs@, resolved) {
                    Some(d) => e == WadError::MalformedRecord && wad.dirs@[d].size < 4096,
                    None => e == WadError::MissingLump,
                }
            }),
            ({
                let resolved = spec_upper_seq(
                    match spec_cycle_of(old(self).animated@, spec_upper_seq(name@), 0) {
                        Some(c) => old(self).animated@[c].names@[(millis as int % 1000) * 3
                            / 1000]@,
                        None => name@,
                    },
                );
                (exists|j: int|
                    0 <= j < old(self).entries@.len() && (#[trigger] old(self).entries@[j]).name@
                        == resolved) || (spec_find_last(wad.dirs@, resolved) matches Some(d)
                    && wad.dirs@[d].size >= 4096)
            }) ==> r is Ok,
    {
        let canonical = upper_bytes(name);
        let mut c: usize = 0;
        while c < self.animated.len()
            invariant
                old(self).wf(),
                *self == *old(self),
                *wad == old(self).wad_snap@,
                canonical@ == spec_upper_seq(name@),
                c <= self.animated@.len(),
                spec_cycle_of(self.animated@, canonical@, 0) == spec_cycle_of(
                    self.animated@,
                    canonical@,
                    c as int,
                ),
            decreases self.animated@.len() - c,
        {
            let cycle_len = self.animated[c].names.len();
            let mut j: usize = 0;
            while j < cycle_len
                invariant
                    old(self).wf(),
                    *self == *old(self),
                    *wad == old(self).wad_snap@,
                    c < self.animated@.len(),
                    cycle_len == self.animated@[c as int].names@.len(),
                    canonical@ == spec_upper_seq(name@),
                    spec_cycle_of(self.animated@, canonical@, 0) == spec_cycle_of(
                        self.animated@,
                        canonical@,
                        c as int,
                    ),
                    j <= cycle_len,
                    forall|k: int|
                        0 <= k < j ==> (#[trigger] self.animated@[c as int].names@[k])@
                            != canonical@,
                decreases cycle_len - j,
            {
                if bytes_eq(&self.animated[c].names[j], &canonical) {
                    let phase = animation_phase(millis);
                    let frame_name = self.animated[c].names[phase].clone();
                    proof {
                        assert(0 <= j < self.animated@[c as int].names@.len()
                            && (#[trigger] self.animated@[c as int].names@[j as int])@
                            == canonical@);
                        assert(spec_cycle_of(self.animated@, canonical@, c as int) == Some(
                            c as int,
                        ));
                        crate::bytes::lemma_upper_idempotent(frame_name@);
                    }
                    return self.get(wad, &frame_name);
                }
                j = j + 1;
            }
            c = c + 1;
        }
        proof {
            crate::bytes::lemma_upper_idempotent(name@);
        }
        self.get(wad, &canonical)
    }
}



} // verus!
