use vstd::prelude::*;

use crate::bytes::spec_upper_seq;
use crate::errors::WadError;
use crate::wad::{spec_find_last, WadFile};

verus! {

/// One RGB color.
#[derive(Clone, Copy, Debug, PartialEq, Eq, Structural)]
pub struct Color {
    pub r: u8,
    pub g: u8,
    pub b: u8,
}

/// Palette 0 of the PLAYPAL lump: 256 RGB triples.
pub struct Palette {
    pub colors: Vec<Color>,
}

/// The color stored at index `i` of a palette lump starting at `off`.
pub open spec fn spec_palette_color(b: Seq<u8>, off: int, i: int) -> Color {
    Color { r: b[off + 3 * i], g: b[off + 3 * i + 1], b: b[off + 3 * i + 2] }
}

impl Palette {
    /// Every entry is the raw RGB triple of the lump: indexing color `i`
    /// returns exactly the bytes at offset `3 * i` of PLAYPAL.
    pub open spec fn matches(self, b: Seq<u8>, off: int) -> bool {
        &&& self.colors@.len() == 256
        &&& forall|i: int| 0 <= i < 256 ==> self.colors@[i] == spec_palette_color(b, off, i)
    }

    /// Decode the first palette of PLAYPAL: 256 triples of R, G, B bytes.
    /// Succeeds exactly when PLAYPAL is present with at least 768 bytes;
    /// it fails with `MissingLump` when PLAYPAL is absent and with
    /// `MalformedRecord` when the lump is shorter.
    pub fn new(wad: &WadFile) -> (r: Result<Palette, WadError>)
        requires
            wad.wf(),
        ensures
            r matches Ok(p) ==> {
                &&& spec_find_last(wad.dirs@, spec_playpal_name()) matches Some(d)
                &&& p.matches(wad.file@, wad.dirs@[d].offset as int)
            },
            r matches Err(e) ==> match spec_find_last(wad.dirs@, spec_playpal_name()) {
                Some(d) => e == WadError::MalformedRecord && wad.dirs@[d].size < 768,
                None => e == WadError::MissingLump,
            },
            (spec_find_last(wad.dirs@, spec_playpal_name()) matches Some(d) && wad.dirs@[d].size
                >= 768) ==> r is Ok,
    {
        let name: Vec<u8> = vec![80, 76, 65, 89, 80, 65, 76];
        proof {
            assert(spec_upper_seq(name@) =~= spec_playpal_name());
        }
        let entry = match wad.get_dir_entry(&name) {
            Ok(e) => e,
            Err(e) => {
                return Err(e);
            },
        };
        if entry.size < 768 {
            return Err(WadError::MalformedRecord);
        }
        let offset = entry.offset as usize;
        let ghost off = offset as int;
        proof {
            crate::wad::lemma_find_last_some(wad.dirs@, spec_upper_seq(name@));
            let i = spec_find_last(wad.dirs@, spec_upper_seq(name@)).unwrap();
            assert(wad.dirs@[i].matches(wad.file@, wad.header.dir_offset as int, i));
        }

        let mut colors: Vec<Color> = Vec::new();
        let mut i: usize = 0;
        while i < 256
            invariant
                i <= 256,
                colors@.len() == i,
                off == offset,
                offset + 768 <= wad.file@.len(),
                forall|j: int| 0 <= j < i ==> colors@[j] == spec_palette_color(wad.file@, off, j),
            decreases 256 - i,
        {
            let _len_fits = wad.file.len();
            let base = offset + 3 * i;
            colors.push(Color {
                r: wad.file[base],
                g: wad.file[base + 1],
                b: wad.file[base + 2],
            });
            i = i + 1;
        }
        Ok(Palette { colors })
    }

    /// Index a color; palette bytes are always in range.
    pub fn get(&self, index: u8) -> (c: Color)
        requires
            self.colors@.len() == 256,
        ensures
            c == self.colors@[index as int],
    {
        self.colors[index as usize]
    }
}

/// The canonical name of the palette lump, "PLAYPAL".
pub open spec fn spec_playpal_name() -> Seq<u8> {
    seq![80u8, 76u8, 65u8, 89u8, 80u8, 65u8, 76u8]
}

} // verus!
