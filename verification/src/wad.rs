use vstd::prelude::*;

use crate::bytes::{
    bytes_eq, read_i16_at, read_lump_name, read_u32_at, spec_i16_at, spec_name_at, spec_u32_at,
    spec_upper_seq, upper_bytes,
};
use crate::errors::WadError;

verus! {

/// The relative position of each lump of a map, counted from the map marker.
#[derive(Clone, Copy, Debug, PartialEq, Eq, Structural)]
pub enum MapLumpName {
    Things,
    Linedefs,
    Sidedefs,
    Vertexes,
    Segs,
    Ssectors,
    Nodes,
    Sectors,
    Reject,
    Blockmap,
}

impl MapLumpName {
    /// The offset of this lump from its map marker in the directory.
    pub open spec fn spec_ordinal(self) -> int {
        match self {
            MapLumpName::Things => 1,
            MapLumpName::Linedefs => 2,
            MapLumpName::Sidedefs => 3,
            MapLumpName::Vertexes => 4,
            MapLumpName::Segs => 5,
            MapLumpName::Ssectors => 6,
            MapLumpName::Nodes => 7,
            MapLumpName::Sectors => 8,
            MapLumpName::Reject => 9,
            MapLumpName::Blockmap => 10,
        }
    }

    /// The offset of this lump from its map marker in the directory.
    pub fn ordinal(self) -> (r: usize)
        ensures
            r == self.spec_ordinal(),
    {
        match self {
            MapLumpName::Things => 1,
            MapLumpName::Linedefs => 2,
            MapLumpName::Sidedefs => 3,
            MapLumpName::Vertexes => 4,
            MapLumpName::Segs => 5,
            MapLumpName::Ssectors => 6,
            MapLumpName::Nodes => 7,
            MapLumpName::Sectors => 8,
            MapLumpName::Reject => 9,
            MapLumpName::Blockmap => 10,
        }
    }
}

/// The WAD header: magic, lump count, directory offset.
pub struct Header {
    pub iwad: bool,
    pub lump_count: u32,
    pub dir_offset: u32,
}

/// One directory entry: where a lump lives in the file.
pub struct DirEntry {
    /// Index in the directory.
    pub index: usize,
    /// Canonical (uppercased) lump name, at most 8 bytes.
    pub name: Vec<u8>,
    /// Offset of the lump's bytes in the file.
    pub offset: u32,
    /// Size of the lump in bytes.
    pub size: u32,
}

/// The magic bytes "IWAD".
pub open spec fn spec_iwad_magic(b: Seq<u8>) -> bool {
    &&& b.len() >= 12
    &&& b[0] == 73
    &&& b[1] == 87
    &&& b[2] == 65
    &&& b[3] == 68
}

/// The directory entry fields as laid out in the file.
pub open spec fn spec_entry_offset(b: Seq<u8>, dir_offset: int, i: int) -> int {
    spec_u32_at(b, dir_offset + 16 * i)
}

pub open spec fn spec_entry_size(b: Seq<u8>, dir_offset: int, i: int) -> int {
    spec_u32_at(b, dir_offset + 16 * i + 4)
}

pub open spec fn spec_entry_name(b: Seq<u8>, dir_offset: int, i: int) -> Seq<u8> {
    spec_name_at(b, dir_offset + 16 * i + 8)
}

/// The whole directory lies inside the file, and every entry's lump does too.
pub open spec fn spec_dirs_in_bounds(b: Seq<u8>, dir_offset: int, count: int) -> bool {
    &&& dir_offset + 16 * count <= b.len()
    &&& forall|i: int|
        0 <= i < count ==> spec_entry_offset(b, dir_offset, i) + spec_entry_size(b, dir_offset, i)
            <= b.len()
}

impl Header {
    /// Header fields match the first 12 bytes of the file.
    pub open spec fn matches(self, b: Seq<u8>) -> bool {
        &&& self.iwad == spec_iwad_magic(b)
        &&& self.lump_count == spec_u32_at(b, 4)
        &&& self.dir_offset == spec_u32_at(b, 8)
    }

    /// Read the WAD file header from the file bytes.
    pub fn read(file: &Vec<u8>) -> (r: Result<Header, WadError>)
        ensures
            file@.len() >= 12 ==> (r matches Ok(h) && h.matches(file@)),
            file@.len() < 12 ==> (r matches Err(e) && e == WadError::InvalidContainer),
    {
        if file.len() < 12 {
            return Err(WadError::InvalidContainer);
        }
        let iwad = file[0] == 73 && file[1] == 87 && file[2] == 65 && file[3] == 68;
        Ok(Header { iwad, lump_count: read_u32_at(file, 4), dir_offset: read_u32_at(file, 8) })
    }
}

impl DirEntry {
    /// The entry mirrors directory slot `i` of the file, and its lump is in bounds.
    pub open spec fn matches(self, b: Seq<u8>, dir_offset: int, i: int) -> bool {
        &&& self.index == i
        &&& self.name@ == spec_entry_name(b, dir_offset, i)
        &&& self.offset == spec_entry_offset(b, dir_offset, i)
        &&& self.size == spec_entry_size(b, dir_offset, i)
        &&& self.offset + self.size <= b.len()
    }
}

/// A loaded WAD file: the raw bytes plus the decoded directory.
pub struct WadFile {
    pub file: Vec<u8>,
    pub header: Header,
    pub dirs: Vec<DirEntry>,
    /// Directory index of S_START, if present.
    pub first_sprite_lump: Option<usize>,
    /// Directory index of S_END, if present.
    pub last_sprite_lump: Option<usize>,
}

/// The index of the last directory entry carrying `name`, if any; lookups by
/// name resolve to the last entry, as an insertion-ordered name map would.
pub open spec fn spec_find_last(dirs: Seq<DirEntry>, name: Seq<u8>) -> Option<int>
    decreases dirs.len(),
{
    if dirs.len() == 0 {
        None
    } else if dirs[dirs.len() - 1].name@ == name {
        Some(dirs.len() - 1)
    } else {
        spec_find_last(dirs.drop_last(), name)
    }
}

/// The index of the first directory entry carrying `name`, searching from `lo`.
pub open spec fn spec_find_first_from(dirs: Seq<DirEntry>, name: Seq<u8>, lo: int) -> Option<int>
    decreases dirs.len() - lo,
{
    if lo < 0 || lo >= dirs.len() {
        None
    } else if dirs[lo].name@ == name {
        Some(lo)
    } else {
        spec_find_first_from(dirs, name, lo + 1)
    }
}

/// A successful name lookup lands on an entry in range that carries the name.
pub proof fn lemma_find_last_some(dirs: Seq<DirEntry>, name: Seq<u8>)
    requires
        spec_find_last(dirs, name) is Some,
    ensures
        0 <= spec_find_last(dirs, name).unwrap() < dirs.len(),
        dirs[spec_find_last(dirs, name).unwrap()].name@ == name,
    decreases dirs.len(),
{
    if dirs.len() > 0 && dirs[dirs.len() - 1].name@ != name {
        lemma_find_last_some(dirs.drop_last(), name);
    }
}

/// A successful first-match scan lands on an entry in range that carries the name.
pub proof fn lemma_find_first_some(dirs: Seq<DirEntry>, name: Seq<u8>, lo: int)
    requires
        spec_find_first_from(dirs, name, lo) is Some,
    ensures
        lo <= spec_find_first_from(dirs, name, lo).unwrap() < dirs.len(),
        dirs[spec_find_first_from(dirs, name, lo).unwrap()].name@ == name,
    decreases dirs.len() - lo,
{
    if 0 <= lo < dirs.len() && dirs[lo].name@ != name {
        lemma_find_first_some(dirs, name, lo + 1);
    }
}

/// The canonical name of the sprite range's first marker, "S_START".
pub open spec fn spec_s_start_name() -> Seq<u8> {
    seq![83u8, 95u8, 83u8, 84u8, 65u8, 82u8, 84u8]
}

/// The canonical name of the sprite range's last marker, "S_END".
pub open spec fn spec_s_end_name() -> Seq<u8> {
    seq![83u8, 95u8, 69u8, 78u8, 68u8]
}

/// The directory index of one lump of a map: the map marker's index plus
/// the lump's ordinal, when both exist.
pub open spec fn spec_map_lump_index(dirs: Seq<DirEntry>, map_name: Seq<u8>, ordinal: int) -> Option<
    int,
> {
    match spec_find_first_from(dirs, map_name, 0) {
        Some(m) => if m + ordinal < dirs.len() {
            Some(m + ordinal)
        } else {
            None
        },
        None => None,
    }
}

impl WadFile {
    /// The decoded directory faithfully mirrors the file bytes.
    pub open spec fn wf(self) -> bool {
        &&& self.file@.len() >= 12
        &&& self.header.matches(self.file@)
        &&& self.header.iwad
        &&& spec_dirs_in_bounds(self.file@, self.header.dir_offset as int, self.header.lump_count as int)
        &&& self.dirs@.len() == self.header.lump_count
        &&& forall|i: int|
            0 <= i < self.dirs@.len() ==> #[trigger] self.dirs@[i].matches(
                self.file@,
                self.header.dir_offset as int,
                i,
            )
    }

    /// Load a WAD file: check the magic, then decode the directory.
    /// Returns `InvalidContainer` when the magic is not "IWAD" and
    /// `MalformedRecord` when the directory or a lump runs past the file's end.
    pub fn new(file: Vec<u8>) -> (r: Result<WadFile, WadError>)
        ensures
            r matches Ok(w) ==> {
                &&& w.wf()
                &&& w.file@ == file@
                &&& w.first_sprite_lump == (match spec_find_last(w.dirs@, spec_s_start_name()) {
                    Some(d) => Some(w.dirs@[d].index),
                    None => None,
                })
                &&& w.last_sprite_lump == (match spec_find_last(w.dirs@, spec_s_end_name()) {
                    Some(d) => Some(w.dirs@[d].index),
                    None => None,
                })
            },
            !spec_iwad_magic(file@) ==> (r matches Err(e) && e == WadError::InvalidContainer),
            spec_iwad_magic(file@) && !spec_dirs_in_bounds(
                file@,
                spec_u32_at(file@, 8),
                spec_u32_at(file@, 4),
            ) ==> (r matches Err(e) && e == WadError::MalformedRecord),
            spec_iwad_magic(file@) && spec_dirs_in_bounds(
                file@,
                spec_u32_at(file@, 8),
                spec_u32_at(file@, 4),
            ) ==> (r matches Ok(w)),
    {
        let header = match Header::read(&file) {
            Ok(h) => h,
            Err(e) => {
                return Err(e);
            },
        };
        if !header.iwad {
            return Err(WadError::InvalidContainer);
        }

        let dirs = match Self::load_dirs(&file, &header) {
            Ok(d) => d,
            Err(e) => {
                return Err(e);
            },
        };

        let mut wad = WadFile {
            file,
            header,
            dirs,
            first_sprite_lump: None,
            last_sprite_lump: None,
        };

        let s_start: Vec<u8> = vec![83, 95, 83, 84, 65, 82, 84];
        let s_end: Vec<u8> = vec![83, 95, 69, 78, 68];
        proof {
            assert(spec_upper_seq(s_start@) =~= spec_s_start_name());
            assert(spec_upper_seq(s_end@) =~= spec_s_end_name());
        }
        wad.first_sprite_lump = match wad.get_dir_entry(&s_start) {
            Ok(e) => Some(e.index),
            Err(_) => None,
        };
        wad.last_sprite_lump = match wad.get_dir_entry(&s_end) {
            Ok(e) => Some(e.index),
            Err(_) => None,
        };

        Ok(wad)
    }

    /// Decode the directory: 16-byte entries at the header's directory offset.
    fn load_dirs(file: &Vec<u8>, header: &Header) -> (r: Result<Vec<DirEntry>, WadError>)
        requires
            file@.len() >= 12,
            header.matches(file@),
        ensures
            r matches Ok(dirs) ==> {
                &&& spec_dirs_in_bounds(file@, header.dir_offset as int, header.lump_count as int)
                &&& dirs@.len() == header.lump_count
                &&& forall|i: int|
                    0 <= i < dirs@.len() ==> #[trigger] dirs@[i].matches(
                        file@,
                        header.dir_offset as int,
                        i,
                    )
            },
            r matches Err(e) ==> e == WadError::MalformedRecord && !spec_dirs_in_bounds(
                file@,
                header.dir_offset as int,
                header.lump_count as int,
            ),
    {
        let count = header.lump_count as usize;
        let dir_offset = header.dir_offset as usize;
        let flen = file.len();

        if (dir_offset as u64) + 16 * (count as u64) > flen as u64 {
            return Err(WadError::MalformedRecord);
        }

        let mut dirs: Vec<DirEntry> = Vec::new();
        let mut i: usize = 0;
        while i < count
            invariant
                file@.len() >= 12,
                i <= count,
                count == header.lump_count,
                dir_offset == header.dir_offset,
                flen == file@.len(),
                dir_offset + 16 * count <= flen,
                dirs@.len() == i,
                forall|j: int|
                    0 <= j < i ==> #[trigger] dirs@[j].matches(file@, dir_offset as int, j),
            decreases count - i,
        {
            let entry_offset = dir_offset + 16 * i;
            let offset = read_u32_at(file, entry_offset);
            let size = read_u32_at(file, entry_offset + 4);
            let name = read_lump_name(file, entry_offset + 8);

            if (offset as u64) + (size as u64) > flen as u64 {
                proof {
                    assert(spec_entry_offset(file@, dir_offset as int, i as int) + spec_entry_size(
                        file@,
                        dir_offset as int,
                        i as int,
                    ) > file@.len());
                }
                return Err(WadError::MalformedRecord);
            }

            dirs.push(DirEntry { index: i, name, offset, size });
            i = i + 1;
        }
        proof {
            assert forall|j: int| 0 <= j < header.lump_count as int implies spec_entry_offset(
                file@,
                header.dir_offset as int,
                j,
            ) + spec_entry_size(file@, header.dir_offset as int, j) <= file@.len() by {
                assert(dirs@[j].matches(file@, header.dir_offset as int, j));
            }
        }
        Ok(dirs)
    }

    /// Look up a lump by name (case-insensitive); the last entry with the
    /// name wins. Fails with `MissingLump` when no entry carries the name.
    pub fn get_dir_entry(&self, name: &Vec<u8>) -> (r: Result<&DirEntry, WadError>)
        ensures
            match r {
                Ok(e) => {
                    &&& spec_find_last(self.dirs@, spec_upper_seq(name@)) matches Some(i)
                    &&& *e == self.dirs@[spec_find_last(self.dirs@, spec_upper_seq(name@)).unwrap()]
                },
                Err(err) => {
                    &&& err == WadError::MissingLump
                    &&& spec_find_last(self.dirs@, spec_upper_seq(name@)) is None
                },
            },
    {
        let canonical = upper_bytes(name);
        let mut i: usize = self.dirs.len();
        proof {
            assert(self.dirs@.take(i as int) =~= self.dirs@);
        }
        while i > 0
            invariant
                canonical@ == spec_upper_seq(name@),
                i <= self.dirs@.len(),
                spec_find_last(self.dirs@.take(i as int), canonical@) == spec_find_last(
                    self.dirs@,
                    canonical@,
                ),
            decreases i,
        {
            i = i - 1;
            proof {
                assert(self.dirs@.take(i + 1).drop_last() =~= self.dirs@.take(i as int));
                assert(self.dirs@.take(i + 1)[i as int] == self.dirs@[i as int]);
            }
            if bytes_eq(&self.dirs[i].name, &canonical) {
                return Ok(&self.dirs[i]);
            }
        }
        proof {
            assert(self.dirs@.take(0) =~= Seq::<DirEntry>::empty());
        }
        Err(WadError::MissingLump)
    }

    /// The directory entry for one lump of a map: the entry standing
    /// `kind`'s ordinal after the first entry named like the map itself.
    /// Fails with `MissingLump` when the map marker is absent, and with
    /// `MalformedRecord` when the directory ends before the lump.
    pub fn get_dir_entry_for_map_lump(
        &self,
        map_name: &Vec<u8>,
        kind: MapLumpName,
    ) -> (r: Result<&DirEntry, WadError>)
        ensures
            match r {
                Ok(e) => {
                    &&& spec_find_first_from(self.dirs@, spec_upper_seq(map_name@), 0) matches Some(m)
                    &&& m + kind.spec_ordinal() < self.dirs@.len()
                    &&& *e == self.dirs@[m + kind.spec_ordinal()]
                },
                Err(err) => match spec_find_first_from(self.dirs@, spec_upper_seq(map_name@), 0) {
                    Some(m) => err == WadError::MalformedRecord && m + kind.spec_ordinal()
                        >= self.dirs@.len(),
                    None => err == WadError::MissingLump,
                },
            },
    {
        let canonical = upper_bytes(map_name);
        let mut i: usize = 0;
        while i < self.dirs.len()
            invariant
                canonical@ == spec_upper_seq(map_name@),
                i <= self.dirs@.len(),
                spec_find_first_from(self.dirs@, canonical@, 0) == spec_find_first_from(
                    self.dirs@,
                    canonical@,
                    i as int,
                ),
            decreases self.dirs@.len() - i,
        {
            if bytes_eq(&self.dirs[i].name, &canonical) {
                let ordinal = kind.ordinal();
                if ordinal >= self.dirs.len() - i {
                    return Err(WadError::MalformedRecord);
                }
                return Ok(&self.dirs[i + ordinal]);
            }
            i = i + 1;
        }
        Err(WadError::MissingLump)
    }

    /// Read a little-endian i16 inside the file.
    pub fn read_i16(&self, offset: usize) -> (r: i16)
        requires
            offset + 2 <= self.file@.len(),
        ensures
            r == spec_i16_at(self.file@, offset as int),
    {
        read_i16_at(&self.file, offset)
    }

    /// Read a little-endian u32 inside the file.
    pub fn read_u32(&self, offset: usize) -> (r: u32)
        requires
            offset + 4 <= self.file@.len(),
        ensures
            r == spec_u32_at(self.file@, offset as int),
    {
        read_u32_at(&self.file, offset)
    }

    /// Read the canonical lump name at `offset`.
    pub fn read_lump_name(&self, offset: usize) -> (r: Vec<u8>)
        requires
            offset + 8 <= self.file@.len(),
        ensures
            r@ == spec_name_at(self.file@, offset as int),
    {
        read_lump_name(&self.file, offset)
    }
}

} // verus!
