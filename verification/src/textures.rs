use vstd::prelude::*;

use crate::bytes::{bytes_eq, spec_i16_at, spec_name_at, spec_u32_at, spec_upper_seq, upper_bytes};
use crate::errors::WadError;
use crate::pictures::{spec_cell, spec_column_start, spec_picture_ok, spec_posts, Picture};
use crate::wad::{lemma_find_last_some, spec_find_last, WadFile};

verus! {

// -------------------------------------------------------------------------
// Wall textures are composed from patches: PNAMES lists the patch lump
// names, TEXTURE1 (and, in larger WADs, TEXTURE2) lists each texture's
// size and its ordered patch placements.
// -------------------------------------------------------------------------

/// One entry of PNAMES: a patch lump name and where its lump lives.
pub struct Pname {
    /// Canonical lump name.
    pub name: Vec<u8>,
    /// Offset of the named lump in the WAD, `None` when the lump is absent.
    pub wad_offset: Option<u32>,
}

/// One patch placement inside a texture.
pub struct Patch {
    /// Horizontal offset of the patch's top-left corner in the texture.
    pub origin_x: i16,
    /// Vertical offset of the patch's top-left corner in the texture.
    pub origin_y: i16,
    /// Index into PNAMES of the patch's picture lump.
    pub patch_number: i16,
}

/// A texture's recipe, straight from the texture list lump.
pub struct TextureDefinition {
    /// Canonical texture name.
    pub name: Vec<u8>,
    pub width: i16,
    pub height: i16,
    pub patches: Vec<Patch>,
}

/// A composed texture: a fully opaque grid of palette indices.
pub struct Texture {
    pub width: i16,
    pub height: i16,
    /// Row-major: `pixels[y][x]`.
    pub pixels: Vec<Vec<u8>>,
}

/// The mathematical image of one placed patch.
pub ghost struct SpecPatchImage {
    pub ox: int,
    pub oy: int,
    pub grid: Seq<Seq<Option<u8>>>,
}

/// The decoded pixel grid of the picture lump carrying `name`, row-major.
pub open spec fn spec_picture_grid(wad: WadFile, name: Seq<u8>) -> Seq<Seq<Option<u8>>> {
    match spec_find_last(wad.dirs@, name) {
        Some(d) => {
            let off = wad.dirs@[d].offset as int;
            Seq::new(
                spec_i16_at(wad.file@, off + 2) as nat,
                |y: int|
                    Seq::new(
                        spec_i16_at(wad.file@, off) as nat,
                        |x: int|
                            spec_cell(
                                spec_posts(wad.file@, spec_column_start(wad.file@, off, x)),
                                None,
                                y,
                            ),
                    ),
            )
        },
        None => Seq::empty(),
    }
}

/// The image a patch places: its picture grid at its origin.
pub open spec fn spec_patch_image(p: Patch, pnames: Seq<Pname>, wad: WadFile) -> SpecPatchImage {
    SpecPatchImage {
        ox: p.origin_x as int,
        oy: p.origin_y as int,
        grid: spec_picture_grid(wad, spec_upper_seq(pnames[p.patch_number as int].name@)),
    }
}

pub open spec fn spec_placed(patches: Seq<Patch>, pnames: Seq<Pname>, wad: WadFile) -> Seq<
    SpecPatchImage,
> {
    patches.map_values(|p: Patch| spec_patch_image(p, pnames, wad))
}

/// The texture cell at `(x, y)`: the byte of the last patch whose picture
/// is opaque there, over a zero-initialized ground.
pub open spec fn spec_compose_cell(ps: Seq<SpecPatchImage>, x: int, y: int) -> u8
    decreases ps.len(),
{
    if ps.len() == 0 {
        0
    } else {
        let lt = ps.last();
        let lx = x - lt.ox;
        let ly = y - lt.oy;
        if 0 <= ly < lt.grid.len() && 0 <= lx < lt.grid[ly].len() && lt.grid[ly][lx] is Some {
            lt.grid[ly][lx].unwrap()
        } else {
            spec_compose_cell(ps.drop_last(), x, y)
        }
    }
}

/// The texture is the exact composition of its definition's patches.
pub open spec fn spec_texture_matches(
    t: Texture,
    def: TextureDefinition,
    pnames: Seq<Pname>,
    wad: WadFile,
) -> bool {
    &&& t.width == def.width
    &&& t.height == def.height
    &&& t.pixels@.len() == def.height
    &&& forall|y: int| 0 <= y < def.height ==> (#[trigger] t.pixels@[y])@.len() == def.width
    &&& forall|y: int, x: int|
        0 <= y < def.height && 0 <= x < def.width ==> #[trigger] t.pixels@[y]@[x]
            == spec_compose_cell(spec_placed(def.patches@, pnames, wad), x, y)
}

/// Texture composition is idempotent: any two compositions of one
/// definition against one asset set are bitwise-equal grids.
pub proof fn lemma_compose_idempotent(
    t1: Texture,
    t2: Texture,
    def: TextureDefinition,
    pnames: Seq<Pname>,
    wad: WadFile,
)
    requires
        spec_texture_matches(t1, def, pnames, wad),
        spec_texture_matches(t2, def, pnames, wad),
    ensures
        t1.pixels@.map_values(|row: Vec<u8>| row@) == t2.pixels@.map_values(
            |row: Vec<u8>| row@,
        ),
{
    assert(t1.pixels@.map_values(|row: Vec<u8>| row@) =~~= t2.pixels@.map_values(
        |row: Vec<u8>| row@,
    ));
}

/// A placed patch with its decoded picture, ready for composition.
struct PlacedPatch {
    origin_x: i16,
    origin_y: i16,
    picture: Picture,
}

impl PlacedPatch {
    spec fn image(self) -> SpecPatchImage {
        SpecPatchImage {
            ox: self.origin_x as int,
            oy: self.origin_y as int,
            grid: self.picture.bitmap.grid(),
        }
    }

    spec fn wf(self) -> bool {
        self.picture.bitmap.wf()
    }
}

spec fn spec_placed_views(ps: Seq<PlacedPatch>) -> Seq<SpecPatchImage> {
    ps.map_values(|p: PlacedPatch| p.image())
}

/// The patch resolves: its number lands in PNAMES, the named lump exists,
/// and its picture decodes.
pub open spec fn spec_patch_ok(p: Patch, pnames: Seq<Pname>, wad: WadFile) -> bool {
    &&& 0 <= p.patch_number < pnames.len()
    &&& spec_find_last(
        wad.dirs@,
        spec_upper_seq(pnames[p.patch_number as int].name@),
    ) matches Some(d) && spec_picture_ok(
        wad.file@,
        wad.dirs@[d].offset as int,
        wad.dirs@[d].size as int,
    )
}

impl Patch {
    /// Load the picture this patch refers to through PNAMES. Succeeds
    /// exactly when the patch resolves: it fails with `MalformedRecord`
    /// when the patch number is out of range or the picture is malformed,
    /// and with `MissingLump` when the named lump is absent.
    pub fn get_picture(&self, wad: &WadFile, pnames: &Vec<Pname>) -> (r: Result<
        Picture,
        WadError,
    >)
        requires
            wad.wf(),
        ensures
            r matches Ok(p) ==> {
                &&& 0 <= self.patch_number < pnames@.len()
                &&& p.bitmap.wf()
                &&& p.name@ == spec_upper_seq(pnames@[self.patch_number as int].name@)
                &&& p.bitmap.grid() == spec_picture_grid(
                    *wad,
                    spec_upper_seq(pnames@[self.patch_number as int].name@),
                )
            },
            r matches Err(e) ==> !spec_patch_ok(*self, pnames@, *wad),
            spec_patch_ok(*self, pnames@, *wad) ==> r is Ok,
    {
        if self.patch_number < 0 || self.patch_number as usize >= pnames.len() {
            return Err(WadError::MalformedRecord);
        }
        let pname = &pnames[self.patch_number as usize];
        let picture = match Picture::new(wad, &pname.name) {
            Ok(p) => p,
            Err(e) => {
                return Err(e);
            },
        };
        proof {
            lemma_picture_grid_bridge(picture, *wad, spec_upper_seq(pname.name@));
        }
        Ok(picture)
    }
}

/// A decoded picture's grid is exactly the grid `spec_picture_grid` reads
/// off the lump carrying its name.
proof fn lemma_picture_grid_bridge(p: Picture, wad: WadFile, name: Seq<u8>)
    requires
        spec_find_last(wad.dirs@, name) is Some,
        p.matches(wad.file@, wad.dirs@[spec_find_last(wad.dirs@, name).unwrap()].offset as int),
    ensures
        p.bitmap.grid() == spec_picture_grid(wad, name),
{
    assert(p.bitmap.grid() =~~= spec_picture_grid(wad, name));
}

/// Compose one texture cell: scan the placed patches from the last to the
/// first for an opaque covering pixel; ground is palette index 0.
fn compose_cell(placed: &Vec<PlacedPatch>, x: usize, y: usize) -> (r: u8)
    requires
        forall|i: int| 0 <= i < placed@.len() ==> (#[trigger] placed@[i]).wf(),
        x <= 32767,
        y <= 32767,
    ensures
        r == spec_compose_cell(spec_placed_views(placed@), x as int, y as int),
{
    let ghost pv = spec_placed_views(placed@);
    let mut i: usize = placed.len();
    proof {
        assert(pv.take(i as int) =~= pv);
    }
    while i > 0
        invariant
            forall|k: int| 0 <= k < placed@.len() ==> (#[trigger] placed@[k]).wf(),
            x <= 32767,
            y <= 32767,
            pv == spec_placed_views(placed@),
            i <= placed@.len(),
            spec_compose_cell(pv.take(i as int), x as int, y as int) == spec_compose_cell(
                pv,
                x as int,
                y as int,
            ),
        decreases i,
    {
        i = i - 1;
        proof {
            assert(pv.take(i + 1).drop_last() =~= pv.take(i as int));
            assert(pv.take(i + 1).last() == pv[i as int]);
        }
        let p = &placed[i];
        let lx = x as i32 - p.origin_x as i32;
        let ly = y as i32 - p.origin_y as i32;
        if 0 <= ly && ly < p.picture.bitmap.height as i32 && 0 <= lx && lx
            < p.picture.bitmap.width as i32 {
            if let Some(v) = p.picture.bitmap.pixels[ly as usize][lx as usize] {
                return v;
            }
        }
    }
    proof {
        assert(pv.take(0) =~= Seq::<SpecPatchImage>::empty());
    }
    0
}

impl Texture {
    /// Compose a texture from its definition: load every patch picture and
    /// gather each cell from the last opaque patch pixel covering it.
    /// Succeeds exactly when every patch of the definition resolves and
    /// decodes.
    pub fn load(def: &TextureDefinition, wad: &WadFile, pnames: &Vec<Pname>) -> (r: Result<
        Texture,
        WadError,
    >)
        requires
            wad.wf(),
            0 <= def.width,
            0 <= def.height,
        ensures
            r matches Ok(t) ==> spec_texture_matches(t, *def, pnames@, *wad),
            r matches Err(e) ==> !(forall|j: int|
                0 <= j < def.patches@.len() ==> spec_patch_ok(
                    #[trigger] def.patches@[j],
                    pnames@,
                    *wad,
                )),
            (forall|j: int|
                0 <= j < def.patches@.len() ==> spec_patch_ok(
                    #[trigger] def.patches@[j],
                    pnames@,
                    *wad,
                )) ==> r is Ok,
    {
        let mut placed: Vec<PlacedPatch> = Vec::new();
        let mut i: usize = 0;
        while i < def.patches.len()
            invariant
                wad.wf(),
                i <= def.patches@.len(),
                placed@.len() == i,
                forall|k: int| 0 <= k < i ==> (#[trigger] placed@[k]).wf(),
                forall|k: int|
                    0 <= k < i ==> #[trigger] placed@[k].image() == spec_patch_image(
                        def.patches@[k],
                        pnames@,
                        *wad,
                    ),
            decreases def.patches@.len() - i,
        {
            let patch = &def.patches[i];
            let picture = match patch.get_picture(wad, pnames) {
                Ok(p) => p,
                Err(e) => {
                    proof {
                        assert(!spec_patch_ok(def.patches@[i as int], pnames@, *wad));
                    }
                    return Err(e);
                },
            };
            placed.push(PlacedPatch {
                origin_x: patch.origin_x,
                origin_y: patch.origin_y,
                picture,
            });
            i = i + 1;
        }
        proof {
            assert(spec_placed_views(placed@) =~= spec_placed(def.patches@, pnames@, *wad));
        }

        let w = def.width as usize;
        let h = def.height as usize;
        let mut pixels: Vec<Vec<u8>> = Vec::new();
        let mut y: usize = 0;
        while y < h
            invariant
                w == def.width,
                h == def.height,
                forall|k: int| 0 <= k < placed@.len() ==> (#[trigger] placed@[k]).wf(),
                spec_placed_views(placed@) == spec_placed(def.patches@, pnames@, *wad),
                pixels@.len() == y,
                y <= h,
                forall|j: int| 0 <= j < y ==> (#[trigger] pixels@[j])@.len() == w,
                forall|j: int, x: int|
                    0 <= j < y && 0 <= x < w ==> #[trigger] pixels@[j]@[x] == spec_compose_cell(
                        spec_placed(def.patches@, pnames@, *wad),
                        x,
                        j,
                    ),
            decreases h - y,
        {
            let mut row: Vec<u8> = Vec::new();
            let mut x: usize = 0;
            while x < w
                invariant
                    w == def.width,
                    h == def.height,
                    y < h,
                    forall|k: int| 0 <= k < placed@.len() ==> (#[trigger] placed@[k]).wf(),
                    spec_placed_views(placed@) == spec_placed(def.patches@, pnames@, *wad),
                    row@.len() == x,
                    x <= w,
                    forall|k: int|
                        0 <= k < x ==> #[trigger] row@[k] == spec_compose_cell(
                            spec_placed(def.patches@, pnames@, *wad),
                            k,
                            y as int,
                        ),
                decreases w - x,
            {
                row.push(compose_cell(&placed, x, y));
                x = x + 1;
            }
            pixels.push(row);
            y = y + 1;
        }
        Ok(Texture { width: def.width, height: def.height, pixels })
    }
}

// -------------------------------------------------------------------------
// Byte layout of PNAMES and the texture lists.
// -------------------------------------------------------------------------

/// The canonical names of the texture asset lumps.
pub open spec fn spec_pnames_lump_name() -> Seq<u8> {
    seq![80u8, 78u8, 65u8, 77u8, 69u8, 83u8]
}

pub open spec fn spec_texture1_name() -> Seq<u8> {
    seq![84u8, 69u8, 88u8, 84u8, 85u8, 82u8, 69u8, 49u8]
}

pub open spec fn spec_texture2_name() -> Seq<u8> {
    seq![84u8, 69u8, 88u8, 84u8, 85u8, 82u8, 69u8, 50u8]
}

/// PNAMES lies in bounds: a u32 count then 8-byte names.
pub open spec fn spec_pnames_ok(b: Seq<u8>, off: int, size: int) -> bool {
    &&& size >= 4
    &&& 4 + 8 * spec_u32_at(b, off) <= size
}

/// The file offset of texture record `i` of the list at `off`.
pub open spec fn spec_texture_record_off(b: Seq<u8>, off: int, i: int) -> int {
    off + spec_u32_at(b, off + 4 + 4 * i)
}

/// Texture record `i` lies in bounds with sane dimensions.
pub open spec fn spec_texture_record_ok(b: Seq<u8>, off: int, i: int) -> bool {
    let ro = spec_texture_record_off(b, off, i);
    &&& ro + 22 <= b.len()
    &&& spec_i16_at(b, ro + 12) >= 0
    &&& spec_i16_at(b, ro + 14) >= 0
    &&& spec_i16_at(b, ro + 20) >= 0
    &&& ro + 22 + 10 * spec_i16_at(b, ro + 20) <= b.len()
}

/// The whole texture list lies in bounds: the count, the offset table and
/// every record.
pub open spec fn spec_texture_list_ok(b: Seq<u8>, off: int, size: int) -> bool {
    &&& size >= 4
    &&& 4 + 4 * spec_u32_at(b, off) <= size
    &&& forall|i: int|
        0 <= i < spec_u32_at(b, off) ==> #[trigger] spec_texture_record_ok(b, off, i)
}

/// One texture record matches the definition decoded from it.
pub open spec fn spec_texture_def_matches(def: TextureDefinition, b: Seq<u8>, ro: int) -> bool {
    &&& def.name@ == spec_name_at(b, ro)
    &&& def.width == spec_i16_at(b, ro + 12)
    &&& def.height == spec_i16_at(b, ro + 14)
    &&& def.patches@.len() == spec_i16_at(b, ro + 20)
    &&& forall|j: int|
        0 <= j < def.patches@.len() ==> {
            &&& (#[trigger] def.patches@[j]).origin_x == spec_i16_at(b, ro + 22 + 10 * j)
            &&& def.patches@[j].origin_y == spec_i16_at(b, ro + 22 + 10 * j + 2)
            &&& def.patches@[j].patch_number == spec_i16_at(b, ro + 22 + 10 * j + 4)
        }
}

/// The first texture definition carrying `name`, searching from `lo`.
pub open spec fn spec_find_def(defs: Seq<TextureDefinition>, name: Seq<u8>, lo: int) -> Option<
    int,
>
    decreases defs.len() - lo,
{
    if lo < 0 || lo >= defs.len() {
        None
    } else if defs[lo].name@ == name {
        Some(lo)
    } else {
        spec_find_def(defs, name, lo + 1)
    }
}

/// A lazy store of composed textures, bound to one WAD file.
pub struct Textures {
    /// Texture definitions, in list order.
    pub definitions: Vec<TextureDefinition>,
    /// Composed textures, parallel to `definitions`.
    pub loaded: Vec<Option<Texture>>,
    /// Parsed contents of the PNAMES lump.
    pub pnames: Vec<Pname>,
    /// The WAD file this store decodes from.
    pub wad_snap: Ghost<WadFile>,
}

impl Textures {
    /// Definitions have sane dimensions and every composed texture is the
    /// composition of its definition against the bound WAD.
    pub open spec fn wf(self) -> bool {
        &&& self.wad_snap@.wf()
        &&& self.loaded@.len() == self.definitions@.len()
        &&& forall|i: int|
            0 <= i < self.definitions@.len() ==> 0 <= (#[trigger] self.definitions@[i]).width && 0
                <= self.definitions@[i].height
        &&& forall|i: int|
            0 <= i < self.loaded@.len() ==> ((#[trigger] self.loaded@[i]) matches Some(t)
                ==> spec_texture_matches(
                t,
                self.definitions@[i],
                self.pnames@,
                self.wad_snap@,
            ))
    }

    /// Load PNAMES and the texture lists. TEXTURE1 and PNAMES are
    /// required; TEXTURE2 is optional, but a present malformed TEXTURE2 is
    /// an error. Succeeds exactly when PNAMES and TEXTURE1 are present and
    /// well-formed and TEXTURE2 is absent or well-formed; on success the
    /// definitions are TEXTURE1's records followed by TEXTURE2's.
    pub fn new(wad: &WadFile) -> (r: Result<Textures, WadError>)
        requires
            wad.wf(),
        ensures
            r matches Ok(t) ==> {
                &&& t.wf()
                &&& t.wad_snap@ == *wad
                &&& spec_find_last(wad.dirs@, spec_texture1_name()) matches Some(d1) && ({
                    let off1 = wad.dirs@[d1].offset as int;
                    let n1 = spec_u32_at(wad.file@, off1);
                    &&& forall|i: int|
                        0 <= i < n1 ==> spec_texture_def_matches(
                            #[trigger] t.definitions@[i],
                            wad.file@,
                            spec_texture_record_off(wad.file@, off1, i),
                        )
                    &&& match spec_find_last(wad.dirs@, spec_texture2_name()) {
                        Some(d2) => {
                            let off2 = wad.dirs@[d2].offset as int;
                            let n2 = spec_u32_at(wad.file@, off2);
                            &&& t.definitions@.len() == n1 + n2
                            &&& forall|i: int|
                                0 <= i < n2 ==> spec_texture_def_matches(
                                    #[trigger] t.definitions@[n1 + i],
                                    wad.file@,
                                    spec_texture_record_off(wad.file@, off2, i),
                                )
                        },
                        None => t.definitions@.len() == n1,
                    }
                })
            },
            ({
                &&& spec_find_last(wad.dirs@, spec_pnames_lump_name()) matches Some(dp)
                    && spec_pnames_ok(
                    wad.file@,
                    wad.dirs@[dp].offset as int,
                    wad.dirs@[dp].size as int,
                )
                &&& spec_find_last(wad.dirs@, spec_texture1_name()) matches Some(d1)
                    && spec_texture_list_ok(
                    wad.file@,
                    wad.dirs@[d1].offset as int,
                    wad.dirs@[d1].size as int,
                )
                &&& match spec_find_last(wad.dirs@, spec_texture2_name()) {
                    Some(d2) => spec_texture_list_ok(
                        wad.file@,
                        wad.dirs@[d2].offset as int,
                        wad.dirs@[d2].size as int,
                    ),
                    None => true,
                }
            }) ==> r is Ok,
    {
        let pnames_name: Vec<u8> = vec![80, 78, 65, 77, 69, 83];
        let texture1_name: Vec<u8> = vec![84, 69, 88, 84, 85, 82, 69, 49];
        let texture2_name: Vec<u8> = vec![84, 69, 88, 84, 85, 82, 69, 50];
        proof {
            assert(spec_upper_seq(pnames_name@) =~= spec_pnames_lump_name());
            assert(spec_upper_seq(texture1_name@) =~= spec_texture1_name());
            assert(spec_upper_seq(texture2_name@) =~= spec_texture2_name());
        }

        let mut textures = Textures {
            definitions: Vec::new(),
            loaded: Vec::new(),
            pnames: Vec::new(),
            wad_snap: Ghost(*wad),
        };

        match textures.load_pnames(wad, &pnames_name) {
            Ok(_) => (),
            Err(e) => {
                return Err(e);
            },
        }

        match textures.load_texture_list(wad, &texture1_name) {
            Ok(_) => (),
            Err(e) => {
                return Err(e);
            },
        }

        // TEXTURE2 is only present in larger WADs; ignore its absence, but
        // not a malformed list.
        match textures.load_texture_list(wad, &texture2_name) {
            Ok(_) => (),
            Err(e) => {
                if matches!(e, WadError::MalformedRecord) {
                    return Err(e);
                }
            },
        }

        Ok(textures)
    }

    /// Parse the PNAMES lump: a u32 count, then 8-byte patch lump names,
    /// each looked up in the directory.
    pub fn load_pnames(&mut self, wad: &WadFile, lump_name: &Vec<u8>) -> (r: Result<
        (),
        WadError,
    >)
        requires
            wad.wf(),
            *wad == old(self).wad_snap@,
            old(self).wf(),
            old(self).loaded@.len() == 0,
        ensures
            final(self).wf(),
            final(self).wad_snap@ == old(self).wad_snap@,
            final(self).definitions@ == old(self).definitions@,
            final(self).loaded@ == old(self).loaded@,
            r matches Ok(_) ==> {
                &&& spec_find_last(wad.dirs@, spec_upper_seq(lump_name@)) matches Some(d)
                &&& spec_pnames_ok(
                    wad.file@,
                    wad.dirs@[d].offset as int,
                    wad.dirs@[d].size as int,
                )
                &&& final(self).pnames@.len() == spec_u32_at(
                    wad.file@,
                    wad.dirs@[d].offset as int,
                )
                &&& forall|i: int|
                    0 <= i < final(self).pnames@.len() ==> {
                        &&& (#[trigger] final(self).pnames@[i]).name@ == spec_name_at(
                            wad.file@,
                            wad.dirs@[d].offset + 4 + 8 * i,
                        )
                        &&& final(self).pnames@[i].wad_offset == (match spec_find_last(
                            wad.dirs@,
                            spec_upper_seq(final(self).pnames@[i].name@),
                        ) {
                            Some(e) => Some(wad.dirs@[e].offset),
                            None => None,
                        })
                    }
            },
            r matches Err(e) ==> final(self).pnames@ == old(self).pnames@ && (match spec_find_last(
                wad.dirs@,
                spec_upper_seq(lump_name@),
            ) {
                Some(d) => e == WadError::MalformedRecord && !spec_pnames_ok(
                    wad.file@,
                    wad.dirs@[d].offset as int,
                    wad.dirs@[d].size as int,
                ),
                None => e == WadError::MissingLump,
            }),
            (spec_find_last(wad.dirs@, spec_upper_seq(lump_name@)) matches Some(d)
                && spec_pnames_ok(
                wad.file@,
                wad.dirs@[d].offset as int,
                wad.dirs@[d].size as int,
            )) ==> r is Ok,
    {
        let entry = match wad.get_dir_entry(lump_name) {
            Ok(e) => e,
            Err(e) => {
                return Err(e);
            },
        };
        proof {
            lemma_find_last_some(wad.dirs@, spec_upper_seq(lump_name@));
            let d = spec_find_last(wad.dirs@, spec_upper_seq(lump_name@)).unwrap();
            assert(wad.dirs@[d].matches(wad.file@, wad.header.dir_offset as int, d));
        }
        if entry.size < 4 {
            return Err(WadError::MalformedRecord);
        }
        let off = entry.offset as usize;
        let size = entry.size as usize;
        let flen = wad.file.len();
        let count32 = wad.read_u32(off);
        if (4 + 8 * (count32 as u64)) > size as u64 {
            return Err(WadError::MalformedRecord);
        }
        let count = count32 as usize;

        let mut pnames: Vec<Pname> = Vec::new();
        let mut i: usize = 0;
        while i < count
            invariant
                wad.wf(),
                flen == wad.file@.len(),
                off + 4 + 8 * count <= flen,
                pnames@.len() == i,
                i <= count,
                forall|k: int|
                    0 <= k < i ==> {
                        &&& (#[trigger] pnames@[k]).name@ == spec_name_at(
                            wad.file@,
                            off + 4 + 8 * k,
                        )
                        &&& pnames@[k].wad_offset == (match spec_find_last(
                            wad.dirs@,
                            spec_upper_seq(pnames@[k].name@),
                        ) {
                            Some(e) => Some(wad.dirs@[e].offset),
                            None => None,
                        })
                    },
            decreases count - i,
        {
            let name = wad.read_lump_name(off + 4 + 8 * i);
            let wad_offset = match wad.get_dir_entry(&name) {
                Ok(e) => Some(e.offset),
                Err(_) => None,
            };
            pnames.push(Pname { name, wad_offset });
            i = i + 1;
        }
        self.pnames = pnames;
        Ok(())
    }

    /// Parse one texture list lump (TEXTURE1 or TEXTURE2) and append its
    /// definitions to the store.
    pub fn load_texture_list(&mut self, wad: &WadFile, lump_name: &Vec<u8>) -> (r: Result<
        (),
        WadError,
    >)
        requires
            wad.wf(),
            *wad == old(self).wad_snap@,
            old(self).wf(),
        ensures
            final(self).wf(),
            final(self).wad_snap@ == old(self).wad_snap@,
            final(self).pnames@ == old(self).pnames@,
            r matches Ok(_) ==> {
                &&& spec_find_last(wad.dirs@, spec_upper_seq(lump_name@)) matches Some(d)
                &&& final(self).definitions@.len() == old(self).definitions@.len() + spec_u32_at(
                    wad.file@,
                    wad.dirs@[d].offset as int,
                )
                &&& forall|i: int|
                    old(self).definitions@.len() <= i < final(self).definitions@.len()
                        ==> spec_texture_def_matches(
                        #[trigger] final(self).definitions@[i],
                        wad.file@,
                        spec_texture_record_off(
                            wad.file@,
                            wad.dirs@[d].offset as int,
                            i - old(self).definitions@.len(),
                        ),
                    )
                &&& forall|i: int|
                    0 <= i < old(self).definitions@.len() ==> final(self).definitions@[i] == old(
                        self,
                    ).definitions@[i]
            },
            r matches Err(e) ==> final(self).definitions@ == old(self).definitions@
                && final(self).loaded@ == old(self).loaded@ && (match spec_find_last(
                wad.dirs@,
                spec_upper_seq(lump_name@),
            ) {
                Some(d) => e == WadError::MalformedRecord && !spec_texture_list_ok(
                    wad.file@,
                    wad.dirs@[d].offset as int,
                    wad.dirs@[d].size as int,
                ),
                None => e == WadError::MissingLump,
            }),
            (spec_find_last(wad.dirs@, spec_upper_seq(lump_name@)) matches Some(d)
                && spec_texture_list_ok(
                wad.file@,
                wad.dirs@[d].offset as int,
                wad.dirs@[d].size as int,
            )) ==> r is Ok,
    {
        let entry = match wad.get_dir_entry(lump_name) {
            Ok(e) => e,
            Err(e) => {
                return Err(e);
            },
        };
        proof {
            lemma_find_last_some(wad.dirs@, spec_upper_seq(lump_name@));
            let d = spec_find_last(wad.dirs@, spec_upper_seq(lump_name@)).unwrap();
            assert(wad.dirs@[d].matches(wad.file@, wad.header.dir_offset as int, d));
        }
        if entry.size < 4 {
            return Err(WadError::MalformedRecord);
        }
        let off = entry.offset as usize;
        let size = entry.size as usize;
        let flen = wad.file.len();
        let count32 = wad.read_u32(off);
        if (4 + 4 * (count32 as u64)) > size as u64 {
            return Err(WadError::MalformedRecord);
        }
        let count = count32 as usize;
        let base = self.definitions.len();

        let mut i: usize = 0;
        while i < count
            invariant
                old(self).wf(),
                wad.wf(),
                *wad == old(self).wad_snap@,
                self.wad_snap@ == old(self).wad_snap@,
                self.pnames@ == old(self).pnames@,
                flen == wad.file@.len(),
                off + 4 + 4 * count <= flen,
                spec_find_last(wad.dirs@, spec_upper_seq(lump_name@)) is Some,
                ({
                    let d = spec_find_last(wad.dirs@, spec_upper_seq(lump_name@)).unwrap();
                    off == wad.dirs@[d].offset && size == wad.dirs@[d].size && count
                        == spec_u32_at(wad.file@, off as int) && 4 + 4 * count <= size
                }),
                base == old(self).definitions@.len(),
                self.definitions@.len() == base + i,
                self.loaded@.len() == self.definitions@.len(),
                i <= count,
                forall|m: int|
                    0 <= m < base ==> #[trigger] self.definitions@[m] == old(
                        self,
                    ).definitions@[m],
                forall|m: int|
                    0 <= m < base ==> #[trigger] self.loaded@[m] == old(self).loaded@[m],
                forall|k: int|
                    0 <= k < i ==> spec_texture_def_matches(
                        #[trigger] self.definitions@[base + k],
                        wad.file@,
                        spec_texture_record_off(wad.file@, off as int, k),
                    ),
                forall|k: int|
                    base <= k < base + i ==> 0 <= (#[trigger] self.definitions@[k]).width && 0
                        <= self.definitions@[k].height && self.loaded@[k] is None,
            decreases count - i,
        {
            let rel = wad.read_u32(off + 4 + 4 * i);
            if (off as u128) + (rel as u128) + 22 > flen as u128 {
                proof {
                    assert(!spec_texture_record_ok(wad.file@, off as int, i as int));
                }
                self.definitions.truncate(base);
                self.loaded.truncate(base);
                proof {
                    assert(self.definitions@ =~= old(self).definitions@);
                    assert(self.loaded@ =~= old(self).loaded@);
                }
                return Err(WadError::MalformedRecord);
            }
            let ro = off + rel as usize;
            let name = wad.read_lump_name(ro);
            let width = wad.read_i16(ro + 12);
            let height = wad.read_i16(ro + 14);
            let patch_count = wad.read_i16(ro + 20);
            if width < 0 || height < 0 || patch_count < 0 {
                proof {
                    assert(!spec_texture_record_ok(wad.file@, off as int, i as int));
                }
                self.definitions.truncate(base);
                self.loaded.truncate(base);
                proof {
                    assert(self.definitions@ =~= old(self).definitions@);
                    assert(self.loaded@ =~= old(self).loaded@);
                }
                return Err(WadError::MalformedRecord);
            }
            if (ro as u128) + 22 + 10 * (patch_count as u128) > flen as u128 {
                proof {
                    assert(!spec_texture_record_ok(wad.file@, off as int, i as int));
                }
                self.definitions.truncate(base);
                self.loaded.truncate(base);
                proof {
                    assert(self.definitions@ =~= old(self).definitions@);
                    assert(self.loaded@ =~= old(self).loaded@);
                }
                return Err(WadError::MalformedRecord);
            }

            let mut patches: Vec<Patch> = Vec::new();
            let mut j: usize = 0;
            while j < patch_count as usize
                invariant
                    wad.wf(),
                    flen == wad.file@.len(),
                    ro + 22 + 10 * patch_count <= flen,
                    0 <= patch_count,
                    patches@.len() == j,
                    j <= patch_count,
                    forall|k: int|
                        0 <= k < j ==> {
                            &&& (#[trigger] patches@[k]).origin_x == spec_i16_at(
                                wad.file@,
                                ro + 22 + 10 * k,
                            )
                            &&& patches@[k].origin_y == spec_i16_at(
                                wad.file@,
                                ro + 22 + 10 * k + 2,
                            )
                            &&& patches@[k].patch_number == spec_i16_at(
                                wad.file@,
                                ro + 22 + 10 * k + 4,
                            )
                        },
                decreases patch_count - j,
            {
                let patch_offset = ro + 22 + 10 * j;
                patches.push(Patch {
                    origin_x: wad.read_i16(patch_offset),
                    origin_y: wad.read_i16(patch_offset + 2),
                    patch_number: wad.read_i16(patch_offset + 4),
                });
                j = j + 1;
            }

            self.definitions.push(TextureDefinition { name, width, height, patches });
            self.loaded.push(None);
            i = i + 1;
        }
        proof {
            assert forall|i2: int|
                base <= i2 < self.definitions@.len() implies spec_texture_def_matches(
                self.definitions@[i2],
                wad.file@,
                spec_texture_record_off(wad.file@, off as int, i2 - base),
            ) by {
                let k = i2 - base;
                assert(spec_texture_def_matches(
                    self.definitions@[base + k],
                    wad.file@,
                    spec_texture_record_off(wad.file@, off as int, k),
                ));
            }
        }
        Ok(())
    }

    /// Fetch a texture by name, composing and caching it on first request:
    /// the first definition carrying the name is served, a cached texture
    /// is returned as it is without recomposition, and no other cache slot
    /// changes. Succeeds exactly when the name has a definition whose
    /// texture is cached or composes; it fails with `UnknownTexture` when
    /// no definition carries the name.
    pub fn get(&mut self, wad: &WadFile, name: &Vec<u8>) -> (r: Result<usize, WadError>)
        requires
            old(self).wf(),
            *wad == old(self).wad_snap@,
        ensures
            final(self).wf(),
            final(self).wad_snap@ == old(self).wad_snap@,
            final(self).definitions@ == old(self).definitions@,
            final(self).pnames@ == old(self).pnames@,
            match r {
                Ok(i) => {
                    &&& i < final(self).definitions@.len()
                    &&& Some(i as int) == spec_find_def(
                        old(self).definitions@,
                        spec_upper_seq(name@),
                        0,
                    )
                    &&& final(self).definitions@[i as int].name@ == spec_upper_seq(name@)
                    &&& final(self).loaded@[i as int] matches Some(t) && spec_texture_matches(
                        t,
                        final(self).definitions@[i as int],
                        final(self).pnames@,
                        *wad,
                    )
                    &&& (old(self).loaded@[i as int] matches Some(t0)
                        ==> final(self).loaded@[i as int] == Some(t0))
                    &&& forall|j: int|
                        0 <= j < old(self).loaded@.len() && j != i
                            ==> #[trigger] final(self).loaded@[j] == old(self).loaded@[j]
                },
                Err(e) => final(self).loaded@ == old(self).loaded@ && (match spec_find_def(
                    old(self).definitions@,
                    spec_upper_seq(name@),
                    0,
                ) {
                    Some(fi) => old(self).loaded@[fi] is None && !(forall|j: int|
                        0 <= j < old(self).definitions@[fi].patches@.len() ==> spec_patch_ok(
                            #[trigger] old(self).definitions@[fi].patches@[j],
                            old(self).pnames@,
                            *wad,
                        )),
                    None => e == WadError::UnknownTexture,
                }),
            },
            (spec_find_def(old(self).definitions@, spec_upper_seq(name@), 0) matches Some(fi) && (
            old(self).loaded@[fi] is Some || (forall|j: int|
                0 <= j < old(self).definitions@[fi].patches@.len() ==> spec_patch_ok(
                    #[trigger] old(self).definitions@[fi].patches@[j],
                    old(self).pnames@,
                    *wad,
                )))) ==> r is Ok,
    {
        let canonical = upper_bytes(name);
        let mut i: usize = 0;
        while i < self.definitions.len()
            invariant
                old(self).wf(),
                *self == *old(self),
                *wad == old(self).wad_snap@,
                canonical@ == spec_upper_seq(name@),
                i <= self.definitions@.len(),
                forall|k: int|
                    0 <= k < i ==> (#[trigger] self.definitions@[k]).name@ != canonical@,
                spec_find_def(self.definitions@, canonical@, 0) == spec_find_def(
                    self.definitions@,
                    canonical@,
                    i as int,
                ),
            decreases self.definitions@.len() - i,
        {
            if bytes_eq(&self.definitions[i].name, &canonical) {
                if self.loaded[i].is_some() {
                    return Ok(i);
                }
                let texture = match Texture::load(&self.definitions[i], wad, &self.pnames) {
                    Ok(t) => t,
                    Err(e) => {
                        return Err(e);
                    },
                };
                self.loaded.set(i, Some(texture));
                return Ok(i);
            }
            i = i + 1;
        }
        Err(WadError::UnknownTexture)
    }

    /// Access a composed texture.
    pub fn texture(&self, index: usize) -> (r: &Texture)
        requires
            index < self.loaded@.len(),
            self.loaded@[index as int] is Some,
        ensures
            *r == self.loaded@[index as int].unwrap(),
    {
        self.loaded[index].as_ref().unwrap()
    }
}

} // verus!
