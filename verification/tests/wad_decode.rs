use doomrs::bitmap::Bitmap;
use doomrs::errors::WadError;
use doomrs::flats::{animation_phase, Flat, Flats};
use doomrs::palette::Palette;
use doomrs::pictures::Picture;
use doomrs::sky::{get_sky_texture, sky_number};
use doomrs::sprites::Sprites;
use doomrs::textures::Textures;
use doomrs::wad::{Header, MapLumpName, WadFile};

// ---------------------------------------------------------------------
// A tiny IWAD builder for the tests.
// ---------------------------------------------------------------------

struct WadBuilder {
    lumps: Vec<(String, Vec<u8>)>,
}

impl WadBuilder {
    fn new() -> WadBuilder {
        WadBuilder { lumps: Vec::new() }
    }

    fn add(&mut self, name: &str, data: Vec<u8>) -> &mut Self {
        self.lumps.push((name.to_string(), data));
        self
    }

    fn build(&self) -> Vec<u8> {
        let mut file = vec![b'I', b'W', b'A', b'D'];
        file.extend_from_slice(&(self.lumps.len() as u32).to_le_bytes());
        let mut data_section: Vec<u8> = Vec::new();
        let mut entries: Vec<(u32, u32, &str)> = Vec::new();
        let mut offset = 12u32;
        for (name, data) in &self.lumps {
            entries.push((offset, data.len() as u32, name));
            data_section.extend_from_slice(data);
            offset += data.len() as u32;
        }
        file.extend_from_slice(&offset.to_le_bytes());
        file.extend_from_slice(&data_section);
        for (off, size, name) in entries {
            file.extend_from_slice(&off.to_le_bytes());
            file.extend_from_slice(&size.to_le_bytes());
            let mut n = name.as_bytes().to_vec();
            n.resize(8, 0);
            file.extend_from_slice(&n);
        }
        file
    }
}

fn bytes(name: &str) -> Vec<u8> {
    name.as_bytes().to_vec()
}

/// A picture lump: column-major posts.
/// `columns[x]` is a list of posts `(y_offset, data)`.
fn picture_lump(
    width: i16,
    height: i16,
    left: i16,
    top: i16,
    columns: &[Vec<(u8, Vec<u8>)>],
) -> Vec<u8> {
    assert_eq!(columns.len(), width as usize);
    let mut lump: Vec<u8> = Vec::new();
    lump.extend_from_slice(&width.to_le_bytes());
    lump.extend_from_slice(&height.to_le_bytes());
    lump.extend_from_slice(&left.to_le_bytes());
    lump.extend_from_slice(&top.to_le_bytes());
    let mut col_data: Vec<Vec<u8>> = Vec::new();
    for posts in columns {
        let mut c: Vec<u8> = Vec::new();
        for (y, data) in posts {
            c.push(*y);
            c.push(data.len() as u8);
            c.push(0);
            c.extend_from_slice(data);
            c.push(0);
        }
        c.push(0xFF);
        col_data.push(c);
    }
    let mut offset = 8 + 4 * width as u32;
    for c in &col_data {
        lump.extend_from_slice(&offset.to_le_bytes());
        offset += c.len() as u32;
    }
    for c in &col_data {
        lump.extend_from_slice(c);
    }
    lump
}

fn playpal() -> Vec<u8> {
    (0..768u32).map(|i| (i % 251) as u8).collect()
}

fn base_wad() -> WadBuilder {
    let mut b = WadBuilder::new();
    b.add("PLAYPAL", playpal());
    b.add("S_START", vec![]);
    b.add("S_END", vec![]);
    b
}

fn load(b: &WadBuilder) -> WadFile {
    WadFile::new(b.build()).expect("wad should load")
}

// ---------------------------------------------------------------------
// Container and directory.
// ---------------------------------------------------------------------

#[test]
fn header_reads_fields() {
    let file = base_wad().build();
    let header = Header::read(&file).unwrap();
    assert!(header.iwad);
    assert_eq!(header.lump_count, 3);
}

#[test]
fn bad_magic_is_invalid_container() {
    let mut file = base_wad().build();
    file[0] = b'P';
    match WadFile::new(file) {
        Err(WadError::InvalidContainer) => (),
        _ => panic!("expected InvalidContainer"),
    }
}

#[test]
fn truncated_directory_is_malformed() {
    let mut file = base_wad().build();
    // Claim one more lump than the directory holds.
    let count = 4u32.to_le_bytes();
    file[4..8].copy_from_slice(&count);
    match WadFile::new(file) {
        Err(WadError::MalformedRecord) => (),
        _ => panic!("expected MalformedRecord"),
    }
}

#[test]
fn lookup_is_case_insensitive_and_missing_fails() {
    let wad = load(&base_wad());
    let entry = wad.get_dir_entry(&bytes("playpal")).unwrap();
    assert_eq!(entry.name, bytes("PLAYPAL"));
    assert_eq!(entry.size, 768);
    match wad.get_dir_entry(&bytes("NOPE")) {
        Err(WadError::MissingLump) => (),
        _ => panic!("expected MissingLump"),
    }
}

#[test]
fn duplicate_names_resolve_to_the_last_entry() {
    let mut b = base_wad();
    b.add("DUP", vec![1, 2, 3]);
    b.add("DUP", vec![4, 5]);
    let wad = load(&b);
    let entry = wad.get_dir_entry(&bytes("DUP")).unwrap();
    assert_eq!(entry.size, 2);
}

#[test]
fn map_lump_is_found_by_position() {
    let mut b = base_wad();
    b.add("E1M1", vec![]);
    b.add("THINGS", vec![0; 10]);
    b.add("LINEDEFS", vec![]);
    let wad = load(&b);
    let entry = wad
        .get_dir_entry_for_map_lump(&bytes("e1m1"), MapLumpName::Things)
        .unwrap();
    assert_eq!(entry.name, bytes("THINGS"));
    assert_eq!(entry.size, 10);
}

#[test]
fn missing_map_marker_fails_with_missing_lump() {
    let wad = load(&base_wad());
    match wad.get_dir_entry_for_map_lump(&bytes("nope"), MapLumpName::Things) {
        Err(WadError::MissingLump) => (),
        _ => panic!("expected MissingLump"),
    }
}

// ---------------------------------------------------------------------
// Palette: the round trip over every index.
// ---------------------------------------------------------------------

#[test]
fn palette_round_trip_every_index() {
    let wad = load(&base_wad());
    let palette = Palette::new(&wad).unwrap();
    let raw = playpal();
    for b in 0u16..=255 {
        let c = palette.get(b as u8);
        assert_eq!(c.r, raw[3 * b as usize]);
        assert_eq!(c.g, raw[3 * b as usize + 1]);
        assert_eq!(c.b, raw[3 * b as usize + 2]);
    }
}

#[test]
fn short_palette_is_malformed() {
    let mut b = base_wad();
    b.lumps[0].1 = vec![0; 100];
    let wad = load(&b);
    match Palette::new(&wad) {
        Err(WadError::MalformedRecord) => (),
        _ => panic!("expected MalformedRecord"),
    }
}

// ---------------------------------------------------------------------
// Pictures: posts, transparency, and the mirror identity.
// ---------------------------------------------------------------------

fn sample_picture_wad() -> WadBuilder {
    let mut b = base_wad();
    // 2 columns, 4 rows. Column 0: one post at y=1 with two bytes.
    // Column 1: two posts, the second overlapping nothing.
    let lump = picture_lump(
        2,
        4,
        1,
        3,
        &[
            vec![(1, vec![10, 11])],
            vec![(0, vec![20]), (2, vec![30, 31])],
        ],
    );
    b.add("PIC", lump);
    b
}

#[test]
fn picture_decodes_posts_and_transparency() {
    let wad = load(&sample_picture_wad());
    let pic = Picture::new(&wad, &bytes("PIC")).unwrap();
    assert_eq!(pic.bitmap.width, 2);
    assert_eq!(pic.bitmap.height, 4);
    assert_eq!(pic.left_offset, 1);
    assert_eq!(pic.top_offset, 3);
    let g = &pic.bitmap.pixels;
    // Column 0: transparent, 10, 11, transparent.
    assert_eq!(g[0][0], None);
    assert_eq!(g[1][0], Some(10));
    assert_eq!(g[2][0], Some(11));
    assert_eq!(g[3][0], None);
    // Column 1: 20, transparent, 30, 31.
    assert_eq!(g[0][1], Some(20));
    assert_eq!(g[1][1], None);
    assert_eq!(g[2][1], Some(30));
    assert_eq!(g[3][1], Some(31));
}

#[test]
fn picture_without_terminator_is_malformed() {
    let mut b = base_wad();
    let mut lump = picture_lump(1, 2, 0, 0, &[vec![(0, vec![1])]]);
    let len = lump.len();
    lump.truncate(len - 1); // cut the 0xFF terminator
    b.add("BADPIC", lump);
    let wad = load(&b);
    match Picture::new(&wad, &bytes("BADPIC")) {
        Err(WadError::MalformedRecord) => (),
        _ => panic!("expected MalformedRecord"),
    }
}

#[test]
fn mirror_twice_is_identity() {
    let wad = load(&sample_picture_wad());
    let pic = Picture::new(&wad, &bytes("PIC")).unwrap();
    let twice = pic.mirror().mirror();
    assert_eq!(pic.bitmap.pixels, twice.bitmap.pixels);
    assert_eq!(pic.left_offset, twice.left_offset);
    assert_eq!(pic.top_offset, twice.top_offset);
}

#[test]
fn mirror_flips_columns() {
    let wad = load(&sample_picture_wad());
    let pic = Picture::new(&wad, &bytes("PIC")).unwrap();
    let m = pic.mirror();
    for y in 0..4 {
        assert_eq!(m.bitmap.pixels[y][0], pic.bitmap.pixels[y][1]);
        assert_eq!(m.bitmap.pixels[y][1], pic.bitmap.pixels[y][0]);
    }
}

#[test]
fn bitmap_new_keeps_grid() {
    let grid = vec![vec![Some(1u8), None], vec![None, Some(4)]];
    let bm = Bitmap::new(2, 2, grid.clone());
    assert_eq!(bm.pixels, grid);
}

// ---------------------------------------------------------------------
// Flats: raw tiles and the animation table.
// ---------------------------------------------------------------------

fn flat_lump(seed: u8) -> Vec<u8> {
    (0..4096u32).map(|i| (i as u8).wrapping_add(seed)).collect()
}

#[test]
fn flat_decodes_row_major() {
    let mut b = base_wad();
    b.add("FLOOR4_8", flat_lump(7));
    let wad = load(&b);
    let flat = Flat::new(&wad, &bytes("FLOOR4_8")).unwrap();
    let raw = flat_lump(7);
    for y in 0..64 {
        for x in 0..64 {
            assert_eq!(flat.pixels[y][x], raw[y * 64 + x]);
        }
    }
}

#[test]
fn short_flat_is_malformed() {
    let mut b = base_wad();
    b.add("SHORT", vec![0; 100]);
    let wad = load(&b);
    match Flat::new(&wad, &bytes("SHORT")) {
        Err(WadError::MalformedRecord) => (),
        _ => panic!("expected MalformedRecord"),
    }
}

#[test]
fn flats_store_caches_and_animates() {
    let mut b = base_wad();
    b.add("NUKAGE1", flat_lump(1));
    b.add("NUKAGE2", flat_lump(2));
    b.add("NUKAGE3", flat_lump(3));
    b.add("FLOOR4_8", flat_lump(9));
    let wad = load(&b);
    let mut flats = Flats::new(&wad);

    // A plain flat resolves to itself whatever the time.
    let i = flats.get_animated(&wad, &bytes("FLOOR4_8"), 123).unwrap();
    assert_eq!(flats.flat(i).name, bytes("FLOOR4_8"));

    // An animated name cycles three frames a second.
    let a0 = flats.get_animated(&wad, &bytes("NUKAGE2"), 0).unwrap();
    assert_eq!(flats.flat(a0).name, bytes("NUKAGE1"));
    let a1 = flats.get_animated(&wad, &bytes("NUKAGE2"), 400).unwrap();
    assert_eq!(flats.flat(a1).name, bytes("NUKAGE2"));
    let a2 = flats.get_animated(&wad, &bytes("NUKAGE2"), 700).unwrap();
    assert_eq!(flats.flat(a2).name, bytes("NUKAGE3"));
    // The next second starts the cycle again.
    let a3 = flats.get_animated(&wad, &bytes("NUKAGE2"), 1100).unwrap();
    assert_eq!(flats.flat(a3).name, bytes("NUKAGE1"));

    // The cache serves repeated requests from the same slot.
    let again = flats.get(&wad, &bytes("FLOOR4_8")).unwrap();
    assert_eq!(again, i);
}

#[test]
fn animation_phase_is_three_per_second() {
    assert_eq!(animation_phase(0), 0);
    assert_eq!(animation_phase(333), 0);
    assert_eq!(animation_phase(334), 1);
    assert_eq!(animation_phase(999), 2);
    assert_eq!(animation_phase(2000), 0);
}

// ---------------------------------------------------------------------
// Textures: composition from patches, and its idempotence.
// ---------------------------------------------------------------------

fn texture_wad() -> WadBuilder {
    let mut b = base_wad();
    // Two 2x2 patches; PATCHB has a transparent cell.
    b.add(
        "PATCHA",
        picture_lump(2, 2, 0, 0, &[vec![(0, vec![1, 2])], vec![(0, vec![3, 4])]]),
    );
    b.add(
        "PATCHB",
        picture_lump(2, 2, 0, 0, &[vec![(1, vec![9])], vec![]]),
    );
    // PNAMES: 2 names.
    let mut pnames = 2u32.to_le_bytes().to_vec();
    for n in ["PATCHA", "PATCHB"] {
        let mut v = n.as_bytes().to_vec();
        v.resize(8, 0);
        pnames.extend_from_slice(&v);
    }
    b.add("PNAMES", pnames);
    // TEXTURE1: one 2x2 texture from PATCHA at (0,0) and PATCHB at (0,0).
    let mut tex = Vec::new();
    tex.extend_from_slice(&1u32.to_le_bytes());
    tex.extend_from_slice(&8u32.to_le_bytes()); // record offset
    let mut rec = b"WALL\0\0\0\0".to_vec();
    rec.extend_from_slice(&[0; 4]);
    rec.extend_from_slice(&2i16.to_le_bytes()); // width
    rec.extend_from_slice(&2i16.to_le_bytes()); // height
    rec.extend_from_slice(&[0; 4]);
    rec.extend_from_slice(&2i16.to_le_bytes()); // patch count
    for pnum in [0i16, 1] {
        rec.extend_from_slice(&0i16.to_le_bytes()); // origin x
        rec.extend_from_slice(&0i16.to_le_bytes()); // origin y
        rec.extend_from_slice(&pnum.to_le_bytes());
        rec.extend_from_slice(&[0; 4]);
    }
    tex.extend_from_slice(&rec);
    b.add("TEXTURE1", tex);
    b
}

#[test]
fn texture_composes_last_opaque_patch() {
    let wad = load(&texture_wad());
    let mut textures = Textures::new(&wad).unwrap();
    let i = textures.get(&wad, &bytes("WALL")).unwrap();
    let t = textures.texture(i);
    assert_eq!(t.width, 2);
    assert_eq!(t.height, 2);
    // PATCHA gives [[1,3],[2,4]]; PATCHB overwrites (0,1) with 9.
    assert_eq!(t.pixels[0][0], 1);
    assert_eq!(t.pixels[0][1], 3);
    assert_eq!(t.pixels[1][0], 9);
    assert_eq!(t.pixels[1][1], 4);
}

#[test]
fn texture_composition_is_idempotent() {
    let wad = load(&texture_wad());
    let mut t1 = Textures::new(&wad).unwrap();
    let mut t2 = Textures::new(&wad).unwrap();
    let i1 = t1.get(&wad, &bytes("WALL")).unwrap();
    let i2 = t2.get(&wad, &bytes("WALL")).unwrap();
    // Composing the same definition twice yields bitwise-equal grids,
    // and a cached re-request serves the identical texture.
    assert_eq!(t1.texture(i1).pixels, t2.texture(i2).pixels);
    let i1b = t1.get(&wad, &bytes("WALL")).unwrap();
    assert_eq!(i1, i1b);
}

#[test]
fn unknown_texture_is_reported() {
    let wad = load(&texture_wad());
    let mut textures = Textures::new(&wad).unwrap();
    match textures.get(&wad, &bytes("NOPE")) {
        Err(WadError::UnknownTexture) => (),
        _ => panic!("expected UnknownTexture"),
    }
}

// ---------------------------------------------------------------------
// Sprites: frame grouping and rotations.
// ---------------------------------------------------------------------

fn sprite_wad() -> WadBuilder {
    let mut b = WadBuilder::new();
    b.add("PLAYPAL", playpal());
    b.add("S_START", vec![]);
    // Frame A: rotations 1..8, 2/8 3/7 4/6 served by mirrors.
    b.add(
        "TROOA1",
        picture_lump(2, 1, 0, 0, &[vec![(0, vec![1])], vec![(0, vec![2])]]),
    );
    b.add(
        "TROOA2A8",
        picture_lump(2, 1, 0, 0, &[vec![(0, vec![3])], vec![(0, vec![4])]]),
    );
    b.add(
        "TROOA3A7",
        picture_lump(2, 1, 0, 0, &[vec![(0, vec![5])], vec![(0, vec![6])]]),
    );
    b.add(
        "TROOA4A6",
        picture_lump(2, 1, 0, 0, &[vec![(0, vec![7])], vec![(0, vec![8])]]),
    );
    b.add(
        "TROOA5",
        picture_lump(2, 1, 0, 0, &[vec![(0, vec![9])], vec![(0, vec![10])]]),
    );
    // Frame B: a single non-rotated view.
    b.add(
        "TROOB0",
        picture_lump(1, 1, 0, 0, &[vec![(0, vec![42])]]),
    );
    b.add("S_END", vec![]);
    b
}

#[test]
fn sprites_group_rotations_and_mirrors() {
    let wad = load(&sprite_wad());
    let sprites = Sprites::new(&wad, vec![bytes("TROO")]).unwrap();

    // Rotation 0 of frame A is the rotation-1 picture (index 0).
    let p1 = sprites.get_picture(0, 0, 0).unwrap();
    assert_eq!(p1.bitmap.pixels[0][0], Some(1));
    assert_eq!(p1.bitmap.pixels[0][1], Some(2));

    // Rotation 7 (stored rotation 8) is the mirror of TROOA2A8.
    let p8 = sprites.get_picture(0, 0, 7).unwrap();
    assert_eq!(p8.bitmap.pixels[0][0], Some(4));
    assert_eq!(p8.bitmap.pixels[0][1], Some(3));

    // Frame B serves its single view for every rotation.
    let pb0 = sprites.get_picture(0, 1, 0).unwrap();
    let pb5 = sprites.get_picture(0, 1, 5).unwrap();
    assert_eq!(pb0.bitmap.pixels[0][0], Some(42));
    assert_eq!(pb5.bitmap.pixels[0][0], Some(42));
}

#[test]
fn unknown_sprite_lookups_fail() {
    let wad = load(&sprite_wad());
    let sprites = Sprites::new(&wad, vec![bytes("TROO")]).unwrap();
    assert!(matches!(
        sprites.get_picture(1, 0, 0),
        Err(WadError::UnknownSprite)
    ));
    assert!(matches!(
        sprites.get_picture(0, 9, 0),
        Err(WadError::UnknownSprite)
    ));
    assert!(matches!(
        sprites.get_picture(0, 0, 8),
        Err(WadError::UnknownSprite)
    ));
}

#[test]
fn incomplete_rotation_set_is_malformed() {
    let mut b = WadBuilder::new();
    b.add("PLAYPAL", playpal());
    b.add("S_START", vec![]);
    b.add("HEADA1", picture_lump(1, 1, 0, 0, &[vec![(0, vec![1])]]));
    b.add("HEADA2", picture_lump(1, 1, 0, 0, &[vec![(0, vec![2])]]));
    b.add("S_END", vec![]);
    let wad = load(&b);
    match Sprites::new(&wad, vec![bytes("HEAD")]) {
        Err(WadError::MalformedRecord) => (),
        _ => panic!("expected MalformedRecord"),
    }
}

// ---------------------------------------------------------------------
// Sky selection.
// ---------------------------------------------------------------------

#[test]
fn sky_number_maps_episodes_and_bands() {
    assert_eq!(sky_number(Some((1, 1)), None), 1);
    assert_eq!(sky_number(Some((2, 7)), None), 2);
    assert_eq!(sky_number(Some((3, 2)), None), 3);
    assert_eq!(sky_number(Some((9, 1)), None), 1);
    assert_eq!(sky_number(None, Some(5)), 1);
    assert_eq!(sky_number(None, Some(12)), 2);
    assert_eq!(sky_number(None, Some(25)), 3);
    assert_eq!(sky_number(None, None), 1);
}

#[test]
fn sky_texture_follows_the_map_name() {
    let mut b = texture_wad();
    // Add SKY1 and SKY2 textures reusing PATCHA.
    let mut tex = Vec::new();
    tex.extend_from_slice(&2u32.to_le_bytes());
    tex.extend_from_slice(&12u32.to_le_bytes());
    tex.extend_from_slice(&(12u32 + 32).to_le_bytes());
    for name in ["SKY1", "SKY2"] {
        let mut rec = name.as_bytes().to_vec();
        rec.resize(8, 0);
        rec.extend_from_slice(&[0; 4]);
        rec.extend_from_slice(&2i16.to_le_bytes());
        rec.extend_from_slice(&2i16.to_le_bytes());
        rec.extend_from_slice(&[0; 4]);
        rec.extend_from_slice(&1i16.to_le_bytes());
        rec.extend_from_slice(&0i16.to_le_bytes());
        rec.extend_from_slice(&0i16.to_le_bytes());
        rec.extend_from_slice(&0i16.to_le_bytes());
        rec.extend_from_slice(&[0; 4]);
        tex.extend_from_slice(&rec);
    }
    b.add("TEXTURE2", tex);
    let wad = load(&b);
    let mut textures = Textures::new(&wad).unwrap();

    let i1 = get_sky_texture(&mut textures, &wad, "e1m1").unwrap();
    assert_eq!(textures.definitions[i1].name, bytes("SKY1"));
    let i2 = get_sky_texture(&mut textures, &wad, "e2m4").unwrap();
    assert_eq!(textures.definitions[i2].name, bytes("SKY2"));
    let i3 = get_sky_texture(&mut textures, &wad, "nope").unwrap();
    assert_eq!(textures.definitions[i3].name, bytes("SKY1"));
}

// ---------------------------------------------------------------------
// The picture store and the in-place pixel decoder.
// ---------------------------------------------------------------------

#[test]
fn picture_store_caches_by_name() {
    let wad = load(&sample_picture_wad());
    let mut pictures = doomrs::pictures::Pictures::new(&wad);
    let i = pictures.get(&wad, &bytes("pic")).unwrap();
    assert_eq!(pictures.picture(i).name, bytes("PIC"));
    assert_eq!(pictures.picture(i).bitmap.width, 2);
    let j = pictures.get(&wad, &bytes("PIC")).unwrap();
    assert_eq!(i, j);
    assert!(matches!(
        pictures.get(&wad, &bytes("NOPE")),
        Err(WadError::MissingLump)
    ));
}

#[test]
fn read_pixels_fills_a_prepared_bitmap() {
    let wad = load(&sample_picture_wad());
    let entry_offset = wad.get_dir_entry(&bytes("PIC")).unwrap().offset;
    let mut bitmap = Bitmap::transparent(2, 4);
    Picture::read_pixels(&wad, entry_offset, &mut bitmap).unwrap();
    assert_eq!(bitmap.pixels[1][0], Some(10));
    assert_eq!(bitmap.pixels[0][1], Some(20));
    assert_eq!(bitmap.pixels[1][1], None);
}
