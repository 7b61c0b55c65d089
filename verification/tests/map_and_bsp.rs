use doomrs::bsp::{find_subsector, get_sector_from_vertex};
use doomrs::errors::WadError;
use doomrs::lights::initial_light_levels;
use doomrs::map::MapData;
use doomrs::map_objects::{MapObjects, StateDef};
use doomrs::thinkers::{init_thinkers, Thinker};
use doomrs::things::{get_thing_by_type, load_things, ThingTypes};
use doomrs::vertexes::load_vertexes;
use doomrs::wad::WadFile;

struct WadBuilder {
    lumps: Vec<(String, Vec<u8>)>,
}

impl WadBuilder {
    fn new() -> WadBuilder {
        WadBuilder { lumps: Vec::new() }
    }

    fn add(&mut self, name: &str, data: Vec<u8>) -> &mut Self {
        self.lumps.push((name.to_string(), data));
        self
    }

    fn build(&self) -> Vec<u8> {
        let mut file = vec![b'I', b'W', b'A', b'D'];
        file.extend_from_slice(&(self.lumps.len() as u32).to_le_bytes());
        let mut data_section: Vec<u8> = Vec::new();
        let mut entries: Vec<(u32, u32, &str)> = Vec::new();
        let mut offset = 12u32;
        for (name, data) in &self.lumps {
            entries.push((offset, data.len() as u32, name));
            data_section.extend_from_slice(data);
            offset += data.len() as u32;
        }
        file.extend_from_slice(&offset.to_le_bytes());
        file.extend_from_slice(&data_section);
        for (off, size, name) in entries {
            file.extend_from_slice(&off.to_le_bytes());
            file.extend_from_slice(&size.to_le_bytes());
            let mut n = name.as_bytes().to_vec();
            n.resize(8, 0);
            file.extend_from_slice(&n);
        }
        file
    }
}

fn bytes(name: &str) -> Vec<u8> {
    name.as_bytes().to_vec()
}

fn i16s(values: &[i16]) -> Vec<u8> {
    let mut v = Vec::new();
    for x in values {
        v.extend_from_slice(&x.to_le_bytes());
    }
    v
}

fn name8(s: &str) -> Vec<u8> {
    let mut v = s.as_bytes().to_vec();
    v.resize(8, 0);
    v
}

fn sector_record(floor: i16, ceil: i16, floor_flat: &str, ceil_flat: &str, light: i16, special: i16, tag: i16) -> Vec<u8> {
    let mut v = i16s(&[floor, ceil]);
    v.extend_from_slice(&name8(floor_flat));
    v.extend_from_slice(&name8(ceil_flat));
    v.extend_from_slice(&i16s(&[light, special, tag]));
    v
}

fn sidedef_record(xoff: i16, yoff: i16, upper: &str, lower: &str, middle: &str, sector: i16) -> Vec<u8> {
    let mut v = i16s(&[xoff, yoff]);
    v.extend_from_slice(&name8(upper));
    v.extend_from_slice(&name8(lower));
    v.extend_from_slice(&name8(middle));
    v.extend_from_slice(&i16s(&[sector]));
    v
}

/// A square map with two sectors and a two-node BSP: points with x <= 32
/// land in subsector 1 (sector 1), points right of it in subsector 0
/// (sector 0).
fn map_wad() -> WadBuilder {
    let mut b = WadBuilder::new();
    b.add("E1M1", vec![]);
    // THINGS: a player 1 start and one map object (type 2035).
    let mut things = i16s(&[32, 32, 90, 1, 0]);
    things.extend_from_slice(&i16s(&[40, 40, 0, 2035, 7]));
    b.add("THINGS", things);
    // LINEDEFS: ld0 two-sided v0->v1 front sd0 back sd1; ld1 v1->v2 one-sided.
    let mut linedefs = i16s(&[0, 1, 4, 0, 0, 0, 1]);
    linedefs.extend_from_slice(&i16s(&[1, 2, 1, 0, 0, 0, -1]));
    b.add("LINEDEFS", linedefs);
    // SIDEDEFS: sd0 -> sector 0, sd1 -> sector 1.
    let mut sidedefs = sidedef_record(4, 8, "-", "-", "STARTAN3", 0);
    sidedefs.extend_from_slice(&sidedef_record(0, 0, "-", "-", "-", 1));
    b.add("SIDEDEFS", sidedefs);
    // VERTEXES: a 64 by 64 square.
    b.add("VERTEXES", i16s(&[0, 0, 64, 0, 64, 64, 0, 64]));
    // SEGS: seg0 on ld0 (front side), seg1 on ld0 from the back side.
    let mut segs = i16s(&[0, 1, 0, 0, 0, 0]);
    segs.extend_from_slice(&i16s(&[1, 0, 0, 0, 1, 0]));
    b.add("SEGS", segs);
    // SSECTORS: subsector 0 holds seg 0, subsector 1 holds seg 1.
    let mut ssectors = i16s(&[1, 0]);
    ssectors.extend_from_slice(&i16s(&[1, 1]));
    b.add("SSECTORS", ssectors);
    // NODES: node 0 splits nothing (both children subsector 0); node 1 is
    // the root, left child subsector 1, right child node 0. The partition
    // line runs up through x = 32.
    let mut nodes = i16s(&[32, 0, 0, 64, 0, 0, 0, 0, 0, 0, 0, 0]);
    nodes.extend_from_slice(&(0x8000u16).to_le_bytes());
    nodes.extend_from_slice(&(0x8000u16).to_le_bytes());
    nodes.extend_from_slice(&i16s(&[32, 0, 0, 64, 0, 0, 0, 0, 0, 0, 0, 0]));
    nodes.extend_from_slice(&(0u16).to_le_bytes()); // right child: node 0
    nodes.extend_from_slice(&(0x8001u16).to_le_bytes()); // left child: subsector 1
    b.add("NODES", nodes);
    // SECTORS.
    let mut sectors = sector_record(0, 128, "FLOOR4_8", "CEIL3_5", 160, 0, 0);
    sectors.extend_from_slice(&sector_record(16, 112, "NUKAGE1", "F_SKY1", 96, 2, 0));
    b.add("SECTORS", sectors);
    b.add("REJECT", vec![]);
    b.add("BLOCKMAP", vec![]);
    b
}

fn load_map() -> MapData {
    let wad = WadFile::new(map_wad().build()).unwrap();
    MapData::new(&wad, &bytes("E1M1")).unwrap()
}

#[test]
fn map_loads_all_tables() {
    let map = load_map();
    assert_eq!(map.vertexes.len(), 4);
    assert_eq!(map.linedefs.len(), 2);
    assert_eq!(map.sidedefs.len(), 2);
    assert_eq!(map.segs.len(), 2);
    assert_eq!(map.subsectors.len(), 2);
    assert_eq!(map.nodes.len(), 2);
    assert_eq!(map.sectors.len(), 2);
    assert_eq!(map.things.len(), 2);
    assert_eq!(map.root_node, 1);

    assert_eq!(map.vertexes[2].x, 64);
    assert_eq!(map.vertexes[2].y, 64);
    assert_eq!(map.sectors[0].light_level, 160);
    assert_eq!(map.sectors[1].special_type, 2);
    assert_eq!(map.sectors[1].floor_texture, bytes("NUKAGE1"));
    assert_eq!(map.sidedefs[0].middle_texture, bytes("STARTAN3"));
    assert_eq!(map.linedefs[0].back_sidedef, Some(1));
    assert_eq!(map.linedefs[1].back_sidedef, None);
    assert!(map.segs[1].direction);

    // Bounding box spans the linedef endpoints.
    assert_eq!(map.bounding_box.left, 0);
    assert_eq!(map.bounding_box.right, 64);
    assert_eq!(map.bounding_box.top, 0);
    assert_eq!(map.bounding_box.bottom, 64);
}

#[test]
fn bsp_descends_by_partition_side() {
    let map = load_map();
    // Left of the partition: subsector 1 faces sector 1 (its seg runs
    // against the linedef, so the back sidedef is used).
    assert_eq!(find_subsector(&map, 10, 10), 1);
    assert_eq!(get_sector_from_vertex(&map, 10, 10), Some(1));
    // Right of the partition: node 0, then subsector 0, front sidedef.
    assert_eq!(find_subsector(&map, 50, 10), 0);
    assert_eq!(get_sector_from_vertex(&map, 50, 10), Some(0));
}

#[test]
fn bsp_descent_terminates_for_any_point() {
    let map = load_map();
    // Points far outside the map's bounding box still land in a leaf.
    for (x, y) in [(-30000, 30000), (30000, -30000), (0, 0), (-1, -1)] {
        let ss = find_subsector(&map, x, y);
        assert!(ss < map.subsectors.len());
    }
}

#[test]
fn player_start_is_found() {
    let map = load_map();
    let start = get_thing_by_type(&map.things, ThingTypes::Player1Start).unwrap();
    assert_eq!(start.x, 32);
    assert_eq!(start.y, 32);
    assert_eq!(start.angle_degrees, 90);
    assert!(get_thing_by_type(&map.things, ThingTypes::DeathMatchStart).is_none());
}

#[test]
fn loaders_reject_dangling_references() {
    let mut b = map_wad();
    // Point linedef 0's start vertex past the vertex table.
    for (name, data) in &mut b.lumps {
        if name == "LINEDEFS" {
            data[0..2].copy_from_slice(&99i16.to_le_bytes());
        }
    }
    let wad = WadFile::new(b.build()).unwrap();
    match MapData::new(&wad, &bytes("E1M1")) {
        Err(WadError::MalformedRecord) => (),
        _ => panic!("expected MalformedRecord"),
    }
}

#[test]
fn loading_a_missing_map_fails_with_missing_lump() {
    let wad = WadFile::new(map_wad().build()).unwrap();
    match MapData::new(&wad, &bytes("nope")) {
        Err(WadError::MissingLump) => (),
        _ => panic!("expected MissingLump"),
    }
}

#[test]
fn loaders_read_records_from_the_right_lumps() {
    let wad = WadFile::new(map_wad().build()).unwrap();
    let vertexes = load_vertexes(&wad, &bytes("E1M1")).unwrap();
    assert_eq!(vertexes.len(), 4);
    assert_eq!((vertexes[1].x, vertexes[1].y), (64, 0));
    let things = load_things(&wad, &bytes("E1M1")).unwrap();
    assert_eq!(things.len(), 2);
    assert_eq!(things[1].thing_type, 2035);
    assert_eq!(things[1].flags, 7);
}

#[test]
fn sector_specials_spawn_their_light_thinkers() {
    let map = load_map();
    let levels = initial_light_levels(&map.sectors);
    let states = vec![StateDef {
        sprite: 0,
        frame: 0,
        full_bright: false,
        tics: -1,
        next_state: 0,
    }];
    let objects = MapObjects::new(&map, &Vec::new());
    // With an empty descriptor table every thing is skipped.
    assert_eq!(objects.objects.len(), 0);

    let thinkers = init_thinkers(&map, &levels, &objects, &states);
    // Sector 1 has special type 2: a fast strobe on that sector.
    let strobe = thinkers.iter().find_map(|t| match t {
        Thinker::StrobeFlash(s) if s.sector == 1 => Some(*s),
        _ => None,
    });
    let strobe = strobe.expect("sector 1 should have a strobe thinker");
    assert_eq!(strobe.dark_time, 15);
    assert_eq!(strobe.bright_time, 5);
    assert_eq!(strobe.max_light, 96);
    // The only neighbour across the shared linedef has light 160, so the
    // surrounding minimum matches the sector's own level and drops to 0.
    assert_eq!(strobe.min_light, 0);
}
