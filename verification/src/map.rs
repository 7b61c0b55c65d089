use vstd::prelude::*;

use crate::bytes::spec_upper_seq;
use crate::errors::WadError;
use crate::geometry::BoundingBox;
use crate::linedefs::{
    load_linedefs, spec_linedef_in_range, spec_linedef_matches, spec_linedef_record_ok, Linedef,
};
use crate::nodes::{load_nodes, spec_node_matches, spec_node_record_ok, Node};
use crate::sectors::{load_sectors, spec_sector_matches, Sector};
use crate::segs::{load_segs, spec_seg_matches, spec_seg_record_ok, Seg};
use crate::sidedefs::{load_sidedefs, spec_sidedef_matches, spec_sidedef_record_ok, Sidedef};
use crate::subsectors::{
    load_subsectors, spec_subsector_matches, spec_subsector_record_ok, SubSector,
};
use crate::things::{load_things, spec_thing_matches, Thing};
use crate::vertexes::{load_vertexes, spec_vertex_matches, Vertex};
use crate::wad::{spec_map_lump_index, WadFile};

verus! {

/// One loaded map: all lump tables, with index-based cross references, the
/// BSP root, and the bounding box of all linedef endpoints.
pub struct MapData {
    pub things: Vec<Thing>,
    pub vertexes: Vec<Vertex>,
    pub linedefs: Vec<Linedef>,
    pub sidedefs: Vec<Sidedef>,
    pub segs: Vec<Seg>,
    pub subsectors: Vec<SubSector>,
    pub nodes: Vec<Node>,
    pub sectors: Vec<Sector>,
    /// Index of the BSP root: the last node.
    pub root_node: usize,
    pub bounding_box: BoundingBox,
}

/// The box grown to contain the point, as `BoundingBox::extend` grows it.
pub open spec fn spec_bbox_extend(bb: BoundingBox, x: int, y: int) -> BoundingBox {
    BoundingBox {
        left: if x < bb.left {
            x as i32
        } else {
            bb.left
        },
        right: if x > bb.right {
            x as i32
        } else {
            bb.right
        },
        top: if y < bb.top {
            y as i32
        } else {
            bb.top
        },
        bottom: if y > bb.bottom {
            y as i32
        } else {
            bb.bottom
        },
    }
}

/// The bounding box of the first `k` linedefs' endpoints: the empty box
/// grown by every start and end vertex in order.
pub open spec fn spec_linedef_bbox(
    linedefs: Seq<Linedef>,
    vertexes: Seq<Vertex>,
    k: int,
) -> BoundingBox
    decreases k,
{
    if k <= 0 {
        BoundingBox { top: i32::MAX, bottom: i32::MIN, left: i32::MAX, right: i32::MIN }
    } else {
        let prev = spec_linedef_bbox(linedefs, vertexes, k - 1);
        let l = linedefs[k - 1];
        let sv = vertexes[l.start_vertex as int];
        let ev = vertexes[l.end_vertex as int];
        spec_bbox_extend(
            spec_bbox_extend(prev, sv.x as int, sv.y as int),
            ev.x as int,
            ev.y as int,
        )
    }
}

/// The full 10-lump run of the map is present and every record of every
/// lump is well-formed, with all cross references in range — exactly the
/// condition under which loading is owed to succeed.
pub open spec fn spec_map_loadable(wad: WadFile, canonical: Seq<u8>) -> bool {
    &&& spec_map_lump_index(wad.dirs@, canonical, 1) is Some
    &&& spec_map_lump_index(wad.dirs@, canonical, 4) is Some
    &&& spec_map_lump_index(wad.dirs@, canonical, 8) is Some
    &&& spec_map_lump_index(wad.dirs@, canonical, 3) is Some
    &&& spec_map_lump_index(wad.dirs@, canonical, 2) is Some
    &&& spec_map_lump_index(wad.dirs@, canonical, 5) is Some
    &&& spec_map_lump_index(wad.dirs@, canonical, 6) is Some
    &&& spec_map_lump_index(wad.dirs@, canonical, 7) is Some
    &&& ({
        let b = wad.file@;
        let d8 = spec_map_lump_index(wad.dirs@, canonical, 8).unwrap();
        let d3 = spec_map_lump_index(wad.dirs@, canonical, 3).unwrap();
        let d4 = spec_map_lump_index(wad.dirs@, canonical, 4).unwrap();
        let d2 = spec_map_lump_index(wad.dirs@, canonical, 2).unwrap();
        let d5 = spec_map_lump_index(wad.dirs@, canonical, 5).unwrap();
        let d6 = spec_map_lump_index(wad.dirs@, canonical, 6).unwrap();
        let d7 = spec_map_lump_index(wad.dirs@, canonical, 7).unwrap();
        let n_sectors = wad.dirs@[d8].size as int / 26;
        let n_sidedefs = wad.dirs@[d3].size as int / 30;
        let n_vertexes = wad.dirs@[d4].size as int / 4;
        let n_linedefs = wad.dirs@[d2].size as int / 14;
        let n_segs = wad.dirs@[d5].size as int / 12;
        let n_subsectors = wad.dirs@[d6].size as int / 4;
        let n_nodes = wad.dirs@[d7].size as int / 28;
        &&& n_sectors <= 32767
        &&& n_sidedefs <= 32767
        &&& n_linedefs <= 32767
        &&& n_segs <= 32767
        &&& n_subsectors <= 32767
        &&& n_nodes >= 1
        &&& forall|i: int|
            0 <= i < n_sidedefs ==> #[trigger] spec_sidedef_record_ok(
                b,
                wad.dirs@[d3].offset as int,
                i,
                n_sectors,
            )
        &&& forall|i: int|
            0 <= i < n_linedefs ==> #[trigger] spec_linedef_record_ok(
                b,
                wad.dirs@[d2].offset as int,
                i,
                n_vertexes,
                n_sidedefs,
            )
        &&& forall|i: int|
            0 <= i < n_segs ==> #[trigger] spec_seg_record_ok(
                b,
                wad.dirs@[d5].offset as int,
                i,
                n_vertexes,
                n_linedefs,
            )
        &&& forall|i: int|
            0 <= i < n_subsectors ==> #[trigger] spec_subsector_record_ok(
                b,
                wad.dirs@[d6].offset as int,
                i,
                n_segs,
            )
        &&& forall|i: int|
            0 <= i < n_nodes ==> #[trigger] spec_node_record_ok(
                b,
                wad.dirs@[d7].offset as int,
                i,
                n_subsectors,
            )
    })
}

impl MapData {
    /// Every cross reference lands in its table, and node children refer
    /// only to earlier nodes, so BSP descent cannot loop.
    pub open spec fn wf(self) -> bool {
        &&& self.nodes@.len() > 0
        &&& self.root_node == self.nodes@.len() - 1
        &&& forall|i: int|
            0 <= i < self.nodes@.len() ==> (#[trigger] self.nodes@[i]).right_child.spec_in_range(
                i,
                self.subsectors@.len() as int,
            ) && self.nodes@[i].left_child.spec_in_range(i, self.subsectors@.len() as int)
        &&& forall|i: int, k: int|
            0 <= i < self.subsectors@.len() && 0 <= k < self.subsectors@[i].segs@.len()
                ==> #[trigger] self.subsectors@[i].segs@[k] < self.segs@.len()
        &&& forall|i: int|
            0 <= i < self.segs@.len() ==> (#[trigger] self.segs@[i]).linedef
                < self.linedefs@.len() && self.segs@[i].start_vertex < self.vertexes@.len()
                && self.segs@[i].end_vertex < self.vertexes@.len()
        &&& forall|i: int|
            0 <= i < self.linedefs@.len() ==> spec_linedef_in_range(
                #[trigger] self.linedefs@[i],
                self.vertexes@.len() as int,
                self.sidedefs@.len() as int,
            )
        &&& forall|i: int|
            0 <= i < self.sidedefs@.len() ==> (#[trigger] self.sidedefs@[i]).sector
                < self.sectors@.len()
        &&& self.sectors@.len() <= 32767
        &&& forall|i: int| 0 <= i < self.sectors@.len() ==> (#[trigger] self.sectors@[i]).id == i
    }

    /// Every table is the exact decode of its lump: the record counts are
    /// the lump sizes over the record sizes, and record `i` of each lump
    /// decodes to entry `i` of its table.
    pub open spec fn spec_tables_match(self, wad: WadFile, canonical: Seq<u8>) -> bool {
        let b = wad.file@;
        &&& spec_map_lump_index(wad.dirs@, canonical, 1) matches Some(d) && {
            &&& self.things@.len() == wad.dirs@[d].size as int / 10
            &&& forall|i: int|
                0 <= i < self.things@.len() ==> spec_thing_matches(
                    #[trigger] self.things@[i],
                    b,
                    wad.dirs@[d].offset as int,
                    i,
                )
        }
        &&& spec_map_lump_index(wad.dirs@, canonical, 4) matches Some(d) && {
            &&& self.vertexes@.len() == wad.dirs@[d].size as int / 4
            &&& forall|i: int|
                0 <= i < self.vertexes@.len() ==> spec_vertex_matches(
                    #[trigger] self.vertexes@[i],
                    b,
                    wad.dirs@[d].offset as int,
                    i,
                )
        }
        &&& spec_map_lump_index(wad.dirs@, canonical, 8) matches Some(d) && {
            &&& self.sectors@.len() == wad.dirs@[d].size as int / 26
            &&& forall|i: int|
                0 <= i < self.sectors@.len() ==> spec_sector_matches(
                    #[trigger] self.sectors@[i],
                    b,
                    wad.dirs@[d].offset as int,
                    i,
                )
        }
        &&& spec_map_lump_index(wad.dirs@, canonical, 3) matches Some(d) && {
            &&& self.sidedefs@.len() == wad.dirs@[d].size as int / 30
            &&& forall|i: int|
                0 <= i < self.sidedefs@.len() ==> spec_sidedef_matches(
                    #[trigger] self.sidedefs@[i],
                    b,
                    wad.dirs@[d].offset as int,
                    i,
                )
        }
        &&& spec_map_lump_index(wad.dirs@, canonical, 2) matches Some(d) && {
            &&& self.linedefs@.len() == wad.dirs@[d].size as int / 14
            &&& forall|i: int|
                0 <= i < self.linedefs@.len() ==> spec_linedef_matches(
                    #[trigger] self.linedefs@[i],
                    b,
                    wad.dirs@[d].offset as int,
                    i,
                )
        }
        &&& spec_map_lump_index(wad.dirs@, canonical, 5) matches Some(d) && {
            &&& self.segs@.len() == wad.dirs@[d].size as int / 12
            &&& forall|i: int|
                0 <= i < self.segs@.len() ==> spec_seg_matches(
                    #[trigger] self.segs@[i],
                    b,
                    wad.dirs@[d].offset as int,
                    i,
                )
        }
        &&& spec_map_lump_index(wad.dirs@, canonical, 6) matches Some(d) && {
            &&& self.subsectors@.len() == wad.dirs@[d].size as int / 4
            &&& forall|i: int|
                0 <= i < self.subsectors@.len() ==> spec_subsector_matches(
                    #[trigger] self.subsectors@[i],
                    b,
                    wad.dirs@[d].offset as int,
                    i,
                )
        }
        &&& spec_map_lump_index(wad.dirs@, canonical, 7) matches Some(d) && {
            &&& self.nodes@.len() == wad.dirs@[d].size as int / 28
            &&& forall|i: int|
                0 <= i < self.nodes@.len() ==> spec_node_matches(
                    #[trigger] self.nodes@[i],
                    b,
                    wad.dirs@[d].offset as int,
                    i,
                )
        }
    }

    /// Load one map's lumps in dependency order, validating every cross
    /// reference, and compute the bounding box of its linedef endpoints.
    /// Succeeds exactly when the whole 10-lump run is present and every
    /// record and cross reference is well-formed; on success every table
    /// is the exact decode of its lump, the root is the last node, and
    /// the bounding box is the fold of every linedef endpoint.
    pub fn new(wad: &WadFile, map_name: &Vec<u8>) -> (r: Result<MapData, WadError>)
        requires
            wad.wf(),
        ensures
            r matches Ok(m) ==> {
                &&& m.wf()
                &&& m.spec_tables_match(*wad, spec_upper_seq(map_name@))
                &&& m.root_node == m.nodes@.len() - 1
                &&& m.bounding_box == spec_linedef_bbox(
                    m.linedefs@,
                    m.vertexes@,
                    m.linedefs@.len() as int,
                )
            },
            spec_map_loadable(*wad, spec_upper_seq(map_name@)) ==> r is Ok,
    {
        let things = match load_things(wad, map_name) {
            Ok(v) => v,
            Err(e) => {
                return Err(e);
            },
        };
        let vertexes = match load_vertexes(wad, map_name) {
            Ok(v) => v,
            Err(e) => {
                return Err(e);
            },
        };
        let sectors = match load_sectors(wad, map_name) {
            Ok(v) => v,
            Err(e) => {
                return Err(e);
            },
        };
        let sidedefs = match load_sidedefs(wad, &sectors, map_name) {
            Ok(v) => v,
            Err(e) => {
                return Err(e);
            },
        };
        let linedefs = match load_linedefs(wad, &vertexes, &sidedefs, map_name) {
            Ok(v) => v,
            Err(e) => {
                return Err(e);
            },
        };
        let segs = match load_segs(wad, &vertexes, &linedefs, map_name) {
            Ok(v) => v,
            Err(e) => {
                return Err(e);
            },
        };
        let subsectors = match load_subsectors(wad, &segs, map_name) {
            Ok(v) => v,
            Err(e) => {
                return Err(e);
            },
        };
        let nodes = match load_nodes(wad, &subsectors, map_name) {
            Ok(v) => v,
            Err(e) => {
                return Err(e);
            },
        };
        if nodes.len() == 0 {
            return Err(WadError::MalformedRecord);
        }
        let root_node = nodes.len() - 1;

        let mut bounding_box = BoundingBox::extendable_new();
        let mut i: usize = 0;
        while i < linedefs.len()
            invariant
                i <= linedefs@.len(),
                forall|j: int|
                    0 <= j < linedefs@.len() ==> spec_linedef_in_range(
                        #[trigger] linedefs@[j],
                        vertexes@.len() as int,
                        sidedefs@.len() as int,
                    ),
                bounding_box == spec_linedef_bbox(linedefs@, vertexes@, i as int),
            decreases linedefs@.len() - i,
        {
            let start = linedefs[i].start_vertex;
            let end = linedefs[i].end_vertex;
            bounding_box.extend(&vertexes[start]);
            bounding_box.extend(&vertexes[end]);
            i = i + 1;
        }

        Ok(MapData {
            things,
            vertexes,
            linedefs,
            sidedefs,
            segs,
            subsectors,
            nodes,
            sectors,
            root_node,
            bounding_box,
        })
    }
}

} // verus!
