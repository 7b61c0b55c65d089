use vstd::prelude::*;

use crate::bytes::{read_u16_at, spec_i16_at, spec_u16_at, spec_upper_seq};
use crate::errors::WadError;
use crate::geometry::BoundingBox;
use crate::subsectors::SubSector;
use crate::wad::{
    lemma_find_first_some, spec_find_first_from, spec_map_lump_index, MapLumpName, WadFile,
};

verus! {

/// A BSP node's child: another node or a convex leaf.
#[derive(Clone, Copy, Debug, PartialEq, Eq, Structural)]
pub enum NodeChild {
    Node(usize),
    SubSector(usize),
}

impl NodeChild {
    /// Decode a stored child index: the high bit marks a subsector.
    pub open spec fn spec_from_index(v: int) -> NodeChild {
        if v >= 0x8000 {
            NodeChild::SubSector((v - 0x8000) as usize)
        } else {
            NodeChild::Node(v as usize)
        }
    }

    /// The child's reference exists, and a node child was built earlier
    /// than node `i` (the lump stores the tree bottom-up).
    pub open spec fn spec_in_range(self, i: int, n_subsectors: int) -> bool {
        match self {
            NodeChild::Node(n) => n < i,
            NodeChild::SubSector(s) => s < n_subsectors,
        }
    }
}

/// A BSP node: a partition line, two child bounding boxes, two children.
pub struct Node {
    /// Partition line start.
    pub x: i16,
    pub y: i16,
    /// Partition line direction.
    pub dx: i16,
    pub dy: i16,
    pub right_bounding_box: BoundingBox,
    pub left_bounding_box: BoundingBox,
    pub right_child: NodeChild,
    pub left_child: NodeChild,
}

/// The node matches record `i` of the NODES lump at `off`.
pub open spec fn spec_node_matches(n: Node, b: Seq<u8>, off: int, i: int) -> bool {
    &&& n.x == spec_i16_at(b, off + 28 * i)
    &&& n.y == spec_i16_at(b, off + 28 * i + 2)
    &&& n.dx == spec_i16_at(b, off + 28 * i + 4)
    &&& n.dy == spec_i16_at(b, off + 28 * i + 6)
    &&& n.right_bounding_box.top == spec_i16_at(b, off + 28 * i + 8)
    &&& n.right_bounding_box.bottom == spec_i16_at(b, off + 28 * i + 10)
    &&& n.right_bounding_box.left == spec_i16_at(b, off + 28 * i + 12)
    &&& n.right_bounding_box.right == spec_i16_at(b, off + 28 * i + 14)
    &&& n.left_bounding_box.top == spec_i16_at(b, off + 28 * i + 16)
    &&& n.left_bounding_box.bottom == spec_i16_at(b, off + 28 * i + 18)
    &&& n.left_bounding_box.left == spec_i16_at(b, off + 28 * i + 20)
    &&& n.left_bounding_box.right == spec_i16_at(b, off + 28 * i + 22)
    &&& n.right_child == NodeChild::spec_from_index(spec_u16_at(b, off + 28 * i + 24))
    &&& n.left_child == NodeChild::spec_from_index(spec_u16_at(b, off + 28 * i + 26))
}

/// Record `i`'s two children refer to an earlier node or an existing
/// subsector.
pub open spec fn spec_node_record_ok(b: Seq<u8>, off: int, i: int, n_subsectors: int) -> bool {
    &&& NodeChild::spec_from_index(spec_u16_at(b, off + 28 * i + 24)).spec_in_range(
        i,
        n_subsectors,
    )
    &&& NodeChild::spec_from_index(spec_u16_at(b, off + 28 * i + 26)).spec_in_range(
        i,
        n_subsectors,
    )
}

/// Load the NODES lump of a map: 28-byte records, stored bottom-up so that
/// every node child refers to an earlier node. A child reference to a
/// later node or to a missing subsector is malformed. Succeeds exactly
/// when the lump exists and every record's children are in range.
pub fn load_nodes(wad: &WadFile, subsectors: &Vec<SubSector>, map_name: &Vec<u8>) -> (r: Result<
    Vec<Node>,
    WadError,
>)
    requires
        wad.wf(),
    ensures
        r matches Err(e) ==> match spec_find_first_from(
            wad.dirs@,
            spec_upper_seq(map_name@),
            0,
        ) {
            None => e == WadError::MissingLump,
            Some(m) => e == WadError::MalformedRecord && (m + 7 >= wad.dirs@.len()
                || !(forall|i: int|
                0 <= i < wad.dirs@[m + 7].size as int / 28 ==> #[trigger] spec_node_record_ok(
                    wad.file@,
                    wad.dirs@[m + 7].offset as int,
                    i,
                    subsectors@.len() as int,
                ))),
        },
        (spec_map_lump_index(wad.dirs@, spec_upper_seq(map_name@), 7) is Some && ({
            let d = spec_map_lump_index(wad.dirs@, spec_upper_seq(map_name@), 7).unwrap();
            forall|i: int|
                0 <= i < wad.dirs@[d].size as int / 28 ==> #[trigger] spec_node_record_ok(
                    wad.file@,
                    wad.dirs@[d].offset as int,
                    i,
                    subsectors@.len() as int,
                )
        })) ==> r is Ok,
        r matches Ok(ns) ==> {
            &&& spec_map_lump_index(wad.dirs@, spec_upper_seq(map_name@), 7) matches Some(d)
            &&& ns@.len() == wad.dirs@[d].size as int / 28
            &&& forall|i: int|
                0 <= i < ns@.len() ==> spec_node_matches(
                    #[trigger] ns@[i],
                    wad.file@,
                    wad.dirs@[d].offset as int,
                    i,
                )
            &&& forall|i: int|
                0 <= i < ns@.len() ==> (#[trigger] ns@[i]).right_child.spec_in_range(
                    i,
                    subsectors@.len() as int,
                ) && ns@[i].left_child.spec_in_range(i, subsectors@.len() as int)
        },
{
    let entry = match wad.get_dir_entry_for_map_lump(map_name, MapLumpName::Nodes) {
        Ok(e) => e,
        Err(e) => {
            return Err(e);
        },
    };
    proof {
        lemma_find_first_some(wad.dirs@, spec_upper_seq(map_name@), 0);
        let d = spec_map_lump_index(wad.dirs@, spec_upper_seq(map_name@), 7).unwrap();
        assert(wad.dirs@[d].matches(wad.file@, wad.header.dir_offset as int, d));
    }
    let off = entry.offset as usize;
    let count = (entry.size as usize) / 28;
    let flen = wad.file.len();

    let mut nodes: Vec<Node> = Vec::new();
    let mut i: usize = 0;
    while i < count
        invariant
            wad.wf(),
            flen == wad.file@.len(),
            off + 28 * count <= flen,
            spec_find_first_from(wad.dirs@, spec_upper_seq(map_name@), 0) is Some,
            ({
                let m = spec_find_first_from(wad.dirs@, spec_upper_seq(map_name@), 0).unwrap();
                m + 7 < wad.dirs@.len() && off == wad.dirs@[m + 7].offset && count == wad.dirs@[m
                    + 7].size as int / 28
            }),
            nodes@.len() == i,
            i <= count,
            forall|j: int|
                0 <= j < i ==> spec_node_matches(#[trigger] nodes@[j], wad.file@, off as int, j),
            forall|j: int|
                0 <= j < i ==> (#[trigger] nodes@[j]).right_child.spec_in_range(
                    j,
                    subsectors@.len() as int,
                ) && nodes@[j].left_child.spec_in_range(j, subsectors@.len() as int),
        decreases count - i,
    {
        let base = off + 28 * i;
        let right_child = match decode_child(read_u16_at(&wad.file, base + 24), i, subsectors.len())
        {
            Ok(c) => c,
            Err(e) => {
                proof {
                    let m = spec_find_first_from(wad.dirs@, spec_upper_seq(map_name@), 0).unwrap();
                    assert(!spec_node_record_ok(
                        wad.file@,
                        wad.dirs@[m + 7].offset as int,
                        i as int,
                        subsectors@.len() as int,
                    ));
                    assert(spec_map_lump_index(wad.dirs@, spec_upper_seq(map_name@), 7) == Some(
                        m + 7,
                    ));
                    assert(spec_map_lump_index(
                        wad.dirs@,
                        spec_upper_seq(map_name@),
                        7,
                    ).unwrap() == m + 7);
                    assert(!(forall|i2: int|
                        0 <= i2 < wad.dirs@[m + 7].size as int / 28
                            ==> #[trigger] spec_node_record_ok(
                            wad.file@,
                            wad.dirs@[m + 7].offset as int,
                            i2,
                            subsectors@.len() as int,
                        )));
                }
                return Err(e);
            },
        };
        let left_child = match decode_child(read_u16_at(&wad.file, base + 26), i, subsectors.len())
        {
            Ok(c) => c,
            Err(e) => {
                proof {
                    let m = spec_find_first_from(wad.dirs@, spec_upper_seq(map_name@), 0).unwrap();
                    assert(!spec_node_record_ok(
                        wad.file@,
                        wad.dirs@[m + 7].offset as int,
                        i as int,
                        subsectors@.len() as int,
                    ));
                    assert(spec_map_lump_index(wad.dirs@, spec_upper_seq(map_name@), 7) == Some(
                        m + 7,
                    ));
                    assert(spec_map_lump_index(
                        wad.dirs@,
                        spec_upper_seq(map_name@),
                        7,
                    ).unwrap() == m + 7);
                    assert(!(forall|i2: int|
                        0 <= i2 < wad.dirs@[m + 7].size as int / 28
                            ==> #[trigger] spec_node_record_ok(
                            wad.file@,
                            wad.dirs@[m + 7].offset as int,
                            i2,
                            subsectors@.len() as int,
                        )));
                }
                return Err(e);
            },
        };
        nodes.push(Node {
            x: wad.read_i16(base),
            y: wad.read_i16(base + 2),
            dx: wad.read_i16(base + 4),
            dy: wad.read_i16(base + 6),
            right_bounding_box: BoundingBox {
                top: wad.read_i16(base + 8) as i32,
                bottom: wad.read_i16(base + 10) as i32,
                left: wad.read_i16(base + 12) as i32,
                right: wad.read_i16(base + 14) as i32,
            },
            left_bounding_box: BoundingBox {
                top: wad.read_i16(base + 16) as i32,
                bottom: wad.read_i16(base + 18) as i32,
                left: wad.read_i16(base + 20) as i32,
                right: wad.read_i16(base + 22) as i32,
            },
            right_child,
            left_child,
        });
        i = i + 1;
    }
    Ok(nodes)
}

/// Decode one stored child reference, checking it against what has been
/// built so far.
fn decode_child(v: u16, node_index: usize, n_subsectors: usize) -> (r: Result<
    NodeChild,
    WadError,
>)
    ensures
        r matches Ok(c) ==> c == NodeChild::spec_from_index(v as int) && c.spec_in_range(
            node_index as int,
            n_subsectors as int,
        ),
        r matches Err(e) ==> e == WadError::MalformedRecord && !NodeChild::spec_from_index(
            v as int,
        ).spec_in_range(node_index as int, n_subsectors as int),
{
    if v >= 0x8000 {
        let s = (v - 0x8000) as usize;
        if s >= n_subsectors {
            return Err(WadError::MalformedRecord);
        }
        Ok(NodeChild::SubSector(s))
    } else {
        let n = v as usize;
        if n >= node_index {
            return Err(WadError::MalformedRecord);
        }
        Ok(NodeChild::Node(n))
    }
}

} // verus!
