use vstd::prelude::*;

use crate::geometry::{is_left_of_line, spec_is_left_of};
use crate::map::MapData;
use crate::nodes::NodeChild;

verus! {

/// The subsector BSP descent lands in, starting from node `node`: at each
/// node, go left when the point is left of the partition line, else right,
/// until a leaf.
pub open spec fn spec_descend(m: MapData, node: int, x: int, y: int) -> int
    decreases node,
    when m.wf() && 0 <= node < m.nodes@.len()
{
    let n = m.nodes@[node];
    let child = if spec_is_left_of(x, y, n.x as int, n.y as int, n.dx as int, n.dy as int) {
        n.left_child
    } else {
        n.right_child
    };
    match child {
        NodeChild::Node(c) => spec_descend(m, c as int, x, y),
        NodeChild::SubSector(s) => s as int,
    }
}

/// BSP containment: descent from any node of a well-formed map lands in an
/// existing subsector, for every point whatever — the tree is stored
/// bottom-up, so each step strictly descends and must end at a leaf.
pub proof fn lemma_bsp_descent_lands(m: MapData, node: int, x: int, y: int)
    requires
        m.wf(),
        0 <= node < m.nodes@.len(),
    ensures
        0 <= spec_descend(m, node, x, y) < m.subsectors@.len(),
    decreases node,
{
    let n = m.nodes@[node];
    let child = if spec_is_left_of(x, y, n.x as int, n.y as int, n.dx as int, n.dy as int) {
        n.left_child
    } else {
        n.right_child
    };
    match child {
        NodeChild::Node(c) => {
            lemma_bsp_descent_lands(m, c as int, x, y);
        },
        NodeChild::SubSector(_) => {},
    }
}

/// Walk the BSP tree to the subsector containing the point.
pub fn find_subsector(map: &MapData, x: i32, y: i32) -> (r: usize)
    requires
        map.wf(),
    ensures
        r == spec_descend(*map, map.root_node as int, x as int, y as int),
        r < map.subsectors@.len(),
{
    let mut node: usize = map.root_node;
    loop
        invariant
            map.wf(),
            node < map.nodes@.len(),
            spec_descend(*map, map.root_node as int, x as int, y as int) == spec_descend(
                *map,
                node as int,
                x as int,
                y as int,
            ),
        decreases node,
    {
        let n = &map.nodes[node];
        let left = is_left_of_line(x, y, n.x as i32, n.y as i32, n.dx as i32, n.dy as i32);
        let child = if left {
            n.left_child
        } else {
            n.right_child
        };
        match child {
            NodeChild::Node(c) => {
                node = c;
            },
            NodeChild::SubSector(s) => {
                proof {
                    lemma_bsp_descent_lands(*map, node as int, x as int, y as int);
                }
                return s;
            },
        }
    }
}

/// The sector faced by the first seg of the subsector that has a sidedef
/// on its front side, scanning from seg position `k`.
pub open spec fn spec_subsector_sector(m: MapData, ss: int, k: int) -> Option<int>
    decreases m.subsectors@[ss].segs@.len() - k,
    when m.wf() && 0 <= ss < m.subsectors@.len() && 0 <= k
{
    if k >= m.subsectors@[ss].segs@.len() {
        None
    } else {
        let seg = m.segs@[m.subsectors@[ss].segs@[k] as int];
        let linedef = m.linedefs@[seg.linedef as int];
        let sidedef = if seg.direction {
            linedef.back_sidedef
        } else {
            linedef.front_sidedef
        };
        match sidedef {
            Some(s) => Some(m.sidedefs@[s as int].sector as int),
            None => spec_subsector_sector(m, ss, k + 1),
        }
    }
}

/// Walk the BSP tree to find the sector the point is in: descend to a
/// subsector, then take the sector faced by its first seg that has a
/// sidedef on the viewed side. Returns `None` when no seg of the leaf has
/// one — the point is outside the mapped area.
pub fn get_sector_from_vertex(map: &MapData, x: i32, y: i32) -> (r: Option<usize>)
    requires
        map.wf(),
    ensures
        ({
            let ss = spec_descend(*map, map.root_node as int, x as int, y as int);
            match r {
                Some(sec) => Some(sec as int) == spec_subsector_sector(*map, ss, 0) && sec
                    < map.sectors@.len(),
                None => spec_subsector_sector(*map, ss, 0) is None,
            }
        }),
{
    let ss = find_subsector(map, x, y);
    let subsector = &map.subsectors[ss];
    let mut k: usize = 0;
    while k < subsector.segs.len()
        invariant
            map.wf(),
            ss < map.subsectors@.len(),
            ss == spec_descend(*map, map.root_node as int, x as int, y as int),
            subsector == map.subsectors@[ss as int],
            k <= subsector.segs@.len(),
            spec_subsector_sector(*map, ss as int, 0) == spec_subsector_sector(
                *map,
                ss as int,
                k as int,
            ),
        decreases subsector.segs@.len() - k,
    {
        let seg = &map.segs[subsector.segs[k]];
        let linedef = &map.linedefs[seg.linedef];
        let sidedef = if seg.direction {
            linedef.back_sidedef
        } else {
            linedef.front_sidedef
        };
        if let Some(s) = sidedef {
            return Some(map.sidedefs[s].sector);
        }
        k = k + 1;
    }
    None
}

} // verus!
