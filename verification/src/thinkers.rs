use vstd::prelude::*;

use crate::lights::{
    spec_flicker_dip, spec_glow_step, spec_strobe_step, FireFlicker, GlowingLight, LightFlash,
    StrobeFlash, FAST_DARK, SLOW_DARK, STROBE_BRIGHT,
};
use crate::map::MapData;
use crate::sectors::Sector;
use crate::map_objects::{
    spec_states_wf, MapObject, MapObjectThinker, MapObjects, StateDef, STATE_NULL,
};

verus! {

/// Anything that acts once per game tic: a sector light animation or a
/// map object animation.
#[derive(Clone, Copy)]
pub enum Thinker {
    LightFlash(LightFlash),
    StrobeFlash(StrobeFlash),
    GlowingLight(GlowingLight),
    FireFlicker(FireFlicker),
    MapObject(MapObjectThinker),
}

/// Every thinker's target exists, and light bounds fit the arithmetic the
/// tick performs.
pub open spec fn spec_thinker_wf(t: Thinker, n_sectors: int, n_objects: int) -> bool {
    match t {
        Thinker::LightFlash(l) => l.sector < n_sectors && 0 < l.min_time <= 0x7ffe && 0
            < l.max_time <= 0x7ffe,
        Thinker::StrobeFlash(s) => s.sector < n_sectors,
        Thinker::GlowingLight(g) => g.sector < n_sectors,
        Thinker::FireFlicker(f) => f.sector < n_sectors && 0 <= f.min_light && 0 <= f.max_light,
        Thinker::MapObject(m) => m.object < n_objects,
    }
}

pub open spec fn spec_thinkers_wf(
    thinkers: Seq<Thinker>,
    n_sectors: int,
    n_objects: int,
) -> bool {
    forall|i: int|
        0 <= i < thinkers.len() ==> spec_thinker_wf(#[trigger] thinkers[i], n_sectors, n_objects)
}

/// Every live object's state references stay inside the state table.
pub open spec fn spec_objects_wf(objects: Seq<MapObject>, n_states: int) -> bool {
    forall|i: int|
        0 <= i < objects.len() ==> (#[trigger] objects[i]).state < n_states
            && objects[i].info.spawn_state < n_states && objects[i].info.death_state < n_states
            && objects[i].info.xdeath_state < n_states
}

/// The sector light cell a thinker drives, if any.
pub open spec fn spec_level_target(t: Thinker) -> Option<int> {
    match t {
        Thinker::LightFlash(l) => Some(l.sector as int),
        Thinker::StrobeFlash(s) => Some(s.sector as int),
        Thinker::GlowingLight(g) => Some(g.sector as int),
        Thinker::FireFlicker(f) => Some(f.sector as int),
        Thinker::MapObject(_) => None,
    }
}

/// The map object a thinker drives, if any.
pub open spec fn spec_object_target(t: Thinker) -> Option<int> {
    match t {
        Thinker::MapObject(m) => Some(m.object as int),
        _ => None,
    }
}

/// Two thinkers drive the same sector light or the same map object.
pub open spec fn spec_shares_target(a: Thinker, b: Thinker) -> bool {
    ||| (spec_level_target(a) is Some && spec_level_target(a) == spec_level_target(b))
    ||| (spec_object_target(a) is Some && spec_object_target(a) == spec_object_target(b))
}

/// Thinker `i` is the sole driver of its target in the list.
pub open spec fn spec_sole_driver(thinkers: Seq<Thinker>, i: int) -> bool {
    forall|j: int|
        0 <= j < thinkers.len() && j != i ==> !spec_shares_target(
            thinkers[i],
            #[trigger] thinkers[j],
        )
}

/// One game tic of a single thinker, stated over its target cell alone:
/// the successor thinker and the cell's new value follow the thinker's own
/// step rule, with random reloads constrained to their spans.
pub open spec fn spec_tick_rel(
    t: Thinker,
    t2: Thinker,
    lb: Seq<i16>,
    la: Seq<i16>,
    ob: Seq<MapObject>,
    oa: Seq<MapObject>,
    states: Seq<StateDef>,
) -> bool {
    match t {
        Thinker::StrobeFlash(s) => t2 matches Thinker::StrobeFlash(s2) && {
            &&& s2 == (StrobeFlash { count: s2.count, ..s })
            &&& (la[s.sector as int] as int, s2.count as int) == spec_strobe_step(
                s,
                lb[s.sector as int] as int,
                s.count as int,
            )
        },
        Thinker::GlowingLight(g) => t2 matches Thinker::GlowingLight(g2) && {
            &&& g2 == (GlowingLight { going_up: g2.going_up, ..g })
            &&& (la[g.sector as int] as int, g2.going_up) == spec_glow_step(
                g,
                lb[g.sector as int] as int,
            )
        },
        Thinker::LightFlash(l) => t2 matches Thinker::LightFlash(l2) && {
            &&& l2 == (LightFlash { count: l2.count, ..l })
            &&& ({
                let light = lb[l.sector as int];
                if l.count - 1 > 0 {
                    l2.count == l.count - 1 && la[l.sector as int] == light
                } else if light == l.max_light {
                    la[l.sector as int] == l.min_light && 1 <= l2.count <= l.min_time
                } else {
                    la[l.sector as int] == l.max_light && 1 <= l2.count <= l.max_time
                }
            })
        },
        Thinker::FireFlicker(f) => t2 matches Thinker::FireFlicker(f2) && {
            &&& f2 == (FireFlicker { count: f2.count, ..f })
            &&& ({
                let light = lb[f.sector as int];
                if f.count - 1 > 0 {
                    f2.count == f.count - 1 && la[f.sector as int] == light
                } else {
                    f2.count == 4 && (exists|a: int|
                        0 <= a < 4 && la[f.sector as int] as int == #[trigger] spec_flicker_dip(
                            f,
                            light as int,
                            a,
                        ))
                }
            })
        },
        Thinker::MapObject(m) => t2 matches Thinker::MapObject(m2) && m2.object == m.object && {
            let obj = ob[m.object as int];
            let next = states[obj.state as int].next_state;
            if m.count == -1 {
                oa[m.object as int] == obj && m2.count == -1
            } else if m.count - 1 > 0 {
                oa[m.object as int] == obj && m2.count == m.count - 1
            } else {
                oa[m.object as int] == (MapObject { state: next, ..obj }) && m2.count
                    == states[next as int].tics
            }
        },
    }
}

/// The kill transition of one map object thinker, over its object alone.
pub open spec fn spec_kill_rel(
    m: MapObjectThinker,
    m2: MapObjectThinker,
    ob: Seq<MapObject>,
    oa: Seq<MapObject>,
    states: Seq<StateDef>,
) -> bool {
    let obj = ob[m.object as int];
    &&& m2.object == m.object
    &&& if obj.info.death_state == STATE_NULL {
        oa[m.object as int] == obj && m2.count == m.count
    } else {
        oa[m.object as int] == (MapObject { state: obj.info.death_state, ..obj }) && m2.count
            == states[obj.info.death_state as int].tics
    }
}

/// The exploded-death transition, over the thinker's object alone.
pub open spec fn spec_explode_rel(
    m: MapObjectThinker,
    m2: MapObjectThinker,
    ob: Seq<MapObject>,
    oa: Seq<MapObject>,
    states: Seq<StateDef>,
) -> bool {
    let obj = ob[m.object as int];
    &&& m2.object == m.object
    &&& if obj.info.xdeath_state != STATE_NULL {
        oa[m.object as int] == (MapObject { state: obj.info.xdeath_state, ..obj }) && m2.count
            == states[obj.info.xdeath_state as int].tics
    } else {
        spec_kill_rel(m, m2, ob, oa, states)
    }
}

/// The respawn transition, over the thinker's object alone.
pub open spec fn spec_respawn_rel(
    m: MapObjectThinker,
    m2: MapObjectThinker,
    ob: Seq<MapObject>,
    oa: Seq<MapObject>,
    states: Seq<StateDef>,
) -> bool {
    let obj = ob[m.object as int];
    &&& m2.object == m.object
    &&& oa[m.object as int] == (MapObject { state: obj.info.spawn_state, ..obj })
    &&& m2.count == states[obj.info.spawn_state as int].tics
}

/// The kill transition lifted to whole thinkers: light thinkers are not
/// constrained (kill is a no-op on them), object thinkers step their
/// object by the kill rule.
pub open spec fn spec_kill_rel_t(
    t: Thinker,
    t2: Thinker,
    ob: Seq<MapObject>,
    oa: Seq<MapObject>,
    states: Seq<StateDef>,
) -> bool {
    t matches Thinker::MapObject(m) ==> (t2 matches Thinker::MapObject(m2) && spec_kill_rel(
        m,
        m2,
        ob,
        oa,
        states,
    ))
}

/// The exploded-death transition lifted to whole thinkers.
pub open spec fn spec_explode_rel_t(
    t: Thinker,
    t2: Thinker,
    ob: Seq<MapObject>,
    oa: Seq<MapObject>,
    states: Seq<StateDef>,
) -> bool {
    t matches Thinker::MapObject(m) ==> (t2 matches Thinker::MapObject(m2) && spec_explode_rel(
        m,
        m2,
        ob,
        oa,
        states,
    ))
}

/// The respawn transition lifted to whole thinkers.
pub open spec fn spec_respawn_rel_t(
    t: Thinker,
    t2: Thinker,
    ob: Seq<MapObject>,
    oa: Seq<MapObject>,
    states: Seq<StateDef>,
) -> bool {
    t matches Thinker::MapObject(m) ==> (t2 matches Thinker::MapObject(m2) && spec_respawn_rel(
        m,
        m2,
        ob,
        oa,
        states,
    ))
}

/// How many light thinkers the first `k` sectors spawn: one per sector
/// whose special type is a lighting special.
pub open spec fn spec_light_prefix(sectors: Seq<Sector>, k: int) -> int
    decreases k,
{
    if k <= 0 {
        0
    } else {
        spec_light_prefix(sectors, k - 1) + (if spec_is_light_special(
            sectors[k - 1].special_type as int,
        ) {
            1int
        } else {
            0int
        })
    }
}

/// The light-thinker count grows monotonically with the sector prefix.
pub proof fn lemma_light_prefix_mono(sectors: Seq<Sector>, a: int, b: int)
    requires
        a <= b,
    ensures
        spec_light_prefix(sectors, a) <= spec_light_prefix(sectors, b),
    decreases b - a,
{
    if a < b {
        lemma_light_prefix_mono(sectors, a, b - 1);
    }
}

/// Every list position below the light-thinker total belongs to exactly
/// one spawning sector, so the exact-list clauses of `init_thinkers` pin
/// every light slot.
pub proof fn lemma_light_prefix_covers(sectors: Seq<Sector>, k: int, slot: int)
    requires
        0 <= k <= sectors.len(),
        0 <= slot < spec_light_prefix(sectors, k),
    ensures
        exists|s: int|
            0 <= s < k && spec_is_light_special(sectors[s].special_type as int)
                && #[trigger] spec_light_prefix(sectors, s) == slot,
    decreases k,
{
    if spec_light_prefix(sectors, k) > 0 {
        if slot < spec_light_prefix(sectors, k - 1) {
            lemma_light_prefix_covers(sectors, k - 1, slot);
        } else {
            assert(spec_is_light_special(sectors[k - 1].special_type as int));
            assert(spec_light_prefix(sectors, k - 1) == slot);
        }
    }
}

/// The exact light thinker a spawning sector gets: the kind and the
/// deterministic fields follow the special-type table, and the random
/// start counters lie in their documented spans.
pub open spec fn spec_expected_light_thinker(
    m: MapData,
    levels: Seq<i16>,
    s: int,
    t: Thinker,
) -> bool {
    let special = m.sectors@[s].special_type as int;
    let max = levels[s] as int;
    let surround = crate::lights::spec_min_surround(m, levels, s, 0, max);
    if special == 1 {
        t matches Thinker::LightFlash(l) && l.sector as int == s && l.max_light as int == max
            && l.min_light as int == surround && l.min_time == 7 && l.max_time == 64 && 1
            <= l.count <= 64
    } else if special == 2 || special == 3 || special == 4 || special == 12 || special == 13 {
        t matches Thinker::StrobeFlash(st) && st.sector as int == s && st.max_light as int == max
            && st.min_light as int == (if surround == max {
            0int
        } else {
            surround
        }) && st.bright_time == STROBE_BRIGHT && st.dark_time as int == (if special == 3
            || special == 12 {
            SLOW_DARK as int
        } else {
            FAST_DARK as int
        }) && 1 <= st.count < 9 && ((special == 12 || special == 13) ==> st.count == 1)
    } else if special == 8 {
        t matches Thinker::GlowingLight(g) && g.sector as int == s && g.max_light as int == max
            && g.min_light as int == surround && !g.going_up
    } else if special == 17 {
        t matches Thinker::FireFlicker(f) && f.sector as int == s && f.max_light as int == max
            && f.min_light as int == surround + 16 && f.count == 4
    } else {
        false
    }
}

/// Spawn the map's thinkers: the exact list is one light thinker per
/// sector whose special type asks for one, in sector order per the table
/// (1 flickers, 2 and 4 strobe fast, 3 strobes slow, 8 glows, 12 and 13
/// strobe in sync, 17 flickers like fire), followed by one animation
/// thinker per map object, in object order — and nothing else.
pub fn init_thinkers(
    map: &MapData,
    levels: &Vec<i16>,
    map_objects: &MapObjects,
    states: &Vec<StateDef>,
) -> (r: Vec<Thinker>)
    requires
        map.wf(),
        levels@.len() == map.sectors@.len(),
        forall|i: int| 0 <= i < levels@.len() ==> 0 <= #[trigger] levels@[i] <= 255,
        spec_states_wf(states@),
        spec_objects_wf(map_objects.objects@, states@.len() as int),
    ensures
        spec_thinkers_wf(r@, map.sectors@.len() as int, map_objects.objects@.len() as int),
        r@.len() == spec_light_prefix(map.sectors@, map.sectors@.len() as int)
            + map_objects.objects@.len(),
        forall|s: int|
            0 <= s < map.sectors@.len() && spec_is_light_special(
                (#[trigger] map.sectors@[s]).special_type as int,
            ) ==> spec_expected_light_thinker(
                *map,
                levels@,
                s,
                r@[spec_light_prefix(map.sectors@, s)],
            ),
        forall|o: int|
            0 <= o < map_objects.objects@.len() ==> r@[spec_light_prefix(
                map.sectors@,
                map.sectors@.len() as int,
            ) + o] == Thinker::MapObject(
                MapObjectThinker {
                    object: o as usize,
                    count: states@[(#[trigger] map_objects.objects@[o]).state as int].tics,
                },
            ),
{
    let mut thinkers: Vec<Thinker> = Vec::new();
    let n_sectors = map.sectors.len();
    let n_objects = map_objects.objects.len();

    let mut s: usize = 0;
    while s < n_sectors
        invariant
            map.wf(),
            levels@.len() == map.sectors@.len(),
            forall|i: int| 0 <= i < levels@.len() ==> 0 <= #[trigger] levels@[i] <= 255,
            n_sectors == map.sectors@.len(),
            n_objects == map_objects.objects@.len(),
            s <= n_sectors,
            thinkers@.len() == spec_light_prefix(map.sectors@, s as int),
            spec_thinkers_wf(thinkers@, n_sectors as int, n_objects as int),
            forall|j: int|
                0 <= j < s && spec_is_light_special(
                    (#[trigger] map.sectors@[j]).special_type as int,
                ) ==> spec_expected_light_thinker(
                    *map,
                    levels@,
                    j,
                    thinkers@[spec_light_prefix(map.sectors@, j)],
                ),
        decreases n_sectors - s,
    {
        let special = map.sectors[s].special_type;
        let ghost before = thinkers@;
        if special == 1 {
            thinkers.push(Thinker::LightFlash(LightFlash::new(map, levels, s)));
        } else if special == 2 {
            thinkers.push(Thinker::StrobeFlash(StrobeFlash::new(map, levels, s, FAST_DARK, false)));
        } else if special == 3 {
            thinkers.push(Thinker::StrobeFlash(StrobeFlash::new(map, levels, s, SLOW_DARK, false)));
        } else if special == 4 {
            thinkers.push(Thinker::StrobeFlash(StrobeFlash::new(map, levels, s, FAST_DARK, false)));
        } else if special == 8 {
            thinkers.push(Thinker::GlowingLight(GlowingLight::new(map, levels, s)));
        } else if special == 12 {
            thinkers.push(Thinker::StrobeFlash(StrobeFlash::new(map, levels, s, SLOW_DARK, true)));
        } else if special == 13 {
            thinkers.push(Thinker::StrobeFlash(StrobeFlash::new(map, levels, s, FAST_DARK, true)));
        } else if special == 17 {
            proof {
                lemma_min_surround_nonneg(
                    *map,
                    levels@,
                    s as int,
                    0,
                    levels@[s as int] as int,
                );
                lemma_min_surround_le_acc(
                    *map,
                    levels@,
                    s as int,
                    0,
                    levels@[s as int] as int,
                );
            }
            thinkers.push(Thinker::FireFlicker(FireFlicker::new(map, levels, s)));
        }
        proof {
            if spec_is_light_special(special as int) {
                assert(spec_light_prefix(map.sectors@, s as int) == before.len());
                assert(spec_expected_light_thinker(
                    *map,
                    levels@,
                    s as int,
                    thinkers@[before.len() as int],
                ));
            }
            assert forall|j: int|
                0 <= j < s + 1 && spec_is_light_special(
                    (#[trigger] map.sectors@[j]).special_type as int,
                ) implies spec_expected_light_thinker(
                *map,
                levels@,
                j,
                thinkers@[spec_light_prefix(map.sectors@, j)],
            ) by {
                if j < s {
                    lemma_light_prefix_mono(map.sectors@, 0, j);
                    lemma_light_prefix_mono(map.sectors@, j + 1, s as int);
                    assert(spec_light_prefix(map.sectors@, j) < before.len());
                    assert(thinkers@[spec_light_prefix(map.sectors@, j)]
                        == before[spec_light_prefix(map.sectors@, j)]);
                }
            }
        }
        s = s + 1;
    }

    let mut o: usize = 0;
    let ghost base = thinkers@.len();
    while o < n_objects
        invariant
            n_objects == map_objects.objects@.len(),
            n_sectors == map.sectors@.len(),
            spec_states_wf(states@),
            spec_objects_wf(map_objects.objects@, states@.len() as int),
            o <= n_objects,
            thinkers@.len() == base + o,
            base == spec_light_prefix(map.sectors@, map.sectors@.len() as int),
            spec_thinkers_wf(thinkers@, n_sectors as int, n_objects as int),
            forall|j: int|
                0 <= j < map.sectors@.len() && spec_is_light_special(
                    (#[trigger] map.sectors@[j]).special_type as int,
                ) ==> spec_expected_light_thinker(
                    *map,
                    levels@,
                    j,
                    thinkers@[spec_light_prefix(map.sectors@, j)],
                ),
            forall|j: int|
                0 <= j < o ==> #[trigger] thinkers@[base + j] == Thinker::MapObject(
                    MapObjectThinker {
                        object: j as usize,
                        count: states@[map_objects.objects@[j].state as int].tics,
                    },
                ),
        decreases n_objects - o,
    {
        let ghost before = thinkers@;
        thinkers.push(Thinker::MapObject(MapObjectThinker::new(
            &map_objects.objects,
            states,
            o,
        )));
        proof {
            assert forall|j: int|
                0 <= j < map.sectors@.len() && spec_is_light_special(
                    (#[trigger] map.sectors@[j]).special_type as int,
                ) implies spec_expected_light_thinker(
                *map,
                levels@,
                j,
                thinkers@[spec_light_prefix(map.sectors@, j)],
            ) by {
                lemma_light_prefix_mono(map.sectors@, 0, j);
                lemma_light_prefix_mono(map.sectors@, j + 1, map.sectors@.len() as int);
                assert(spec_light_prefix(map.sectors@, j) < base);
                assert(thinkers@[spec_light_prefix(map.sectors@, j)]
                    == before[spec_light_prefix(map.sectors@, j)]);
            }
        }
        o = o + 1;
    }
    thinkers
}

/// The sector special types that spawn a light thinker.
pub open spec fn spec_is_light_special(special: int) -> bool {
    special == 1 || special == 2 || special == 3 || special == 4 || special == 8 || special == 12
        || special == 13 || special == 17
}

/// Surrounded minimum light never drops below zero when every sector's
/// level and the cap are non-negative.
pub proof fn lemma_min_surround_nonneg(
    m: MapData,
    levels: Seq<i16>,
    sector: int,
    k: int,
    acc: int,
)
    requires
        0 <= k,
        0 <= acc,
        forall|i: int| 0 <= i < levels.len() ==> 0 <= #[trigger] levels[i],
        m.wf(),
        levels.len() == m.sectors@.len(),
    ensures
        0 <= crate::lights::spec_min_surround(m, levels, sector, k, acc),
    decreases m.linedefs@.len() - k,
{
    if k < m.linedefs@.len() {
        let ld = m.linedefs@[k];
        let acc1 = if ld.front_sidedef is Some && ld.back_sidedef is Some
            && m.sidedefs@[ld.front_sidedef.unwrap() as int].sector == sector {
            let other = levels[m.sidedefs@[ld.back_sidedef.unwrap() as int].sector as int] as int;
            if other < acc {
                other
            } else {
                acc
            }
        } else {
            acc
        };
        let acc2 = if ld.front_sidedef is Some && ld.back_sidedef is Some
            && m.sidedefs@[ld.back_sidedef.unwrap() as int].sector == sector {
            let other = levels[m.sidedefs@[ld.front_sidedef.unwrap() as int].sector as int] as int;
            if other < acc1 {
                other
            } else {
                acc1
            }
        } else {
            acc1
        };
        lemma_min_surround_nonneg(m, levels, sector, k + 1, acc2);
    }
}

/// The surrounded minimum never exceeds the starting cap.
pub proof fn lemma_min_surround_le_acc(
    m: MapData,
    levels: Seq<i16>,
    sector: int,
    k: int,
    acc: int,
)
    requires
        0 <= k,
    ensures
        crate::lights::spec_min_surround(m, levels, sector, k, acc) <= acc,
    decreases m.linedefs@.len() - k,
{
    if k < m.linedefs@.len() {
        let ld = m.linedefs@[k];
        let acc1 = if ld.front_sidedef is Some && ld.back_sidedef is Some
            && m.sidedefs@[ld.front_sidedef.unwrap() as int].sector == sector {
            let other = levels[m.sidedefs@[ld.back_sidedef.unwrap() as int].sector as int] as int;
            if other < acc {
                other
            } else {
                acc
            }
        } else {
            acc
        };
        let acc2 = if ld.front_sidedef is Some && ld.back_sidedef is Some
            && m.sidedefs@[ld.back_sidedef.unwrap() as int].sector == sector {
            let other = levels[m.sidedefs@[ld.front_sidedef.unwrap() as int].sector as int] as int;
            if other < acc1 {
                other
            } else {
                acc1
            }
        } else {
            acc1
        };
        lemma_min_surround_le_acc(m, levels, sector, k + 1, acc2);
    }
}

/// Run one game tic over every thinker, in order: sector light thinkers
/// first (they were spawned first), then map object thinkers. Every
/// thinker that is the sole driver of its target steps that target by its
/// own tick rule; cells no thinker drives keep their value, so with no
/// thinker active the scene state is left exactly as it was.
pub fn tick_all(
    thinkers: &mut Vec<Thinker>,
    levels: &mut Vec<i16>,
    objects: &mut Vec<MapObject>,
    states: &Vec<StateDef>,
)
    requires
        spec_thinkers_wf(old(thinkers)@, old(levels)@.len() as int, old(objects)@.len() as int),
        spec_objects_wf(old(objects)@, states@.len() as int),
        spec_states_wf(states@),
    ensures
        final(thinkers)@.len() == old(thinkers)@.len(),
        final(levels)@.len() == old(levels)@.len(),
        final(objects)@.len() == old(objects)@.len(),
        spec_thinkers_wf(final(thinkers)@, final(levels)@.len() as int, final(objects)@.len() as int),
        spec_objects_wf(final(objects)@, states@.len() as int),
        forall|i: int|
            0 <= i < old(thinkers)@.len() && spec_sole_driver(old(thinkers)@, i)
                ==> spec_tick_rel(
                old(thinkers)@[i],
                #[trigger] final(thinkers)@[i],
                old(levels)@,
                final(levels)@,
                old(objects)@,
                final(objects)@,
                states@,
            ),
        forall|x: int|
            0 <= x < old(levels)@.len() && (forall|k: int|
                0 <= k < old(thinkers)@.len() ==> spec_level_target(#[trigger] old(thinkers)@[k])
                    != Some(x)) ==> #[trigger] final(levels)@[x] == old(levels)@[x],
        forall|x: int|
            0 <= x < old(objects)@.len() && (forall|k: int|
                0 <= k < old(thinkers)@.len() ==> spec_object_target(#[trigger] old(thinkers)@[k])
                    != Some(x)) ==> #[trigger] final(objects)@[x] == old(objects)@[x],
{
    let n = thinkers.len();
    let mut i: usize = 0;
    while i < n
        invariant
            n == thinkers@.len(),
            n == old(thinkers)@.len(),
            i <= n,
            levels@.len() == old(levels)@.len(),
            objects@.len() == old(objects)@.len(),
            spec_thinkers_wf(thinkers@, levels@.len() as int, objects@.len() as int),
            spec_objects_wf(objects@, states@.len() as int),
            spec_states_wf(states@),
            forall|k: int| i <= k < n ==> #[trigger] thinkers@[k] == old(thinkers)@[k],
            forall|x: int|
                0 <= x < levels@.len() && (forall|k: int|
                    0 <= k < i ==> spec_level_target(#[trigger] old(thinkers)@[k]) != Some(x))
                    ==> #[trigger] levels@[x] == old(levels)@[x],
            forall|x: int|
                0 <= x < objects@.len() && (forall|k: int|
                    0 <= k < i ==> spec_object_target(#[trigger] old(thinkers)@[k]) != Some(x))
                    ==> #[trigger] objects@[x] == old(objects)@[x],
            forall|k: int|
                0 <= k < i && spec_sole_driver(old(thinkers)@, k) ==> spec_tick_rel(
                    old(thinkers)@[k],
                    #[trigger] thinkers@[k],
                    old(levels)@,
                    levels@,
                    old(objects)@,
                    objects@,
                    states@,
                ),
        decreases n - i,
    {
        let ghost levels_before = levels@;
        let ghost objects_before = objects@;
        let mut t = thinkers[i];
        match &mut t {
            Thinker::LightFlash(l) => l.mutate(levels),
            Thinker::StrobeFlash(s) => s.mutate(levels),
            Thinker::GlowingLight(g) => g.mutate(levels),
            Thinker::FireFlicker(f) => f.mutate(levels),
            Thinker::MapObject(m) => m.mutate(objects, states),
        }
        thinkers.set(i, t);
        proof {
            // The step touched only this thinker's own target cell; sole
            // drivers read and leave the original value there.
            assert forall|x: int|
                0 <= x < levels@.len() && (forall|k: int|
                    0 <= k < i + 1 ==> spec_level_target(#[trigger] old(thinkers)@[k]) != Some(x))
                    implies #[trigger] levels@[x] == old(levels)@[x] by {
                assert(spec_level_target(old(thinkers)@[i as int]) != Some(x));
                assert(levels@[x] == levels_before[x]);
            }
            assert forall|x: int|
                0 <= x < objects@.len() && (forall|k: int|
                    0 <= k < i + 1 ==> spec_object_target(#[trigger] old(thinkers)@[k]) != Some(
                        x,
                    )) implies #[trigger] objects@[x] == old(objects)@[x] by {
                assert(spec_object_target(old(thinkers)@[i as int]) != Some(x));
                assert(objects@[x] == objects_before[x]);
            }
            assert forall|k: int|
                0 <= k < i + 1 && spec_sole_driver(old(thinkers)@, k) implies spec_tick_rel(
                old(thinkers)@[k],
                #[trigger] thinkers@[k],
                old(levels)@,
                levels@,
                old(objects)@,
                objects@,
                states@,
            ) by {
                if k < i {
                    assert(!spec_shares_target(old(thinkers)@[k], old(thinkers)@[i as int]));
                    assert(spec_tick_rel(
                        old(thinkers)@[k],
                        thinkers@[k],
                        old(levels)@,
                        levels_before,
                        old(objects)@,
                        objects_before,
                        states@,
                    ));
                } else {
                    // This thinker's own step: its target still held the
                    // original value when it ran.
                    assert forall|j: int|
                        0 <= j < i ==> spec_level_target(#[trigger] old(thinkers)@[j])
                            != spec_level_target(old(thinkers)@[i as int]) || spec_level_target(
                            old(thinkers)@[i as int],
                        ) is None by {}
                    assert forall|j: int|
                        0 <= j < i ==> spec_object_target(#[trigger] old(thinkers)@[j])
                            != spec_object_target(old(thinkers)@[i as int]) || spec_object_target(
                            old(thinkers)@[i as int],
                        ) is None by {}
                }
            }
        }
        i = i + 1;
    }
}

/// Every map object thinker's target exists; other thinkers are not
/// looked at by the object-wide operations.
pub open spec fn spec_object_thinkers_wf(thinkers: Seq<Thinker>, n_objects: int) -> bool {
    forall|i: int|
        0 <= i < thinkers.len() ==> ((#[trigger] thinkers[i]) matches Thinker::MapObject(m)
            ==> m.object < n_objects)
}

/// Send every map object thinker to its death state: each driven object
/// whose type has one ends in it with that state's tics; objects whose
/// type has none, and all sector light thinkers, are untouched.
pub fn kill_everything(
    thinkers: &mut Vec<Thinker>,
    objects: &mut Vec<MapObject>,
    states: &Vec<StateDef>,
)
    requires
        spec_object_thinkers_wf(old(thinkers)@, old(objects)@.len() as int),
        spec_objects_wf(old(objects)@, states@.len() as int),
        spec_states_wf(states@),
    ensures
        final(thinkers)@.len() == old(thinkers)@.len(),
        final(objects)@.len() == old(objects)@.len(),
        spec_object_thinkers_wf(final(thinkers)@, final(objects)@.len() as int),
        spec_objects_wf(final(objects)@, states@.len() as int),
        forall|i: int|
            0 <= i < old(thinkers)@.len() && !(old(thinkers)@[i] is MapObject)
                ==> #[trigger] final(thinkers)@[i] == old(thinkers)@[i],
        forall|i: int|
            0 <= i < old(thinkers)@.len() && spec_sole_driver(old(thinkers)@, i)
                ==> spec_kill_rel_t(
                old(thinkers)@[i],
                #[trigger] final(thinkers)@[i],
                old(objects)@,
                final(objects)@,
                states@,
            ),
        forall|x: int|
            0 <= x < old(objects)@.len() && (forall|k: int|
                0 <= k < old(thinkers)@.len() ==> spec_object_target(#[trigger] old(thinkers)@[k])
                    != Some(x)) ==> #[trigger] final(objects)@[x] == old(objects)@[x],
{
    let n = thinkers.len();
    let mut i: usize = 0;
    while i < n
        invariant
            n == thinkers@.len(),
            n == old(thinkers)@.len(),
            i <= n,
            objects@.len() == old(objects)@.len(),
            spec_object_thinkers_wf(thinkers@, objects@.len() as int),
            spec_objects_wf(objects@, states@.len() as int),
            spec_states_wf(states@),
            forall|k: int| i <= k < n ==> #[trigger] thinkers@[k] == old(thinkers)@[k],
            forall|k: int|
                0 <= k < n && !(old(thinkers)@[k] is MapObject) ==> #[trigger] thinkers@[k]
                    == old(thinkers)@[k],
            forall|x: int|
                0 <= x < objects@.len() && (forall|k: int|
                    0 <= k < i ==> spec_object_target(#[trigger] old(thinkers)@[k]) != Some(x))
                    ==> #[trigger] objects@[x] == old(objects)@[x],
            forall|k: int|
                0 <= k < i && spec_sole_driver(old(thinkers)@, k) ==> spec_kill_rel_t(
                    old(thinkers)@[k],
                    #[trigger] thinkers@[k],
                    old(objects)@,
                    objects@,
                    states@,
                ),
        decreases n - i,
    {
        let ghost objects_before = objects@;
        let mut t = thinkers[i];
        if let Thinker::MapObject(m) = &mut t {
            m.kill(objects, states);
        }
        thinkers.set(i, t);
        proof {
            assert forall|x: int|
                0 <= x < objects@.len() && (forall|k: int|
                    0 <= k < i + 1 ==> spec_object_target(#[trigger] old(thinkers)@[k]) != Some(
                        x,
                    )) implies #[trigger] objects@[x] == old(objects)@[x] by {
                assert(spec_object_target(old(thinkers)@[i as int]) != Some(x));
                assert(objects@[x] == objects_before[x]);
            }
            assert forall|k: int|
                0 <= k < i + 1 && spec_sole_driver(old(thinkers)@, k) implies spec_kill_rel_t(
                old(thinkers)@[k],
                #[trigger] thinkers@[k],
                old(objects)@,
                objects@,
                states@,
            ) by {
                if k < i {
                    assert(!spec_shares_target(old(thinkers)@[k], old(thinkers)@[i as int]));
                    assert(spec_kill_rel_t(
                        old(thinkers)@[k],
                        thinkers@[k],
                        old(objects)@,
                        objects_before,
                        states@,
                    ));
                } else {
                    assert forall|j: int|
                        0 <= j < i ==> spec_object_target(#[trigger] old(thinkers)@[j])
                            != spec_object_target(old(thinkers)@[i as int]) || spec_object_target(
                            old(thinkers)@[i as int],
                        ) is None by {}
                }
            }
        }
        i = i + 1;
    }
}

/// Send every map object thinker to its exploded-death state, falling
/// back to the plain death state; sector light thinkers are untouched.
pub fn explode_everything(
    thinkers: &mut Vec<Thinker>,
    objects: &mut Vec<MapObject>,
    states: &Vec<StateDef>,
)
    requires
        spec_object_thinkers_wf(old(thinkers)@, old(objects)@.len() as int),
        spec_objects_wf(old(objects)@, states@.len() as int),
        spec_states_wf(states@),
    ensures
        final(thinkers)@.len() == old(thinkers)@.len(),
        final(objects)@.len() == old(objects)@.len(),
        spec_object_thinkers_wf(final(thinkers)@, final(objects)@.len() as int),
        spec_objects_wf(final(objects)@, states@.len() as int),
        forall|i: int|
            0 <= i < old(thinkers)@.len() && !(old(thinkers)@[i] is MapObject)
                ==> #[trigger] final(thinkers)@[i] == old(thinkers)@[i],
        forall|i: int|
            0 <= i < old(thinkers)@.len() && spec_sole_driver(old(thinkers)@, i)
                ==> spec_explode_rel_t(
                old(thinkers)@[i],
                #[trigger] final(thinkers)@[i],
                old(objects)@,
                final(objects)@,
                states@,
            ),
        forall|x: int|
            0 <= x < old(objects)@.len() && (forall|k: int|
                0 <= k < old(thinkers)@.len() ==> spec_object_target(#[trigger] old(thinkers)@[k])
                    != Some(x)) ==> #[trigger] final(objects)@[x] == old(objects)@[x],
{
    let n = thinkers.len();
    let mut i: usize = 0;
    while i < n
        invariant
            n == thinkers@.len(),
            n == old(thinkers)@.len(),
            i <= n,
            objects@.len() == old(objects)@.len(),
            spec_object_thinkers_wf(thinkers@, objects@.len() as int),
            spec_objects_wf(objects@, states@.len() as int),
            spec_states_wf(states@),
            forall|k: int| i <= k < n ==> #[trigger] thinkers@[k] == old(thinkers)@[k],
            forall|k: int|
                0 <= k < n && !(old(thinkers)@[k] is MapObject) ==> #[trigger] thinkers@[k]
                    == old(thinkers)@[k],
            forall|x: int|
                0 <= x < objects@.len() && (forall|k: int|
                    0 <= k < i ==> spec_object_target(#[trigger] old(thinkers)@[k]) != Some(x))
                    ==> #[trigger] objects@[x] == old(objects)@[x],
            forall|k: int|
                0 <= k < i && spec_sole_driver(old(thinkers)@, k) ==> spec_explode_rel_t(
                    old(thinkers)@[k],
                    #[trigger] thinkers@[k],
                    old(objects)@,
                    objects@,
                    states@,
                ),
        decreases n - i,
    {
        let ghost objects_before = objects@;
        let mut t = thinkers[i];
        if let Thinker::MapObject(m) = &mut t {
            m.explode(objects, states);
        }
        thinkers.set(i, t);
        proof {
            assert forall|x: int|
                0 <= x < objects@.len() && (forall|k: int|
                    0 <= k < i + 1 ==> spec_object_target(#[trigger] old(thinkers)@[k]) != Some(
                        x,
                    )) implies #[trigger] objects@[x] == old(objects)@[x] by {
                assert(spec_object_target(old(thinkers)@[i as int]) != Some(x));
                assert(objects@[x] == objects_before[x]);
            }
            assert forall|k: int|
                0 <= k < i + 1 && spec_sole_driver(old(thinkers)@, k) implies spec_explode_rel_t(
                old(thinkers)@[k],
                #[trigger] thinkers@[k],
                old(objects)@,
                objects@,
                states@,
            ) by {
                if k < i {
                    assert(!spec_shares_target(old(thinkers)@[k], old(thinkers)@[i as int]));
                    assert(spec_explode_rel_t(
                        old(thinkers)@[k],
                        thinkers@[k],
                        old(objects)@,
                        objects_before,
                        states@,
                    ));
                } else {
                    assert forall|j: int|
                        0 <= j < i ==> spec_object_target(#[trigger] old(thinkers)@[j])
                            != spec_object_target(old(thinkers)@[i as int]) || spec_object_target(
                            old(thinkers)@[i as int],
                        ) is None by {}
                }
            }
        }
        i = i + 1;
    }
}

/// Send every map object thinker back to its spawn state with that
/// state's tics; sector light thinkers are untouched.
pub fn respawn_everything(
    thinkers: &mut Vec<Thinker>,
    objects: &mut Vec<MapObject>,
    states: &Vec<StateDef>,
)
    requires
        spec_object_thinkers_wf(old(thinkers)@, old(objects)@.len() as int),
        spec_objects_wf(old(objects)@, states@.len() as int),
        spec_states_wf(states@),
    ensures
        final(thinkers)@.len() == old(thinkers)@.len(),
        final(objects)@.len() == old(objects)@.len(),
        spec_object_thinkers_wf(final(thinkers)@, final(objects)@.len() as int),
        spec_objects_wf(final(objects)@, states@.len() as int),
        forall|i: int|
            0 <= i < old(thinkers)@.len() && !(old(thinkers)@[i] is MapObject)
                ==> #[trigger] final(thinkers)@[i] == old(thinkers)@[i],
        forall|i: int|
            0 <= i < old(thinkers)@.len() && spec_sole_driver(old(thinkers)@, i)
                ==> spec_respawn_rel_t(
                old(thinkers)@[i],
                #[trigger] final(thinkers)@[i],
                old(objects)@,
                final(objects)@,
                states@,
            ),
        forall|x: int|
            0 <= x < old(objects)@.len() && (forall|k: int|
                0 <= k < old(thinkers)@.len() ==> spec_object_target(#[trigger] old(thinkers)@[k])
                    != Some(x)) ==> #[trigger] final(objects)@[x] == old(objects)@[x],
{
    let n = thinkers.len();
    let mut i: usize = 0;
    while i < n
        invariant
            n == thinkers@.len(),
            n == old(thinkers)@.len(),
            i <= n,
            objects@.len() == old(objects)@.len(),
            spec_object_thinkers_wf(thinkers@, objects@.len() as int),
            spec_objects_wf(objects@, states@.len() as int),
            spec_states_wf(states@),
            forall|k: int| i <= k < n ==> #[trigger] thinkers@[k] == old(thinkers)@[k],
            forall|k: int|
                0 <= k < n && !(old(thinkers)@[k] is MapObject) ==> #[trigger] thinkers@[k]
                    == old(thinkers)@[k],
            forall|x: int|
                0 <= x < objects@.len() && (forall|k: int|
                    0 <= k < i ==> spec_object_target(#[trigger] old(thinkers)@[k]) != Some(x))
                    ==> #[trigger] objects@[x] == old(objects)@[x],
            forall|k: int|
                0 <= k < i && spec_sole_driver(old(thinkers)@, k) ==> spec_respawn_rel_t(
                    old(thinkers)@[k],
                    #[trigger] thinkers@[k],
                    old(objects)@,
                    objects@,
                    states@,
                ),
        decreases n - i,
    {
        let ghost objects_before = objects@;
        let mut t = thinkers[i];
        if let Thinker::MapObject(m) = &mut t {
            m.respawn(objects, states);
        }
        thinkers.set(i, t);
        proof {
            assert forall|x: int|
                0 <= x < objects@.len() && (forall|k: int|
                    0 <= k < i + 1 ==> spec_object_target(#[trigger] old(thinkers)@[k]) != Some(
                        x,
                    )) implies #[trigger] objects@[x] == old(objects)@[x] by {
                assert(spec_object_target(old(thinkers)@[i as int]) != Some(x));
                assert(objects@[x] == objects_before[x]);
            }
            assert forall|k: int|
                0 <= k < i + 1 && spec_sole_driver(old(thinkers)@, k) implies spec_respawn_rel_t(
                old(thinkers)@[k],
                #[trigger] thinkers@[k],
                old(objects)@,
                objects@,
                states@,
            ) by {
                if k < i {
                    assert(!spec_shares_target(old(thinkers)@[k], old(thinkers)@[i as int]));
                    assert(spec_respawn_rel_t(
                        old(thinkers)@[k],
                        thinkers@[k],
                        old(objects)@,
                        objects_before,
                        states@,
                    ));
                } else {
                    assert forall|j: int|
                        0 <= j < i ==> spec_object_target(#[trigger] old(thinkers)@[j])
                            != spec_object_target(old(thinkers)@[i as int]) || spec_object_target(
                            old(thinkers)@[i as int],
                        ) is None by {}
                }
            }
        }
        i = i + 1;
    }
}

} // verus!
