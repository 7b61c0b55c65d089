use vstd::prelude::*;

use crate::map::MapData;
use crate::things::Thing;

verus! {

/// The state table index that means "no state".
pub const STATE_NULL: usize = 0;

/// One animation state: the sprite and frame to show, how long, and what
/// follows. A tic count of -1 means the state never advances.
#[derive(Clone, Copy, Debug, PartialEq, Eq, Structural)]
pub struct StateDef {
    /// Index into the sprite name list.
    pub sprite: usize,
    /// Frame letter as an index (A is 0).
    pub frame: u8,
    /// Render at full brightness, ignoring the sector light.
    pub full_bright: bool,
    /// Tics to stay in this state; -1 to stay forever.
    pub tics: i16,
    /// Index of the next state.
    pub next_state: usize,
}

/// A map object type descriptor.
#[derive(Clone, Copy, Debug, PartialEq, Eq, Structural)]
pub struct MapObjectInfo {
    /// The thing type code this descriptor spawns from.
    pub id: i16,
    pub spawn_state: usize,
    pub radius: i16,
    pub height: i16,
    pub death_state: usize,
    pub xdeath_state: usize,
}

/// Every state's successor stays inside the table, and the null state
/// exists.
pub open spec fn spec_states_wf(states: Seq<StateDef>) -> bool {
    &&& states.len() > 0
    &&& forall|i: int| 0 <= i < states.len() ==> (#[trigger] states[i]).next_state < states.len()
}

/// Every descriptor's states stay inside the table.
pub open spec fn spec_infos_wf(infos: Seq<MapObjectInfo>, n_states: int) -> bool {
    forall|i: int|
        0 <= i < infos.len() ==> (#[trigger] infos[i]).spawn_state < n_states
            && infos[i].death_state < n_states && infos[i].xdeath_state < n_states
}

/// A live map object: its descriptor, current state, position and facing.
#[derive(Clone, Copy, Debug, PartialEq, Eq, Structural)]
pub struct MapObject {
    pub info: MapObjectInfo,
    /// Index of the current state.
    pub state: usize,
    pub x: i16,
    pub y: i16,
    /// Facing angle in degrees; east is 0.
    pub angle_degrees: i16,
    pub flags: i16,
}

/// The index of the first descriptor with the given type code.
pub open spec fn spec_find_info(infos: Seq<MapObjectInfo>, code: int, lo: int) -> Option<int>
    decreases infos.len() - lo,
{
    if lo < 0 || lo >= infos.len() {
        None
    } else if infos[lo].id == code {
        Some(lo)
    } else {
        spec_find_info(infos, code, lo + 1)
    }
}

/// Is this thing a player or deathmatch start rather than a map object?
pub open spec fn spec_is_start(t: Thing) -> bool {
    (1 <= t.thing_type <= 4) || t.thing_type == 11
}

/// The map objects spawned from the things from position `k` on: every
/// thing that is not a start and has a known descriptor, in thing order,
/// placed in its descriptor's spawn state.
pub open spec fn spec_spawned(
    things: Seq<Thing>,
    infos: Seq<MapObjectInfo>,
    k: int,
) -> Seq<MapObject>
    decreases things.len() - k,
    when 0 <= k
{
    if k >= things.len() {
        Seq::empty()
    } else {
        let rest = spec_spawned(things, infos, k + 1);
        if spec_is_start(things[k]) {
            rest
        } else {
            match spec_find_info(infos, things[k].thing_type as int, 0) {
                Some(i) => seq![
                    MapObject {
                        info: infos[i],
                        state: infos[i].spawn_state,
                        x: things[k].x,
                        y: things[k].y,
                        angle_degrees: things[k].angle_degrees,
                        flags: things[k].flags,
                    },
                ] + rest,
                None => rest,
            }
        }
    }
}

/// A successful descriptor search lands inside the table.
pub proof fn lemma_find_info_some(infos: Seq<MapObjectInfo>, code: int, lo: int)
    requires
        spec_find_info(infos, code, lo) is Some,
    ensures
        lo <= spec_find_info(infos, code, lo).unwrap() < infos.len(),
    decreases infos.len() - lo,
{
    if 0 <= lo < infos.len() && infos[lo].id != code {
        lemma_find_info_some(infos, code, lo + 1);
    }
}

/// Spawning preserves well-formedness: when every descriptor's states
/// stay inside the state table, so do every spawned object's.
pub proof fn lemma_spawned_objects_wf(
    things: Seq<Thing>,
    infos: Seq<MapObjectInfo>,
    k: int,
    n_states: int,
)
    requires
        0 <= k,
        spec_infos_wf(infos, n_states),
    ensures
        forall|i: int|
            0 <= i < spec_spawned(things, infos, k).len() ==> {
                let obj = #[trigger] spec_spawned(things, infos, k)[i];
                &&& obj.state < n_states
                &&& obj.info.spawn_state < n_states
                &&& obj.info.death_state < n_states
                &&& obj.info.xdeath_state < n_states
            },
    decreases things.len() - k,
{
    if k < things.len() {
        lemma_spawned_objects_wf(things, infos, k + 1, n_states);
        let rest = spec_spawned(things, infos, k + 1);
        if !spec_is_start(things[k]) {
            match spec_find_info(infos, things[k].thing_type as int, 0) {
                Some(d) => {
                    lemma_find_info_some(infos, things[k].thing_type as int, 0);
                    assert forall|i: int|
                        0 <= i < spec_spawned(things, infos, k).len() implies {
                        let obj = #[trigger] spec_spawned(things, infos, k)[i];
                        &&& obj.state < n_states
                        &&& obj.info.spawn_state < n_states
                        &&& obj.info.death_state < n_states
                        &&& obj.info.xdeath_state < n_states
                    } by {
                        if i > 0 {
                            assert(spec_spawned(things, infos, k)[i] == rest[i - 1]);
                        }
                    }
                },
                None => {},
            }
        }
    }
}

/// Find the first descriptor for a type code.
fn find_info(infos: &Vec<MapObjectInfo>, code: i16) -> (r: Option<usize>)
    ensures
        match r {
            Some(i) => i < infos@.len() && spec_find_info(infos@, code as int, 0) == Some(
                i as int,
            ),
            None => spec_find_info(infos@, code as int, 0) is None,
        },
{
    let mut i: usize = 0;
    while i < infos.len()
        invariant
            i <= infos@.len(),
            spec_find_info(infos@, code as int, 0) == spec_find_info(infos@, code as int, i as int),
        decreases infos@.len() - i,
    {
        if infos[i].id == code {
            return Some(i);
        }
        i = i + 1;
    }
    None
}

/// The spawned map objects of a map: every thing that is neither a player
/// nor a deathmatch start and whose type has a descriptor; things with
/// unknown types are skipped, not fatal.
pub struct MapObjects {
    pub objects: Vec<MapObject>,
}

impl MapObjects {
    /// Spawn the map objects from the map's things.
    pub fn new(map: &MapData, infos: &Vec<MapObjectInfo>) -> (r: MapObjects)
        ensures
            r.objects@ == spec_spawned(map.things@, infos@, 0),
    {
        let mut objects: Vec<MapObject> = Vec::new();
        let n = map.things.len();
        let mut k: usize = n;
        proof {
            assert(spec_spawned(map.things@, infos@, n as int) =~= Seq::<MapObject>::empty());
        }
        // Build from the back so each step prepends, mirroring the spec.
        while k > 0
            invariant
                n == map.things@.len(),
                k <= n,
                objects@ == spec_spawned(map.things@, infos@, k as int),
            decreases k,
        {
            k = k - 1;
            let thing = &map.things[k];
            let is_start = (1 <= thing.thing_type && thing.thing_type <= 4) || thing.thing_type
                == 11;
            if !is_start {
                if let Some(i) = find_info(infos, thing.thing_type) {
                    let ghost before = objects@;
                    objects.insert(0, MapObject {
                        info: infos[i],
                        state: infos[i].spawn_state,
                        x: thing.x,
                        y: thing.y,
                        angle_degrees: thing.angle_degrees,
                        flags: thing.flags,
                    });
                    proof {
                        assert(objects@ =~= seq![objects@[0]] + before);
                    }
                }
            }
        }
        MapObjects { objects }
    }
}

/// Advances one map object's animation: counts its state's tics down and
/// moves it to the next state on expiry.
#[derive(Clone, Copy, Debug, PartialEq, Eq, Structural)]
pub struct MapObjectThinker {
    /// Index of the driven map object.
    pub object: usize,
    /// Tics left in the current state; -1 means stay forever.
    pub count: i16,
}

impl MapObjectThinker {
    /// A thinker for one object, starting with its state's full tic count.
    pub fn new(objects: &Vec<MapObject>, states: &Vec<StateDef>, object: usize) -> (r:
        MapObjectThinker)
        requires
            object < objects@.len(),
            objects@[object as int].state < states@.len(),
        ensures
            r.object == object,
            r.count == states@[objects@[object as int].state as int].tics,
    {
        MapObjectThinker { object, count: states[objects[object].state].tics }
    }

    /// Move the object to a state and reload the counter with its tics.
    fn move_to_state(&mut self, objects: &mut Vec<MapObject>, states: &Vec<StateDef>, state: usize)
        requires
            old(self).object < old(objects)@.len(),
            state < states@.len(),
        ensures
            final(self).object == old(self).object,
            final(self).count == states@[state as int].tics,
            final(objects)@.len() == old(objects)@.len(),
            final(objects)@[old(self).object as int] == (MapObject {
                state,
                ..old(objects)@[old(self).object as int]
            }),
            forall|i: int|
                0 <= i < old(objects)@.len() && i != old(self).object ==> final(objects)@[i]
                    == old(objects)@[i],
    {
        let mut obj = objects[self.object];
        obj.state = state;
        objects.set(self.object, obj);
        self.count = states[state].tics;
    }

    /// One tic: a counter of -1 stays; otherwise count down, and on
    /// reaching zero advance to the current state's successor.
    pub fn mutate(&mut self, objects: &mut Vec<MapObject>, states: &Vec<StateDef>)
        requires
            old(self).object < old(objects)@.len(),
            old(objects)@[old(self).object as int].state < states@.len(),
            spec_states_wf(states@),
        ensures
            final(self).object == old(self).object,
            final(objects)@.len() == old(objects)@.len(),
            forall|i: int|
                0 <= i < old(objects)@.len() && i != old(self).object ==> final(objects)@[i]
                    == old(objects)@[i],
            ({
                let obj = old(objects)@[old(self).object as int];
                let next = states@[obj.state as int].next_state;
                if old(self).count == -1 {
                    final(objects)@ == old(objects)@ && final(self).count == -1
                } else if old(self).count - 1 > 0 {
                    final(objects)@ == old(objects)@ && final(self).count == old(self).count - 1
                } else {
                    final(objects)@[old(self).object as int] == MapObject { state: next, ..obj }
                        && final(self).count == states@[next as int].tics
                }
            }),
    {
        if self.count == -1 {
            return ;
        }
        if self.count as i32 - 1 > 0 {
            self.count = self.count - 1;
            return ;
        }
        let next = states[objects[self.object].state].next_state;
        self.move_to_state(objects, states, next);
    }

    /// Jump to the object type's death state; no-op when it has none.
    pub fn kill(&mut self, objects: &mut Vec<MapObject>, states: &Vec<StateDef>)
        requires
            old(self).object < old(objects)@.len(),
            old(objects)@[old(self).object as int].info.death_state < states@.len(),
        ensures
            final(self).object == old(self).object,
            final(objects)@.len() == old(objects)@.len(),
            forall|i: int|
                0 <= i < old(objects)@.len() && i != old(self).object ==> final(objects)@[i]
                    == old(objects)@[i],
            ({
                let obj = old(objects)@[old(self).object as int];
                if obj.info.death_state == STATE_NULL {
                    final(objects)@ == old(objects)@ && final(self).count == old(self).count
                } else {
                    final(objects)@[old(self).object as int] == MapObject {
                        state: obj.info.death_state,
                        ..obj
                    } && final(self).count == states@[obj.info.death_state as int].tics
                }
            }),
    {
        let death_state = objects[self.object].info.death_state;
        if death_state != STATE_NULL {
            self.move_to_state(objects, states, death_state);
        }
    }

    /// Jump to the exploded-death state, falling back to the plain death
    /// state when the type has none.
    pub fn explode(&mut self, objects: &mut Vec<MapObject>, states: &Vec<StateDef>)
        requires
            old(self).object < old(objects)@.len(),
            old(objects)@[old(self).object as int].info.death_state < states@.len(),
            old(objects)@[old(self).object as int].info.xdeath_state < states@.len(),
        ensures
            final(self).object == old(self).object,
            final(objects)@.len() == old(objects)@.len(),
            forall|i: int|
                0 <= i < old(objects)@.len() && i != old(self).object ==> final(objects)@[i]
                    == old(objects)@[i],
            ({
                let obj = old(objects)@[old(self).object as int];
                if obj.info.xdeath_state != STATE_NULL {
                    final(objects)@[old(self).object as int] == MapObject {
                        state: obj.info.xdeath_state,
                        ..obj
                    } && final(self).count == states@[obj.info.xdeath_state as int].tics
                } else if obj.info.death_state != STATE_NULL {
                    final(objects)@[old(self).object as int] == MapObject {
                        state: obj.info.death_state,
                        ..obj
                    } && final(self).count == states@[obj.info.death_state as int].tics
                } else {
                    final(objects)@ == old(objects)@ && final(self).count == old(self).count
                }
            }),
    {
        let xdeath_state = objects[self.object].info.xdeath_state;
        if xdeath_state != STATE_NULL {
            self.move_to_state(objects, states, xdeath_state);
            return ;
        }
        self.kill(objects, states);
    }

    /// Jump back to the object type's spawn state.
    pub fn respawn(&mut self, objects: &mut Vec<MapObject>, states: &Vec<StateDef>)
        requires
            old(self).object < old(objects)@.len(),
            old(objects)@[old(self).object as int].info.spawn_state < states@.len(),
        ensures
            final(self).object == old(self).object,
            final(objects)@.len() == old(objects)@.len(),
            forall|i: int|
                0 <= i < old(objects)@.len() && i != old(self).object ==> final(objects)@[i]
                    == old(objects)@[i],
            ({
                let obj = old(objects)@[old(self).object as int];
                final(objects)@[old(self).object as int] == MapObject {
                    state: obj.info.spawn_state,
                    ..obj
                } && final(self).count == states@[obj.info.spawn_state as int].tics
            }),
    {
        let spawn_state = objects[self.object].info.spawn_state;
        self.move_to_state(objects, states, spawn_state);
    }
}

} // verus!
