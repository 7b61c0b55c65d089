use vstd::prelude::*;

use crate::map::MapData;
use crate::rng::rand_in_range;
use crate::sectors::Sector;

verus! {

/// Dark phase length of a slow strobe, in tics.
pub const SLOW_DARK: i16 = 35;

/// Dark phase length of a fast strobe, in tics.
pub const FAST_DARK: i16 = 15;

/// Bright phase length of every strobe, in tics.
pub const STROBE_BRIGHT: i16 = 5;

/// Step a glowing light moves by each tic.
pub const GLOW_SPEED: i16 = 8;

/// The runtime light level of every sector, in sector order. Sector
/// records keep their loaded value; thinkers mutate only this table.
pub fn initial_light_levels(sectors: &Vec<Sector>) -> (r: Vec<i16>)
    ensures
        r@.len() == sectors@.len(),
        forall|i: int|
            0 <= i < sectors@.len() ==> #[trigger] r@[i] == sectors@[i].light_level,
{
    let mut levels: Vec<i16> = Vec::new();
    let mut i: usize = 0;
    while i < sectors.len()
        invariant
            i <= sectors@.len(),
            levels@.len() == i,
            forall|j: int| 0 <= j < i ==> #[trigger] levels@[j] == sectors@[j].light_level,
        decreases sectors@.len() - i,
    {
        levels.push(sectors[i].light_level);
        i = i + 1;
    }
    levels
}

/// The minimum light among sectors sharing a linedef with `sector`,
/// folded left over the linedefs from position `k`, starting from `acc`.
pub open spec fn spec_min_surround(
    m: MapData,
    levels: Seq<i16>,
    sector: int,
    k: int,
    acc: int,
) -> int
    decreases m.linedefs@.len() - k,
    when 0 <= k
{
    if k >= m.linedefs@.len() {
        acc
    } else {
        let ld = m.linedefs@[k];
        let acc1 = if ld.front_sidedef is Some && ld.back_sidedef is Some
            && m.sidedefs@[ld.front_sidedef.unwrap() as int].sector == sector {
            let other = levels[m.sidedefs@[ld.back_sidedef.unwrap() as int].sector as int] as int;
            if other < acc {
                other
            } else {
                acc
            }
        } else {
            acc
        };
        let acc2 = if ld.front_sidedef is Some && ld.back_sidedef is Some
            && m.sidedefs@[ld.back_sidedef.unwrap() as int].sector == sector {
            let other = levels[m.sidedefs@[ld.front_sidedef.unwrap() as int].sector as int] as int;
            if other < acc1 {
                other
            } else {
                acc1
            }
        } else {
            acc1
        };
        spec_min_surround(m, levels, sector, k + 1, acc2)
    }
}

/// The minimum light level of all sectors sharing a linedef with the
/// target sector, capped above by `max`.
pub fn find_min_surrounding_light(
    map: &MapData,
    levels: &Vec<i16>,
    sector: usize,
    max: i16,
) -> (r: i16)
    requires
        map.wf(),
        levels@.len() == map.sectors@.len(),
    ensures
        r == spec_min_surround(*map, levels@, sector as int, 0, max as int),
{
    let mut acc: i16 = max;
    let mut k: usize = 0;
    while k < map.linedefs.len()
        invariant
            map.wf(),
            levels@.len() == map.sectors@.len(),
            k <= map.linedefs@.len(),
            spec_min_surround(*map, levels@, sector as int, 0, max as int) == spec_min_surround(
                *map,
                levels@,
                sector as int,
                k as int,
                acc as int,
            ),
        decreases map.linedefs@.len() - k,
    {
        let ld = &map.linedefs[k];
        if let Some(front) = ld.front_sidedef {
            if let Some(back) = ld.back_sidedef {
                if map.sidedefs[front].sector == sector {
                    let other = levels[map.sidedefs[back].sector];
                    if other < acc {
                        acc = other;
                    }
                }
                if map.sidedefs[back].sector == sector {
                    let other = levels[map.sidedefs[front].sector];
                    if other < acc {
                        acc = other;
                    }
                }
            }
        }
        k = k + 1;
    }
    acc
}

// -------------------------------------------------------------------------
// Strobe flash: fixed dark and bright phases.
// -------------------------------------------------------------------------

/// A strobing light: alternates its sector between a bright and a dark
/// level with fixed phase lengths.
#[derive(Clone, Copy, Debug, PartialEq, Eq, Structural)]
pub struct StrobeFlash {
    /// Index of the driven sector.
    pub sector: usize,
    pub min_light: i16,
    pub max_light: i16,
    pub dark_time: i16,
    pub bright_time: i16,
    /// Tics until the next switch.
    pub count: i16,
}

/// One strobe tic on the pair (light, count): the countdown decrements,
/// and on expiry the light switches level and reloads the phase length.
pub open spec fn spec_strobe_step(s: StrobeFlash, light: int, count: int) -> (int, int) {
    if count - 1 > 0 {
        (light, count - 1)
    } else if light == s.max_light {
        (s.min_light as int, s.dark_time as int)
    } else {
        (s.max_light as int, s.bright_time as int)
    }
}

/// `n` strobe tics, the last one peeled off.
pub open spec fn spec_strobe_iter(s: StrobeFlash, light: int, count: int, n: nat) -> (int, int)
    decreases n,
{
    if n == 0 {
        (light, count)
    } else {
        let prev = spec_strobe_iter(s, light, count, (n - 1) as nat);
        spec_strobe_step(s, prev.0, prev.1)
    }
}

/// The state of a fast strobe `k` tics after it switched to bright: four
/// bright countdown tics, a switch to dark, fourteen dark countdown tics,
/// and the switch back to bright.
pub open spec fn spec_strobe_cycle_state(s: StrobeFlash, k: int) -> (int, int) {
    if 0 <= k < 5 {
        (s.max_light as int, 5 - k)
    } else if 5 <= k < 20 {
        (s.min_light as int, 20 - k)
    } else {
        (s.max_light as int, 5)
    }
}

/// A fast strobe walks its 20-tic cycle state by state.
pub proof fn lemma_strobe_cycle(s: StrobeFlash, k: int)
    requires
        s.dark_time == 15,
        s.bright_time == 5,
        s.min_light != s.max_light,
        0 <= k <= 20,
    ensures
        spec_strobe_iter(s, s.max_light as int, 5, k as nat) == spec_strobe_cycle_state(s, k),
    decreases k,
{
    if k > 0 {
        lemma_strobe_cycle(s, k - 1);
    }
}

/// Thinker periodicity: a strobe with dark time 15 and bright time 5 that
/// has just switched to its bright level is back in exactly that state
/// after every 20th tic, and never in between.
pub proof fn lemma_strobe_periodicity(s: StrobeFlash, k: int)
    requires
        s.dark_time == 15,
        s.bright_time == 5,
        s.min_light != s.max_light,
        0 < k <= 20,
    ensures
        spec_strobe_iter(s, s.max_light as int, 5, 20) == (s.max_light as int, 5int),
        k < 20 ==> spec_strobe_iter(s, s.max_light as int, 5, k as nat) != (
            s.max_light as int,
            5int,
        ),
{
    lemma_strobe_cycle(s, 20);
    lemma_strobe_cycle(s, k);
}

/// A strobing sector's light only ever holds the strobe's two levels:
/// one tic maps a light at either level to a light at either level, and
/// the constructor starts the sector at its bright level.
pub proof fn lemma_strobe_two_values(s: StrobeFlash, light: int, count: int)
    requires
        light == s.min_light || light == s.max_light,
    ensures
        ({
            let stepped = spec_strobe_step(s, light, count);
            stepped.0 == s.min_light || stepped.0 == s.max_light
        }),
{
}

impl StrobeFlash {
    /// A strobe on a sector: bright at the sector's current level, dark at
    /// the surrounding minimum (or fully dark when they coincide); a
    /// synchronized strobe starts switching on the next tic, any other at
    /// a random tic within its first eight.
    pub fn new(
        map: &MapData,
        levels: &Vec<i16>,
        sector: usize,
        dark_time: i16,
        in_sync: bool,
    ) -> (r: StrobeFlash)
        requires
            map.wf(),
            levels@.len() == map.sectors@.len(),
            sector < map.sectors@.len(),
        ensures
            r.sector == sector,
            r.max_light == levels@[sector as int],
            r.min_light == ({
                let m = spec_min_surround(
                    *map,
                    levels@,
                    sector as int,
                    0,
                    levels@[sector as int] as int,
                );
                if m == levels@[sector as int] {
                    0
                } else {
                    m
                }
            }),
            r.dark_time == dark_time,
            r.bright_time == STROBE_BRIGHT,
            in_sync ==> r.count == 1,
            1 <= r.count < 9,
    {
        let max_light = levels[sector];
        let mut min_light = find_min_surrounding_light(map, levels, sector, max_light);
        if min_light == max_light {
            min_light = 0;
        }
        let count = if in_sync {
            1
        } else {
            rand_in_range(1, 9)
        };
        StrobeFlash {
            sector,
            min_light,
            max_light,
            dark_time,
            bright_time: STROBE_BRIGHT,
            count,
        }
    }

    /// One tic: exactly `spec_strobe_step` on the sector's light and the
    /// countdown; every other sector keeps its light.
    pub fn mutate(&mut self, levels: &mut Vec<i16>)
        requires
            old(self).sector < old(levels)@.len(),
        ensures
            final(self).sector == old(self).sector,
            final(self).min_light == old(self).min_light,
            final(self).max_light == old(self).max_light,
            final(self).dark_time == old(self).dark_time,
            final(self).bright_time == old(self).bright_time,
            final(levels)@.len() == old(levels)@.len(),
            (
                final(levels)@[old(self).sector as int] as int,
                final(self).count as int,
            ) == spec_strobe_step(
                *old(self),
                old(levels)@[old(self).sector as int] as int,
                old(self).count as int,
            ),
            forall|i: int|
                0 <= i < old(levels)@.len() && i != old(self).sector ==> final(levels)@[i] == old(
                    levels,
                )@[i],
    {
        let light = levels[self.sector];
        if self.count as i32 - 1 > 0 {
            self.count = self.count - 1;
            return ;
        }
        if light == self.max_light {
            levels.set(self.sector, self.min_light);
            self.count = self.dark_time;
        } else {
            levels.set(self.sector, self.max_light);
            self.count = self.bright_time;
        }
    }
}

// -------------------------------------------------------------------------
// Light flash: random intervals between the minimum and maximum level.
// -------------------------------------------------------------------------

/// A flickering light: holds the bright or dark level for random spans.
#[derive(Clone, Copy, Debug, PartialEq, Eq, Structural)]
pub struct LightFlash {
    /// Index of the driven sector.
    pub sector: usize,
    pub min_light: i16,
    pub max_light: i16,
    /// Upper bound of the random dark span.
    pub min_time: i16,
    /// Upper bound of the random bright span.
    pub max_time: i16,
    /// Tics until the next switch.
    pub count: i16,
}

impl LightFlash {
    /// A light flash on a sector: bright at the current level, dark at the
    /// surrounding minimum; span bounds are 7 dark and 64 bright tics.
    pub fn new(map: &MapData, levels: &Vec<i16>, sector: usize) -> (r: LightFlash)
        requires
            map.wf(),
            levels@.len() == map.sectors@.len(),
            sector < map.sectors@.len(),
        ensures
            r.sector == sector,
            r.max_light == levels@[sector as int],
            r.min_light == spec_min_surround(
                *map,
                levels@,
                sector as int,
                0,
                levels@[sector as int] as int,
            ),
            r.min_time == 7,
            r.max_time == 64,
            1 <= r.count <= 64,
    {
        let max_light = levels[sector];
        let min_light = find_min_surrounding_light(map, levels, sector, max_light);
        LightFlash {
            sector,
            min_light,
            max_light,
            min_time: 7,
            max_time: 64,
            count: rand_in_range(1, 65),
        }
    }

    /// One tic: count down; on expiry switch to the other level and draw a
    /// fresh random span — up to `min_time` tics dark, up to `max_time`
    /// bright. Every other sector keeps its light.
    pub fn mutate(&mut self, levels: &mut Vec<i16>)
        requires
            old(self).sector < old(levels)@.len(),
            0 < old(self).min_time <= 0x7ffe,
            0 < old(self).max_time <= 0x7ffe,
        ensures
            final(self).sector == old(self).sector,
            final(self).min_light == old(self).min_light,
            final(self).max_light == old(self).max_light,
            final(self).min_time == old(self).min_time,
            final(self).max_time == old(self).max_time,
            final(levels)@.len() == old(levels)@.len(),
            forall|i: int|
                0 <= i < old(levels)@.len() && i != old(self).sector ==> final(levels)@[i] == old(
                    levels,
                )@[i],
            ({
                let light = old(levels)@[old(self).sector as int];
                if old(self).count - 1 > 0 {
                    final(self).count == old(self).count - 1 && final(levels)@ == old(levels)@
                } else if light == old(self).max_light {
                    &&& final(levels)@[old(self).sector as int] == old(self).min_light
                    &&& 1 <= final(self).count <= old(self).min_time
                } else {
                    &&& final(levels)@[old(self).sector as int] == old(self).max_light
                    &&& 1 <= final(self).count <= old(self).max_time
                }
            }),
    {
        let light = levels[self.sector];
        if self.count as i32 - 1 > 0 {
            self.count = self.count - 1;
            return ;
        }
        if light == self.max_light {
            levels.set(self.sector, self.min_light);
            self.count = rand_in_range(1, self.min_time + 1);
        } else {
            levels.set(self.sector, self.max_light);
            self.count = rand_in_range(1, self.max_time + 1);
        }
    }
}

// -------------------------------------------------------------------------
// Glowing light: a continuous ramp between the levels.
// -------------------------------------------------------------------------

/// A glowing light: ramps between the minimum and maximum in fixed steps.
#[derive(Clone, Copy, Debug, PartialEq, Eq, Structural)]
pub struct GlowingLight {
    /// Index of the driven sector.
    pub sector: usize,
    pub min_light: i16,
    pub max_light: i16,
    pub going_up: bool,
}

/// One glow tic on (light, going_up): move by `GLOW_SPEED` towards the
/// active bound; on crossing it, back off one step and reverse.
pub open spec fn spec_glow_step(s: GlowingLight, light: int) -> (int, bool) {
    if s.going_up {
        if light + GLOW_SPEED >= s.max_light {
            (light, false)
        } else {
            (light + GLOW_SPEED, true)
        }
    } else {
        if light - GLOW_SPEED <= s.min_light {
            (light, true)
        } else {
            (light - GLOW_SPEED, false)
        }
    }
}

impl GlowingLight {
    /// A glow on a sector, from the surrounding minimum to the sector's
    /// current level, starting on the way down.
    pub fn new(map: &MapData, levels: &Vec<i16>, sector: usize) -> (r: GlowingLight)
        requires
            map.wf(),
            levels@.len() == map.sectors@.len(),
            sector < map.sectors@.len(),
        ensures
            r.sector == sector,
            r.max_light == levels@[sector as int],
            r.min_light == spec_min_surround(
                *map,
                levels@,
                sector as int,
                0,
                levels@[sector as int] as int,
            ),
            r.going_up == false,
    {
        let max_light = levels[sector];
        let min_light = find_min_surrounding_light(map, levels, sector, max_light);
        GlowingLight { sector, min_light, max_light, going_up: false }
    }

    /// One tic: exactly `spec_glow_step` on the sector's light and the
    /// direction; every other sector keeps its light.
    pub fn mutate(&mut self, levels: &mut Vec<i16>)
        requires
            old(self).sector < old(levels)@.len(),
        ensures
            final(self).sector == old(self).sector,
            final(self).min_light == old(self).min_light,
            final(self).max_light == old(self).max_light,
            final(levels)@.len() == old(levels)@.len(),
            (
                final(levels)@[old(self).sector as int] as int,
                final(self).going_up,
            ) == spec_glow_step(*old(self), old(levels)@[old(self).sector as int] as int),
            forall|i: int|
                0 <= i < old(levels)@.len() && i != old(self).sector ==> final(levels)@[i] == old(
                    levels,
                )@[i],
    {
        let light = levels[self.sector] as i32;
        if self.going_up {
            if light + GLOW_SPEED as i32 >= self.max_light as i32 {
                self.going_up = false;
            } else {
                levels.set(self.sector, (light + GLOW_SPEED as i32) as i16);
            }
        } else {
            if light - GLOW_SPEED as i32 <= self.min_light as i32 {
                self.going_up = true;
            } else {
                levels.set(self.sector, (light - GLOW_SPEED as i32) as i16);
            }
        }
    }
}

// -------------------------------------------------------------------------
// Fire flicker: random dips below the maximum every four tics.
// -------------------------------------------------------------------------

/// A flickering fire: every fourth tic the light dips a random amount.
#[derive(Clone, Copy, Debug, PartialEq, Eq, Structural)]
pub struct FireFlicker {
    /// Index of the driven sector.
    pub sector: usize,
    pub min_light: i16,
    pub max_light: i16,
    /// Tics until the next dip.
    pub count: i16,
}

/// The level a fire flicker dips to with draw `a`: the peak less sixteen
/// times the draw, held up at the floor when the current light would fall
/// below it.
pub open spec fn spec_flicker_dip(s: FireFlicker, light: int, a: int) -> int {
    if light - 16 * a < s.min_light {
        s.min_light as int
    } else {
        s.max_light - 16 * a
    }
}

impl FireFlicker {
    /// A fire flicker on a sector: the floor is the surrounding minimum
    /// plus 16, the peak the sector's current level.
    pub fn new(map: &MapData, levels: &Vec<i16>, sector: usize) -> (r: FireFlicker)
        requires
            map.wf(),
            levels@.len() == map.sectors@.len(),
            sector < map.sectors@.len(),
            spec_min_surround(*map, levels@, sector as int, 0, levels@[sector as int] as int)
                + 16 <= 32767,
        ensures
            r.sector == sector,
            r.max_light == levels@[sector as int],
            r.min_light == spec_min_surround(
                *map,
                levels@,
                sector as int,
                0,
                levels@[sector as int] as int,
            ) + 16,
            r.count == 4,
    {
        let max_light = levels[sector];
        let min_light = find_min_surrounding_light(map, levels, sector, max_light);
        FireFlicker { sector, min_light: min_light + 16, max_light, count: 4 }
    }

    /// One tic: count down; every fourth tic dip to the maximum less a
    /// random multiple of 16, held up at the floor. Every other sector
    /// keeps its light.
    pub fn mutate(&mut self, levels: &mut Vec<i16>)
        requires
            old(self).sector < old(levels)@.len(),
            0 <= old(self).min_light,
            0 <= old(self).max_light,
        ensures
            final(self).sector == old(self).sector,
            final(self).min_light == old(self).min_light,
            final(self).max_light == old(self).max_light,
            final(levels)@.len() == old(levels)@.len(),
            forall|i: int|
                0 <= i < old(levels)@.len() && i != old(self).sector ==> final(levels)@[i] == old(
                    levels,
                )@[i],
            ({
                let light = old(levels)@[old(self).sector as int];
                if old(self).count - 1 > 0 {
                    final(self).count == old(self).count - 1 && final(levels)@ == old(levels)@
                } else {
                    final(self).count == 4 && (exists|a: int|
                        0 <= a < 4 && final(levels)@[old(self).sector as int] as int
                            == #[trigger] spec_flicker_dip(*old(self), light as int, a))
                }
            }),
    {
        let light = levels[self.sector];
        if self.count as i32 - 1 > 0 {
            self.count = self.count - 1;
            return ;
        }
        let draw = rand_in_range(0, 4);
        let amount = draw * 16;
        if (light as i32) - (amount as i32) < self.min_light as i32 {
            levels.set(self.sector, self.min_light);
        } else {
            levels.set(self.sector, self.max_light - amount);
        }
        self.count = 4;
        proof {
            assert(0 <= (draw as int) && (draw as int) < 4);
            assert(levels@[self.sector as int] as int == spec_flicker_dip(
                *old(self),
                light as int,
                draw as int,
            ));
        }
    }
}

} // verus!
