use doomrs::clock::Clock;
use doomrs::thinkers::{kill_everything, tick_all, Thinker};
use doomrs::game_state::ViewState;
use doomrs::lights::{FireFlicker, GlowingLight, LightFlash, StrobeFlash};
use doomrs::map_objects::{MapObject, MapObjectInfo, MapObjectThinker, StateDef};

fn strobe_fast(levels: &[i16]) -> (StrobeFlash, Vec<i16>) {
    let levels = levels.to_vec();
    let strobe = StrobeFlash {
        sector: 0,
        min_light: 40,
        max_light: 200,
        dark_time: 15,
        bright_time: 5,
        count: 1,
    };
    (strobe, levels)
}

#[test]
fn strobe_toggles_with_fixed_phases() {
    // A sector with special type 2 strobes fast: dark 15 tics, bright 5.
    let (mut strobe, mut levels) = strobe_fast(&[200]);
    // The first expiry switches to the surrounding minimum.
    strobe.mutate(&mut levels);
    assert_eq!(levels[0], 40);
    assert_eq!(strobe.count, 15);
    // Fourteen tics of darkness, then the switch back to bright.
    for _ in 0..14 {
        strobe.mutate(&mut levels);
        assert_eq!(levels[0], 40);
    }
    strobe.mutate(&mut levels);
    assert_eq!(levels[0], 200);
    assert_eq!(strobe.count, 5);
    // Four bright tics, then dark again.
    for _ in 0..4 {
        strobe.mutate(&mut levels);
        assert_eq!(levels[0], 200);
    }
    strobe.mutate(&mut levels);
    assert_eq!(levels[0], 40);
}

#[test]
fn strobe_reaches_bright_every_20th_tic() {
    let (mut strobe, mut levels) = strobe_fast(&[200]);
    // Walk to the first switch to bright.
    let mut t = 0;
    while levels[0] != 40 {
        strobe.mutate(&mut levels);
        t += 1;
        assert!(t < 30);
    }
    while levels[0] != 200 {
        strobe.mutate(&mut levels);
        t += 1;
        assert!(t < 30);
    }
    // From the second cycle on, the light switches to bright exactly
    // every 20th tic.
    let mut since_bright = 0;
    let mut switches = Vec::new();
    for tick in 1..=100 {
        let before = levels[0];
        strobe.mutate(&mut levels);
        if before != 200 && levels[0] == 200 {
            switches.push(tick);
        }
        since_bright += 1;
        assert!(since_bright <= 20);
        if levels[0] == 200 && before != 200 {
            since_bright = 0;
        }
    }
    for pair in switches.windows(2) {
        assert_eq!(pair[1] - pair[0], 20);
    }
}

#[test]
fn glowing_light_ramps_between_bounds() {
    let mut glow = GlowingLight {
        sector: 0,
        min_light: 100,
        max_light: 160,
        going_up: false,
    };
    let mut levels = vec![160i16];
    // Down in steps of 8 to just above the minimum, then back up.
    let mut seen = Vec::new();
    for _ in 0..20 {
        glow.mutate(&mut levels);
        seen.push(levels[0]);
        assert!(levels[0] > 100 - 8 && levels[0] <= 160);
    }
    assert_eq!(&seen[0..3], &[152, 144, 136]);
    // It came back up at some point.
    assert!(seen.iter().any(|&l| l == 160 - 8) && glow.min_light == 100);
}

#[test]
fn light_flash_switches_levels_with_random_spans() {
    let mut flash = LightFlash {
        sector: 0,
        min_light: 60,
        max_light: 220,
        min_time: 7,
        max_time: 64,
        count: 1,
    };
    let mut levels = vec![220i16];
    for _ in 0..500 {
        let before = levels[0];
        let count_before = flash.count;
        flash.mutate(&mut levels);
        // The level only ever sits at one of the two bounds.
        assert!(levels[0] == 60 || levels[0] == 220);
        if count_before > 1 {
            assert_eq!(levels[0], before);
        } else if before == 220 {
            assert_eq!(levels[0], 60);
            assert!(flash.count >= 1 && flash.count <= 7);
        } else {
            assert_eq!(levels[0], 220);
            assert!(flash.count >= 1 && flash.count <= 64);
        }
    }
}

#[test]
fn fire_flicker_dips_in_sixteens() {
    let mut fire = FireFlicker {
        sector: 0,
        min_light: 120,
        max_light: 180,
        count: 4,
    };
    let mut levels = vec![180i16];
    for _ in 0..200 {
        fire.mutate(&mut levels);
        // The dip is the peak less 0, 16, 32 or 48, held up at the floor.
        assert!(
            levels[0] == 180
                || levels[0] == 164
                || levels[0] == 148
                || levels[0] == 132
                || levels[0] == 120,
            "unexpected level {}",
            levels[0]
        );
    }
}

// ---------------------------------------------------------------------
// Map object animation.
// ---------------------------------------------------------------------

fn demo_states() -> Vec<StateDef> {
    vec![
        // The null state.
        StateDef { sprite: 0, frame: 0, full_bright: false, tics: -1, next_state: 0 },
        // Spawn: two frames chasing each other.
        StateDef { sprite: 0, frame: 0, full_bright: false, tics: 10, next_state: 2 },
        StateDef { sprite: 0, frame: 1, full_bright: false, tics: 4, next_state: 1 },
        // Death: a terminal frame.
        StateDef { sprite: 0, frame: 2, full_bright: true, tics: 7, next_state: 3 },
        // Exploded death.
        StateDef { sprite: 0, frame: 3, full_bright: true, tics: 5, next_state: 4 },
    ]
}

fn demo_object(death: usize, xdeath: usize) -> MapObject {
    MapObject {
        info: MapObjectInfo {
            id: 3004,
            spawn_state: 1,
            radius: 20,
            height: 56,
            death_state: death,
            xdeath_state: xdeath,
        },
        state: 1,
        x: 40,
        y: 40,
        angle_degrees: 0,
        flags: 7,
    }
}

#[test]
fn animation_advances_when_tics_expire() {
    let states = demo_states();
    let mut objects = vec![demo_object(3, 4)];
    let mut thinker = MapObjectThinker::new(&objects, &states, 0);
    assert_eq!(thinker.count, 10);
    for _ in 0..9 {
        thinker.mutate(&mut objects, &states);
        assert_eq!(objects[0].state, 1);
    }
    thinker.mutate(&mut objects, &states);
    assert_eq!(objects[0].state, 2);
    assert_eq!(thinker.count, 4);
}

#[test]
fn a_counter_of_minus_one_stays() {
    let states = demo_states();
    let mut objects = vec![demo_object(3, 4)];
    let mut thinker = MapObjectThinker { object: 0, count: -1 };
    for _ in 0..5 {
        thinker.mutate(&mut objects, &states);
        assert_eq!(objects[0].state, 1);
        assert_eq!(thinker.count, -1);
    }
}

#[test]
fn kill_moves_to_the_death_state_with_its_tics() {
    let states = demo_states();
    let mut objects = vec![demo_object(3, 4)];
    let mut thinker = MapObjectThinker::new(&objects, &states, 0);
    thinker.kill(&mut objects, &states);
    assert_eq!(objects[0].state, 3);
    assert_eq!(thinker.count, states[3].tics);
}

#[test]
fn kill_without_death_state_is_a_no_op() {
    let states = demo_states();
    let mut objects = vec![demo_object(0, 0)];
    let mut thinker = MapObjectThinker::new(&objects, &states, 0);
    thinker.kill(&mut objects, &states);
    assert_eq!(objects[0].state, 1);
}

#[test]
fn explode_prefers_xdeath_and_falls_back() {
    let states = demo_states();
    let mut objects = vec![demo_object(3, 4)];
    let mut thinker = MapObjectThinker::new(&objects, &states, 0);
    thinker.explode(&mut objects, &states);
    assert_eq!(objects[0].state, 4);

    let mut objects = vec![demo_object(3, 0)];
    let mut thinker = MapObjectThinker::new(&objects, &states, 0);
    thinker.explode(&mut objects, &states);
    assert_eq!(objects[0].state, 3);
}

#[test]
fn respawn_returns_to_the_spawn_state() {
    let states = demo_states();
    let mut objects = vec![demo_object(3, 4)];
    let mut thinker = MapObjectThinker::new(&objects, &states, 0);
    thinker.kill(&mut objects, &states);
    thinker.respawn(&mut objects, &states);
    assert_eq!(objects[0].state, 1);
    assert_eq!(thinker.count, 10);
}

// ---------------------------------------------------------------------
// The 35 Hz game clock.
// ---------------------------------------------------------------------

#[test]
fn clock_fires_the_floor_difference_of_tics() {
    let mut clock = Clock::new();
    assert_eq!(clock.ticks, 0);

    // 0.1 s: floor(0.1 * 35) = 3 tics.
    clock.add_elapsed_interval(100_000);
    assert_eq!(clock.ticks, 3);

    // Another 0.1 s: floor(0.2 * 35) = 7, so 4 more fired.
    let before = clock.ticks;
    clock.add_elapsed_interval(100_000);
    assert_eq!(clock.ticks - before, 4);

    // The counter is always the floor of the timestamp times 35.
    assert_eq!(clock.ticks, clock.timestamp_micros * 35 / 1_000_000);

    // A sub-tic interval fires nothing.
    let before = clock.ticks;
    clock.add_elapsed_interval(1_000);
    assert_eq!(clock.ticks, before);
}

#[test]
fn clock_keeps_a_rolling_average() {
    let mut clock = Clock::new();
    for _ in 0..16 {
        clock.add_elapsed_interval(20_000);
    }
    assert_eq!(clock.avg_frame_micros(), 20_000);
    // Replacing half the window moves the average halfway.
    for _ in 0..8 {
        clock.add_elapsed_interval(40_000);
    }
    assert_eq!(clock.avg_frame_micros(), 30_000);
}

// ---------------------------------------------------------------------
// The view toggle.
// ---------------------------------------------------------------------

#[test]
fn toggling_the_overlay_twice_restores_the_view() {
    let mut view = ViewState::new();
    assert!(!view.viewing_map);
    view.toggle_map_view();
    assert!(view.viewing_map);
    view.toggle_map_view();
    assert!(!view.viewing_map);
}

// ---------------------------------------------------------------------
// Host-level thinker operations.
// ---------------------------------------------------------------------

#[test]
fn kill_everything_sends_every_object_to_its_death_state() {
    let states = demo_states();
    let mut objects = vec![demo_object(3, 4), demo_object(0, 0)];
    let mut thinkers = vec![
        Thinker::GlowingLight(GlowingLight {
            sector: 0,
            min_light: 0,
            max_light: 100,
            going_up: false,
        }),
        Thinker::MapObject(MapObjectThinker::new(&objects, &states, 0)),
        Thinker::MapObject(MapObjectThinker::new(&objects, &states, 1)),
    ];
    kill_everything(&mut thinkers, &mut objects, &states);
    // The first object has a death state and moved there with its tics;
    // the second has none and stays put. The light thinker is untouched.
    assert_eq!(objects[0].state, 3);
    assert_eq!(objects[1].state, 1);
    match &thinkers[1] {
        Thinker::MapObject(m) => assert_eq!(m.count, states[3].tics),
        _ => panic!("expected a map object thinker"),
    }
    assert!(matches!(thinkers[0], Thinker::GlowingLight(_)));
}

#[test]
fn tick_all_steps_lights_and_objects_together() {
    let states = demo_states();
    let mut objects = vec![demo_object(3, 4)];
    let mut levels = vec![200i16];
    let (strobe, _) = strobe_fast(&[200]);
    let mut thinkers = vec![
        Thinker::StrobeFlash(strobe),
        Thinker::MapObject(MapObjectThinker::new(&objects, &states, 0)),
    ];
    tick_all(&mut thinkers, &mut levels, &mut objects, &states);
    // The strobe expired (count was 1) and went dark; the object counted
    // one tic down.
    assert_eq!(levels[0], 40);
    match &thinkers[1] {
        Thinker::MapObject(m) => assert_eq!(m.count, 9),
        _ => panic!("expected a map object thinker"),
    }
}
