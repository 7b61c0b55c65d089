use doomrs::bitmap_render::{accumulate_seg_clips, add_column, clip_sprite_column, BitmapColumn};
use doomrs::linedefs::Flags;
use doomrs::occlusion::Occlusion;
use doomrs::sky::name_contains_sky;
use doomrs::stripes::{process_stripe_column, wall_stripes, StripeTexture, WallStripe};
use doomrs::visplanes::{SidedefVisPlanes, Visplane};

fn fresh_state(width: usize, height: i16) -> (Occlusion, SidedefVisPlanes, Vec<Visplane>, Vec<BitmapColumn>) {
    let occ = Occlusion::new(width, height);
    let sv = SidedefVisPlanes::new(160, 7, 8, 0, 128, width);
    (occ, sv, Vec::new(), Vec::new())
}

#[test]
fn full_height_wall_column_draws_and_occludes() {
    let (mut occ, mut sv, mut visplanes, mut columns) = fresh_state(4, 100);
    let r = process_stripe_column(
        &mut occ, &mut sv, &mut visplanes, &mut columns, 1, 80, 10, 100, false, false, false,
        true, false,
    );
    assert_eq!(r, Some((10, 80)));
    assert_eq!(columns.len(), 1);
    assert_eq!(columns[0].x, 1);
    assert_eq!(columns[0].clipped_top_y, 10);
    assert_eq!(columns[0].clipped_bottom_y, 80);
    // The stripe left both window bounds visible: a floor point below it
    // and a ceiling point above it.
    assert!(sv.bottom_visplane_used);
    assert_eq!(sv.bottom_visplane.top[1], 80);
    assert_eq!(sv.bottom_visplane.bottom[1], 100);
    assert!(sv.top_visplane_used);
    assert_eq!(sv.top_visplane.top[1], -1);
    assert_eq!(sv.top_visplane.bottom[1], 10);
    // A full-height wall closes its column at mid-screen.
    assert!(occ.is_occluded(1));
    assert_eq!(occ.floor_at(1), 50);
    assert_eq!(occ.ceiling_at(1), 50);
    // Neighbouring columns stay open.
    assert!(!occ.is_occluded(0));
    assert!(visplanes.is_empty());
}

#[test]
fn occluded_column_flushes_and_returns_none() {
    let (mut occ, mut sv, mut visplanes, mut columns) = fresh_state(4, 100);
    // Close column 2, accumulating one floor point on the way.
    process_stripe_column(
        &mut occ, &mut sv, &mut visplanes, &mut columns, 2, 80, 10, 100, false, false, false,
        true, false,
    );
    assert!(occ.is_occluded(2));
    let before = columns.len();
    let r = process_stripe_column(
        &mut occ, &mut sv, &mut visplanes, &mut columns, 2, 70, 20, 100, false, false, false,
        true, false,
    );
    assert_eq!(r, None);
    assert_eq!(columns.len(), before);
    // The flush pushed the accumulated floor and ceiling runs.
    assert_eq!(visplanes.len(), 2);
    assert_eq!(visplanes[0].flat, 7);
    assert_eq!(visplanes[1].flat, 8);
    assert!(!sv.bottom_visplane_used);
    assert!(!sv.top_visplane_used);
}

#[test]
fn portal_frame_column_tightens_without_occluding() {
    let (mut occ, mut sv, mut visplanes, mut columns) = fresh_state(4, 100);
    let r = process_stripe_column(
        &mut occ, &mut sv, &mut visplanes, &mut columns, 0, 60, 20, 100, true, false, false,
        true, false,
    );
    assert_eq!(r, Some((20, 60)));
    // The invisible full stripe narrows the window to the portal opening.
    assert!(!occ.is_occluded(0));
    assert_eq!(occ.floor_at(0), 60);
    assert_eq!(occ.ceiling_at(0), 20);
}

#[test]
fn lower_wall_column_raises_floor_bound_to_its_top() {
    let (mut occ, mut sv, mut visplanes, mut columns) = fresh_state(4, 100);
    let r = process_stripe_column(
        &mut occ, &mut sv, &mut visplanes, &mut columns, 3, 90, 70, 100, false, true, false,
        true, false,
    );
    assert_eq!(r, Some((70, 90)));
    assert!(!occ.is_occluded(3));
    assert_eq!(occ.floor_at(3), 70);
    assert_eq!(occ.ceiling_at(3), -1);
}

#[test]
fn upper_wall_column_drops_ceiling_bound_to_its_bottom() {
    let (mut occ, mut sv, mut visplanes, mut columns) = fresh_state(4, 100);
    let r = process_stripe_column(
        &mut occ, &mut sv, &mut visplanes, &mut columns, 3, 30, 5, 100, false, false, true,
        true, false,
    );
    assert_eq!(r, Some((5, 30)));
    assert!(!occ.is_occluded(3));
    assert_eq!(occ.floor_at(3), 100);
    assert_eq!(occ.ceiling_at(3), 30);
}

#[test]
fn two_sided_middle_column_leaves_the_window_alone() {
    let (mut occ, mut sv, mut visplanes, mut columns) = fresh_state(4, 100);
    let r = process_stripe_column(
        &mut occ, &mut sv, &mut visplanes, &mut columns, 1, 80, 10, 100, false, false, false,
        true, true,
    );
    assert_eq!(r, Some((10, 80)));
    assert_eq!(columns.len(), 1);
    assert!(!occ.is_occluded(1));
    assert_eq!(occ.floor_at(1), 100);
    assert_eq!(occ.ceiling_at(1), -1);
    assert!(!sv.bottom_visplane_used);
    assert!(!sv.top_visplane_used);
    assert!(visplanes.is_empty());
}

#[test]
fn occluded_gap_column_fills_visplanes_and_closes() {
    let (mut occ, mut sv, mut visplanes, mut columns) = fresh_state(4, 100);
    // Narrow the window of column 1 to rows 40..=60 first.
    process_stripe_column(
        &mut occ, &mut sv, &mut visplanes, &mut columns, 1, 60, 40, 100, true, false, false,
        true, false,
    );
    // A stripe wholly above the window: no drawable range, but the gap is
    // filled with this sidedef's floor visplane and the column closed.
    let r = process_stripe_column(
        &mut occ, &mut sv, &mut visplanes, &mut columns, 1, 30, 10, 100, false, false, false,
        true, false,
    );
    assert_eq!(r, None);
    assert!(sv.bottom_visplane_used);
    assert_eq!(sv.bottom_visplane.top[1], 40);
    assert_eq!(sv.bottom_visplane.bottom[1], 60);
    assert!(occ.is_occluded(1));
}

#[test]
fn one_sided_wall_is_a_single_pegged_stripe() {
    let (stripes, draw_ceiling) = wall_stripes(0, 128, None, 0, false, false);
    assert!(draw_ceiling);
    assert_eq!(
        stripes,
        vec![WallStripe {
            bottom_height: 0,
            top_height: 128,
            offset_y: 0,
            texture: StripeTexture::Middle,
            only_occlusions: false,
            is_lower: false,
            is_upper: false,
            two_sided_middle: false,
        }]
    );
}

#[test]
fn one_sided_unpegged_bottom_offsets_by_wall_height() {
    let (stripes, _) = wall_stripes(16, 144, None, Flags::DONTPEGBOTTOM, false, false);
    assert_eq!(stripes.len(), 1);
    assert_eq!(stripes[0].offset_y, 16 - 144);
}

#[test]
fn portal_decomposes_into_frame_middle_lower_and_upper() {
    let (stripes, draw_ceiling) =
        wall_stripes(0, 128, Some((32, 96)), Flags::TWOSIDED, false, false);
    assert!(draw_ceiling);
    assert_eq!(stripes.len(), 4);
    // The invisible full-height stripe.
    assert!(stripes[0].only_occlusions);
    assert_eq!((stripes[0].bottom_height, stripes[0].top_height), (0, 128));
    // The transparent middle spans the opening.
    assert!(stripes[1].two_sided_middle);
    assert_eq!((stripes[1].bottom_height, stripes[1].top_height), (32, 96));
    // The lower wall below the raised back floor, pegged by default.
    assert!(stripes[2].is_lower);
    assert_eq!(stripes[2].texture, StripeTexture::Lower);
    assert_eq!((stripes[2].bottom_height, stripes[2].top_height), (0, 32));
    assert_eq!(stripes[2].offset_y, 0);
    // The upper wall above the lowered back ceiling, pegged to the back
    // ceiling by default.
    assert!(stripes[3].is_upper);
    assert_eq!(stripes[3].texture, StripeTexture::Upper);
    assert_eq!((stripes[3].bottom_height, stripes[3].top_height), (96, 128));
    assert_eq!(stripes[3].offset_y, 96 - 128);
}

#[test]
fn portal_pegging_flags_change_the_offsets() {
    let (stripes, _) = wall_stripes(
        0,
        128,
        Some((32, 96)),
        Flags::TWOSIDED | Flags::DONTPEGTOP | Flags::DONTPEGBOTTOM,
        false,
        false,
    );
    assert_eq!(stripes.len(), 4);
    assert_eq!(stripes[2].offset_y, 128 - 32);
    assert_eq!(stripes[3].offset_y, 0);
}

#[test]
fn sky_hack_drops_upper_stripe_and_ceiling() {
    let (stripes, draw_ceiling) =
        wall_stripes(0, 128, Some((0, 96)), Flags::TWOSIDED, true, true);
    assert!(!draw_ceiling);
    // The effective ceiling drops to the back one; no upper stripe.
    assert_eq!(stripes.len(), 2);
    assert_eq!(stripes[0].top_height, 96);
    assert!(stripes[1].two_sided_middle);
    assert_eq!(stripes[1].top_height, 96);
}

#[test]
fn sky_hack_needs_sky_on_both_sides() {
    let (stripes, draw_ceiling) =
        wall_stripes(0, 128, Some((0, 96)), Flags::TWOSIDED, true, false);
    assert!(draw_ceiling);
    assert_eq!(stripes.len(), 3);
    assert!(stripes[2].is_upper);
    assert_eq!(stripes[2].top_height, 128);
}

#[test]
fn name_contains_sky_finds_the_marker_anywhere() {
    assert!(name_contains_sky(&b"SKY1".to_vec()));
    assert!(name_contains_sky(&b"F_SKY1".to_vec()));
    assert!(!name_contains_sky(&b"FLOOR4_8".to_vec()));
    assert!(!name_contains_sky(&b"SK".to_vec()));
    assert!(!name_contains_sky(&Vec::new()));
}

#[test]
fn solid_seg_columns_tighten_sprite_clips() {
    let mut columns: Vec<BitmapColumn> = Vec::new();
    add_column(&mut columns, 1, 20, 70, 90, 10);
    add_column(&mut columns, 2, 25, 65, 90, 10);
    let mut top_clip = vec![-1i16; 4];
    let mut bottom_clip = vec![100i16; 4];
    accumulate_seg_clips(
        &columns, true, false, true, true, true, &mut top_clip, &mut bottom_clip,
    );
    // A solid wall reaching both floor and ceiling clips sprites to its
    // visible region.
    assert_eq!(top_clip, vec![-1, 70, 65, -1]);
    assert_eq!(bottom_clip, vec![100, 20, 25, 100]);
}

#[test]
fn solid_seg_without_floor_contact_leaves_bottom_clip() {
    let mut columns: Vec<BitmapColumn> = Vec::new();
    add_column(&mut columns, 0, 20, 70, 90, 10);
    let mut top_clip = vec![-1i16; 2];
    let mut bottom_clip = vec![100i16; 2];
    accumulate_seg_clips(
        &columns, true, false, false, true, true, &mut top_clip, &mut bottom_clip,
    );
    assert_eq!(bottom_clip, vec![100, 100]);
    assert_eq!(top_clip, vec![70, -1]);
}

#[test]
fn two_sided_seg_clips_by_its_full_stripe() {
    let mut columns: Vec<BitmapColumn> = Vec::new();
    add_column(&mut columns, 1, 30, 60, 80, 15);
    let mut top_clip = vec![-1i16; 3];
    let mut bottom_clip = vec![100i16; 3];
    accumulate_seg_clips(
        &columns, false, true, false, false, true, &mut top_clip, &mut bottom_clip,
    );
    // The portal clips by its full extent, not the visible part.
    assert_eq!(top_clip, vec![-1, 15, -1]);
    assert_eq!(bottom_clip, vec![100, 80, 100]);
}

#[test]
fn two_sided_seg_under_sky_hack_leaves_tops_open() {
    let mut columns: Vec<BitmapColumn> = Vec::new();
    add_column(&mut columns, 0, 30, 60, 80, 15);
    let mut top_clip = vec![-1i16; 1];
    let mut bottom_clip = vec![100i16; 1];
    accumulate_seg_clips(
        &columns, false, true, false, false, false, &mut top_clip, &mut bottom_clip,
    );
    assert_eq!(top_clip, vec![-1]);
    assert_eq!(bottom_clip, vec![80]);
}

#[test]
fn seg_clip_skips_columns_off_screen() {
    let mut columns: Vec<BitmapColumn> = Vec::new();
    add_column(&mut columns, 5, 30, 60, 80, 15);
    let mut top_clip = vec![-1i16; 2];
    let mut bottom_clip = vec![100i16; 2];
    accumulate_seg_clips(
        &columns, true, false, true, true, true, &mut top_clip, &mut bottom_clip,
    );
    assert_eq!(top_clip, vec![-1, -1]);
    assert_eq!(bottom_clip, vec![100, 100]);
}

#[test]
fn sprite_column_clips_to_bounds_and_screen() {
    assert_eq!(clip_sprite_column(10, 90, 5, 80, 100), (10, 80));
    assert_eq!(clip_sprite_column(-5, 200, -1, 150, 100), (0, 99));
    assert_eq!(clip_sprite_column(10, 90, 40, 60, 100), (40, 60));
}
