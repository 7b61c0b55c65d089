use doomrs::bitmap_render::{add_column, BitmapColumn, BitmapRenderState};
use doomrs::occlusion::Occlusion;
use doomrs::palette::Color;
use doomrs::pixels::Pixels;
use doomrs::visplanes::{SidedefVisPlanes, Visplane};

#[test]
fn pixels_set_writes_three_channels() {
    let mut pixels = Pixels::new(4, 3);
    let color = Color { r: 10, g: 20, b: 30 };
    pixels.set(2, 1, &color);
    let base = 3 * (1 * 4 + 2);
    assert_eq!(&pixels.pixels[base..base + 3], &[10, 20, 30]);
    // Everything else stays black.
    assert_eq!(pixels.pixels.iter().map(|&b| b as u32).sum::<u32>(), 60);
}

#[test]
fn pixels_ignores_out_of_bounds_writes() {
    let mut pixels = Pixels::new(4, 3);
    let color = Color { r: 255, g: 255, b: 255 };
    pixels.set(4, 0, &color);
    pixels.set(0, 3, &color);
    assert!(pixels.pixels.iter().all(|&b| b == 0));
}

#[test]
fn pixels_vertical_line_and_clear() {
    let mut pixels = Pixels::new(2, 4);
    let color = Color { r: 1, g: 2, b: 3 };
    pixels.draw_vertical_line(1, 1, 2, &color);
    for y in 0..4usize {
        let base = 3 * (y * 2 + 1);
        if y == 1 || y == 2 {
            assert_eq!(&pixels.pixels[base..base + 3], &[1, 2, 3]);
        } else {
            assert_eq!(&pixels.pixels[base..base + 3], &[0, 0, 0]);
        }
    }
    pixels.clear();
    assert!(pixels.pixels.iter().all(|&b| b == 0));
}

#[test]
fn occlusion_windows_only_tighten() {
    let mut occ = Occlusion::new(4, 100);
    assert!(!occ.is_occluded(2));
    assert_eq!(occ.floor_at(2), 100);
    assert_eq!(occ.ceiling_at(2), -1);

    occ.set_floor(2, 60);
    occ.set_ceiling(2, 10);
    assert_eq!(occ.floor_at(2), 60);
    assert_eq!(occ.ceiling_at(2), 10);

    occ.set_floor(2, 40);
    occ.set_ceiling(2, 20);
    assert_eq!(occ.floor_at(2), 40);
    assert_eq!(occ.ceiling_at(2), 20);

    occ.occlude_column(2, 50);
    assert!(occ.is_occluded(2));
    // Other columns are untouched.
    assert!(!occ.is_occluded(1));
    assert_eq!(occ.floor_at(1), 100);
}

#[test]
fn visplane_accumulation_and_flush() {
    let mut planes: Vec<Visplane> = Vec::new();
    let mut acc = SidedefVisPlanes::new(160, 3, 5, 0, 128, 8);

    // Nothing used yet: flushing adds nothing.
    acc.flush(&mut planes);
    assert_eq!(planes.len(), 0);

    // Two floor columns and one ceiling column.
    acc.add_bottom_point(2, 60, 90);
    acc.add_bottom_point(3, 61, 91);
    acc.add_top_point(2, 5, 20);
    acc.flush(&mut planes);
    assert_eq!(planes.len(), 2);

    let floor = &planes[0];
    assert_eq!(floor.flat, 3);
    assert_eq!(floor.height, 0);
    assert_eq!(floor.light_level, 160);
    assert_eq!((floor.left, floor.right), (2, 3));
    assert_eq!((floor.top[2], floor.bottom[2]), (60, 90));
    assert_eq!((floor.top[3], floor.bottom[3]), (61, 91));

    let ceiling = &planes[1];
    assert_eq!(ceiling.flat, 5);
    assert_eq!(ceiling.height, 128);
    assert_eq!((ceiling.left, ceiling.right), (2, 2));
    assert_eq!((ceiling.top[2], ceiling.bottom[2]), (5, 20));

    // The accumulators start fresh after a flush.
    acc.add_bottom_point(5, 10, 11);
    acc.flush(&mut planes);
    assert_eq!(planes.len(), 3);
    assert_eq!((planes[2].left, planes[2].right), (5, 5));
}

#[test]
fn bitmap_columns_queue_in_order() {
    let mut columns: Vec<BitmapColumn> = Vec::new();
    add_column(&mut columns, 7, 10, 90, 100, 5);
    add_column(&mut columns, 8, 11, 91, 101, 6);
    assert_eq!(columns.len(), 2);
    assert_eq!(columns[0].x, 7);
    assert_eq!(columns[0].clipped_top_y, 10);
    assert_eq!(columns[0].clipped_bottom_y, 90);
    assert_eq!(columns[0].bottom_y, 100);
    assert_eq!(columns[0].top_y, 5);
    assert_eq!(columns[1].x, 8);
    assert!(matches!(BitmapRenderState::SolidSeg, BitmapRenderState::SolidSeg));
}
