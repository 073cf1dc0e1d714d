use alien_archive::editor::stamp::{
    capture_ground_stamp, paste_ground_stamp, paste_stamp_ground_tile, stamp_capture_status, stamp_paste_status,
};
use alien_archive::map::TileInstance;

fn tile(asset: &str, x: i32, y: i32, w: i32, h: i32) -> TileInstance {
    TileInstance { asset: asset.to_owned(), x, y, w, h, flip_x: false, rotation: 0 }
}

#[test]
fn capturing_a_stamp_keeps_tiles_anchored_in_the_rectangle_relative_to_its_corner() {
    let ground = vec![tile("a", 2, 3, 1, 1), tile("b", 9, 9, 1, 1), tile("c", 5, 6, 2, 2), tile("d", 1, 3, 1, 1)];
    let stamp = capture_ground_stamp(&ground, true, 2, 3, 6, 6);
    assert_eq!((stamp.width, stamp.height), (5, 4));
    assert_eq!(stamp.tiles, vec![tile("a", 0, 0, 1, 1), tile("c", 3, 3, 2, 2)]);

    let hidden = capture_ground_stamp(&ground, false, 2, 3, 6, 6);
    assert_eq!((hidden.width, hidden.height), (5, 4));
    assert!(hidden.tiles.is_empty());
}

#[test]
fn pasting_a_stamp_tile_clears_what_it_covers_and_keeps_its_transform() {
    let mut ground = vec![tile("old", 4, 4, 1, 1), tile("keep", 0, 0, 1, 1), tile("wide", 2, 5, 3, 1)];
    let mut stamped = tile("new", 1, 1, 2, 2);
    stamped.flip_x = true;
    stamped.rotation = 90;
    assert!(paste_stamp_ground_tile(&mut ground, 10, 10, &stamped, 3, 3));
    let mut expected = tile("new", 4, 4, 2, 2);
    expected.flip_x = true;
    expected.rotation = 90;
    assert_eq!(ground, vec![tile("keep", 0, 0, 1, 1), expected]);
}

#[test]
fn pasting_a_stamp_tile_clamps_it_to_the_map_and_skips_it_off_the_map() {
    let mut ground = Vec::new();
    assert!(paste_stamp_ground_tile(&mut ground, 10, 8, &tile("big", 0, 0, 4, 0), 8, 7));
    assert_eq!(ground, vec![tile("big", 8, 7, 2, 1)]);

    let before = ground.clone();
    assert!(!paste_stamp_ground_tile(&mut ground, 10, 8, &tile("x", 0, 0, 1, 1), 10, 0));
    assert!(!paste_stamp_ground_tile(&mut ground, 10, 8, &tile("x", 0, 0, 1, 1), -1, 0));
    assert_eq!(ground, before);
}

#[test]
fn pasting_a_ground_stamp_counts_placed_and_skipped_tiles() {
    let stamp = vec![tile("a", 0, 0, 1, 1), tile("b", 1, 0, 1, 1), tile("c", 5, 0, 1, 1)];
    let mut ground = Vec::new();
    assert_eq!(paste_ground_stamp(&mut ground, 6, 6, &stamp, 3, 2, false), (2, 1));
    assert_eq!(ground, vec![tile("a", 3, 2, 1, 1), tile("b", 4, 2, 1, 1)]);

    let mut locked = vec![tile("z", 0, 0, 1, 1)];
    assert_eq!(paste_ground_stamp(&mut locked, 6, 6, &stamp, 0, 0, true), (0, 3));
    assert_eq!(locked, vec![tile("z", 0, 0, 1, 1)]);
}

#[test]
fn stamp_status_lines() {
    assert_eq!(stamp_capture_status(5, 4, 0), "框选区域里没有可盖章对象");
    assert_eq!(stamp_capture_status(5, 4, 2), "已生成 Stamp：5x4，2 个对象");
    assert_eq!(stamp_paste_status(0, 3), "Stamp 没有可放置对象，可能越界或图层已锁定");
    assert_eq!(stamp_paste_status(2, 1), "Stamp 已放置 2 个对象，跳过 1");
    assert_eq!(stamp_paste_status(12, 0), "Stamp 已放置 12 个对象");
}

#[test]
fn pasting_the_same_stamp_tile_twice_is_pasting_it_once() {
    let start = vec![tile("old", 4, 4, 1, 1), tile("keep", 0, 0, 1, 1)];
    let stamped = tile("new", 0, 0, 2, 2);
    let mut once = start.clone();
    paste_stamp_ground_tile(&mut once, 10, 10, &stamped, 4, 4);
    let mut twice = once.clone();
    paste_stamp_ground_tile(&mut twice, 10, 10, &stamped, 4, 4);
    assert_eq!(once, twice);
}
