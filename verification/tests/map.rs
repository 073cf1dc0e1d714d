use alien_archive::editor::fill::bucket_fill_ground;
use alien_archive::editor::ground::{
    apply_ground_rectangle, autotile_ground_anchors, autotile_ground_at_anchor, autotile_ground_near_rect,
    ground_asset_at_cell, neighbor_families_of, paint_ground_brush, recalc_all_ground, sorted_unique_anchors,
};
use alien_archive::editor::terrain::TerrainRules;
use alien_archive::editor::terrain_names::TerrainAsset;
use alien_archive::assets::AssetKind;
use alien_archive::map::{
    erase_collision_at, erase_ground_at, infer_entity_type, next_free_id, next_id, place_collision, place_tile,
    place_tile_sized, tile_contains_cell, CollisionCell, LayerKind, TileInstance,
};
use alien_archive::text::{decimal, padded3, signed_decimal, to_ascii_lowercase, trim, trim_matches};

fn tile(asset: &str, x: i32, y: i32, w: i32, h: i32) -> TileInstance {
    TileInstance { asset: asset.to_owned(), x, y, w, h, flip_x: false, rotation: 0 }
}

#[test]
fn placing_a_tile_replaces_the_tile_anchored_there() {
    let mut ground = vec![tile("a", 2, 2, 1, 1)];
    place_tile(&mut ground, 10, 10, "b", 2, 2);
    assert_eq!(ground.len(), 1);
    assert_eq!(ground[0].asset, "b");
    place_tile_sized(&mut ground, 10, 10, "c", 8, 8, 5, 0);
    assert_eq!(ground.len(), 2);
    assert_eq!((ground[1].w, ground[1].h), (2, 1));
}

#[test]
fn erasing_removes_every_tile_over_the_cell() {
    let mut ground = vec![tile("big", 0, 0, 3, 3), tile("small", 5, 5, 1, 1), tile("over", 2, 2, 1, 1)];
    erase_ground_at(&mut ground, 2, 2);
    assert_eq!(ground.len(), 1);
    assert_eq!(ground[0].asset, "small");
    assert!(tile_contains_cell(&tile("x", 1, 1, 0, 0), 1, 1));
    assert!(!tile_contains_cell(&tile("x", 1, 1, 2, 2), 3, 1));
}

#[test]
fn generated_ids_are_padded_and_fresh() {
    assert_eq!(next_id("obj", 0), "obj_001");
    assert_eq!(next_id("ent", 1233), "ent_1234");
    let existing = vec!["obj_001".to_owned(), "obj_003".to_owned()];
    assert_eq!(next_free_id("obj", &existing), "obj_002");
    assert_eq!(next_free_id("decal", &existing), "decal_001");
}

#[test]
fn collision_cells_are_marked_once() {
    let mut cells = vec![CollisionCell { x: 1, y: 1, solid: false }];
    place_collision(&mut cells, 1, 1);
    assert_eq!(cells, vec![CollisionCell { x: 1, y: 1, solid: true }]);
    place_collision(&mut cells, 2, 3);
    place_collision(&mut cells, 2, 3);
    assert_eq!(cells.len(), 2);
    erase_collision_at(&mut cells, 1, 1);
    assert_eq!(cells, vec![CollisionCell { x: 2, y: 3, solid: true }]);
}

#[test]
fn entity_types_are_inferred_from_asset_names() {
    assert_eq!(infer_entity_type("ow_ruin_door"), "FacilityEntrance");
    assert_eq!(infer_entity_type("ow_scan_terminal"), "FacilityEntrance".replace("FacilityEntrance", "ScanTarget"));
    assert_eq!(infer_entity_type("ow_crate"), "Decoration");
    assert_eq!(LayerKind::Decals.label(), "Decals");
}

#[test]
fn text_helpers() {
    assert_eq!(decimal(0), "0");
    assert_eq!(decimal(907), "907");
    assert_eq!(signed_decimal(-42), "-42");
    assert_eq!(padded3(7), "007");
    assert_eq!(padded3(1234), "1234");
    assert_eq!(trim("  a b \t"), "a b");
    assert_eq!(trim_matches("__a_b__", '_'), "a_b");
    assert_eq!(to_ascii_lowercase("AbC-Ä"), "abc-Ä");
}

fn sand_rules() -> TerrainRules {
    let asset = |id: &str| TerrainAsset { id: id.to_owned(), kind: AssetKind::Tile, tags: Vec::new() };
    TerrainRules::from_assets(&[
        asset("ow_tile_sand_ground"),
        asset("ow_tile_sand_edge_n"),
        asset("ow_tile_sand_corner_ne"),
        asset("ow_tile_rock_ground"),
    ])
}

#[test]
fn autotile_turns_patch_border_into_edges() {
    let rules = sand_rules();
    let mut ground = vec![
        tile("ow_tile_sand_ground", 1, 1, 1, 1),
        tile("ow_tile_sand_ground", 2, 1, 1, 1),
        tile("ow_tile_sand_ground", 1, 2, 1, 1),
        tile("ow_tile_sand_ground", 2, 2, 1, 1),
    ];
    let n = neighbor_families_of(&rules, &ground, 10, 10, &ground[0]);
    assert_eq!(n.north, None);
    assert_eq!(n.east, Some("sand".to_owned()));
    assert!(autotile_ground_at_anchor(&rules, &mut ground, 10, 10, 1, 1));
    assert_eq!(ground[0].asset, "ow_tile_sand_corner_ne");
    assert_eq!(ground[0].rotation, 270);
    assert!(!autotile_ground_at_anchor(&rules, &mut ground, 10, 10, 1, 1));
    assert!(!autotile_ground_at_anchor(&rules, &mut ground, 10, 10, 7, 7));
    assert_eq!(ground_asset_at_cell(&ground, 2, 2), Some("ow_tile_sand_ground".to_owned()));
    assert_eq!(ground_asset_at_cell(&ground, 5, 5), None);
}

#[test]
fn recalc_retiles_every_anchor_once() {
    let rules = sand_rules();
    let mut ground = Vec::new();
    for y in 0..3 {
        for x in 0..3 {
            ground.push(tile("ow_tile_sand_ground", x, y, 1, 1));
        }
    }
    let changed = recalc_all_ground(&rules, &mut ground, 3, 3);
    assert_eq!(changed, 8);
    assert_eq!((ground[1].asset.as_str(), ground[1].rotation), ("ow_tile_sand_edge_n", 0));
    assert_eq!((ground[3].asset.as_str(), ground[3].rotation), ("ow_tile_sand_edge_n", 270));
    assert_eq!((ground[4].asset.as_str(), ground[4].rotation), ("ow_tile_sand_ground", 0));
    assert_eq!((ground[5].asset.as_str(), ground[5].rotation), ("ow_tile_sand_edge_n", 90));
    assert_eq!((ground[7].asset.as_str(), ground[7].rotation), ("ow_tile_sand_edge_n", 180));
    assert_eq!((ground[0].asset.as_str(), ground[0].rotation), ("ow_tile_sand_corner_ne", 270));
    assert_eq!((ground[8].asset.as_str(), ground[8].rotation), ("ow_tile_sand_corner_ne", 90));
    assert_eq!(recalc_all_ground(&rules, &mut ground, 3, 3), 0);
    let empty = TerrainRules::from_assets(&[]);
    assert_eq!(recalc_all_ground(&empty, &mut ground, 3, 3), 0);
}

#[test]
fn anchors_are_sorted_and_deduplicated() {
    let anchors = vec![(3, 1), (1, 9), (3, 1), (1, 2), (-4, 0)];
    assert_eq!(sorted_unique_anchors(&anchors), vec![(-4, 0), (1, 2), (1, 9), (3, 1)]);
    let rules = sand_rules();
    let mut ground = vec![tile("ow_tile_rock_ground", 4, 4, 1, 1)];
    assert_eq!(autotile_ground_anchors(&rules, &mut ground, 8, 8, &anchors), 0);
    assert_eq!(autotile_ground_near_rect(&rules, &mut ground, 8, 8, 3, 3, 1, 1), 0);
}

#[test]
fn brush_clears_its_footprint_before_placing() {
    let mut ground = vec![tile("a", 0, 0, 1, 1), tile("b", 1, 1, 1, 1), tile("c", 5, 5, 1, 1)];
    paint_ground_brush(&mut ground, 6, 6, 0, 0, "big", [2, 2]);
    assert_eq!(ground.len(), 2);
    assert_eq!(ground[0].asset, "c");
    assert_eq!((ground[1].asset.as_str(), ground[1].w, ground[1].h), ("big", 2, 2));
    paint_ground_brush(&mut ground, 6, 6, 5, 0, "edge", [4, 4]);
    assert_eq!((ground[2].w, ground[2].h), (1, 4));
}

#[test]
fn rectangle_fills_and_erases_with_status() {
    let mut ground = Vec::new();
    let status = apply_ground_rectangle(&mut ground, 4, 4, [3, 0], [0, 1], false, Some("sand"), [2, 2], [2, 2], None);
    assert_eq!(status, "矩形填充: 4x2");
    assert_eq!(ground.len(), 2);
    let status = apply_ground_rectangle(&mut ground, 4, 4, [0, 0], [9, 9], true, None, [1, 1], [1, 1], None);
    assert_eq!(status, "矩形擦除: 4x4");
    assert!(ground.is_empty());
    let status = apply_ground_rectangle(&mut ground, 4, 4, [0, 0], [1, 1], false, None, [1, 1], [1, 1], None);
    assert_eq!(status, "矩形填充需要先选择地表素材");
}

#[test]
fn bucket_fill_paints_the_connected_region() {
    let mut ground = Vec::new();
    for y in 0..3 {
        for x in 0..3 {
            ground.push(tile(if x == 1 && y == 1 { "b" } else { "a" }, x, y, 1, 1));
        }
    }
    let filled = bucket_fill_ground(&mut ground, 3, 3, 0, 0, "c", [1, 1]);
    assert_eq!(filled, 8);
    assert_eq!(ground_asset_at_cell(&ground, 1, 1), Some("b".to_owned()));
    assert_eq!(ground_asset_at_cell(&ground, 2, 2), Some("c".to_owned()));
    assert_eq!(ground.len(), 9);
    assert_eq!(bucket_fill_ground(&mut ground, 3, 3, 2, 0, "c", [1, 1]), 0);

    let mut bare: Vec<TileInstance> = Vec::new();
    assert_eq!(bucket_fill_ground(&mut bare, 2, 2, 0, 0, "sand", [1, 1]), 4);
    assert_eq!(bare.len(), 4);
    let mut outside: Vec<TileInstance> = Vec::new();
    assert_eq!(bucket_fill_ground(&mut outside, 2, 2, 5, 5, "sand", [1, 1]), 0);
}
