use alien_archive::assets::{AnchorKind, AssetDatabase, AssetDefinition, AssetKind, SnapMode};
use alien_archive::editor::asset_registry::AssetRegistry;
use alien_archive::editor::placement::{
    asset_placement_warnings, asset_preview_footprint, asset_tile_footprint, clamped_footprint_at,
    ground_resize_status, ground_size_at, layer_state, resize_ground_tile, stamp_warnings_at,
};
use alien_archive::editor::workspace::{default_layer_states, LayerUiState};
use alien_archive::map::{LayerKind, TileInstance};

fn registry_with(kind: AssetKind, layer: LayerKind) -> AssetRegistry {
    let mut database = AssetDatabase::new("Overworld");
    database.assets = vec![AssetDefinition {
        id: "rock".to_owned(),
        category: "props".to_owned(),
        path: "rock.png".to_owned(),
        kind,
        default_layer: layer,
        default_size_bits: [32.0f32.to_bits(), 32.0f32.to_bits()],
        footprint: None,
        anchor: AnchorKind::Center,
        snap: SnapMode::Grid,
        tags: Vec::new(),
        entity_type: None,
        codex_id: None,
    }];
    AssetRegistry::from_database(database)
}

#[test]
fn placement_warnings_list_lock_kind_and_layer_problems() {
    let registry = registry_with(AssetKind::Object, LayerKind::Objects);
    let rock = registry.get("rock").unwrap();
    assert!(asset_placement_warnings(rock, LayerKind::Objects, false).is_empty());
    assert_eq!(
        asset_placement_warnings(rock, LayerKind::Ground, true),
        vec!["地表 已锁定".to_owned(), "素材类型是物件，当前层需要地块".to_owned(), "素材默认层是物件".to_owned()]
    );
    assert_eq!(asset_placement_warnings(rock, LayerKind::Zones, false), vec!["素材默认层是物件".to_owned()]);
}

#[test]
fn stamp_warnings_name_locked_layers_and_overflow() {
    let mut states = default_layer_states();
    states[2].1.locked = true;
    states[0].1.locked = true;
    assert_eq!(layer_state(&states, LayerKind::Objects), LayerUiState { visible: true, locked: true });
    assert_eq!(layer_state(&Vec::new(), LayerKind::Objects), LayerUiState { visible: true, locked: false });

    let layers = vec![LayerKind::Objects, LayerKind::Decals];
    assert_eq!(stamp_warnings_at(&layers, &states, 0, 0, 2, 2, 10, 10), vec!["物件 已锁定".to_owned()]);
    assert_eq!(
        stamp_warnings_at(&vec![LayerKind::Ground, LayerKind::Objects], &states, 9, 0, 2, 1, 10, 10),
        vec![
            "地表 已锁定".to_owned(),
            "物件 已锁定".to_owned(),
            "Stamp 超出地图边界，粘贴时会跳过越界对象".to_owned()
        ]
    );
    assert!(stamp_warnings_at(&vec![LayerKind::Decals], &states, 8, 8, 2, 2, 10, 10).is_empty());
}

#[test]
fn footprints_are_clamped_and_chosen() {
    assert_eq!(clamped_footprint_at([3, 0], 10, 10, 8, 2), [2, 1]);
    assert_eq!(clamped_footprint_at([3, 3], 10, 10, 12, 2), [1, 3]);
    assert_eq!(asset_tile_footprint(Some([2, 2]), Some([3, 3])), [2, 2]);
    assert_eq!(asset_tile_footprint(None, Some([3, 1])), [3, 1]);
    assert_eq!(asset_tile_footprint(None, None), [1, 1]);
    assert_eq!(asset_preview_footprint(None, Some([1, 1])), None);
    assert_eq!(asset_preview_footprint(Some([1, 2]), None), Some([1, 2]));
}

#[test]
fn ground_tiles_report_and_take_new_sizes() {
    let mut ground = vec![
        TileInstance { asset: "a".to_owned(), x: 1, y: 1, w: 0, h: 2, flip_x: true, rotation: 90 },
        TileInstance { asset: "b".to_owned(), x: 4, y: 4, w: 1, h: 1, flip_x: false, rotation: 0 },
    ];
    assert_eq!(ground_size_at(&ground, 1, 1), Some([1, 2]));
    assert_eq!(ground_size_at(&ground, 2, 2), None);
    assert_eq!(resize_ground_tile(&mut ground, 6, 6, 4, 4, 5, 0), Some([2, 1]));
    assert_eq!((ground[1].w, ground[1].h), (2, 1));
    assert_eq!(resize_ground_tile(&mut ground, 6, 6, 3, 3, 2, 2), None);
    assert_eq!(ground_resize_status(4, 4, 2, 1), "Resized Ground:4,4 to 2 x 1");
}
