use alien_archive::assets::{AnchorKind, AssetDatabase, AssetDefinition, AssetKind, SnapMode};
use alien_archive::editor::asset_registry::{asset_matches_search, unregistered_sprite_paths, AssetRegistry};
use alien_archive::editor::import::{
    category_from_path, default_entity_type, normalize_sprite_path, placement_defaults, tags_from_category,
};
use alien_archive::map::LayerKind;

fn registry() -> AssetRegistry {
    let mut database = AssetDatabase::new("Overworld");
    database.assets = vec![AssetDefinition {
        id: "ow_Rock_big".to_owned(),
        category: "props".to_owned(),
        path: "assets/sprites/props/overworld/rock.png".to_owned(),
        kind: AssetKind::Object,
        default_layer: LayerKind::Objects,
        default_size_bits: [64.0f32.to_bits(), 64.0f32.to_bits()],
        footprint: None,
        anchor: AnchorKind::BottomCenter,
        snap: SnapMode::Grid,
        tags: vec!["Stone".to_owned(), "props".to_owned()],
        entity_type: None,
        codex_id: None,
    }];
    AssetRegistry::from_database(database)
}

#[test]
fn palette_search_looks_in_id_path_and_tags() {
    let registry = registry();
    let rock = registry.get("ow_Rock_big").unwrap();
    assert!(asset_matches_search(rock, "rock_big"));
    assert!(asset_matches_search(rock, "overworld/rock"));
    assert!(asset_matches_search(rock, "stone"));
    assert!(asset_matches_search(rock, ""));
    assert!(!asset_matches_search(rock, "Rock"));
    assert!(!asset_matches_search(rock, "tree"));
}

#[test]
fn only_new_overworld_sprites_are_offered_for_import() {
    let registry = registry();
    let paths = vec![
        "assets/sprites/props/overworld/rock.png".to_owned(),
        "assets/sprites/props/overworld/tree.png".to_owned(),
        "assets/sprites/overworld_originals/overworld/x.png".to_owned(),
        "assets/sprites/facility/door.png".to_owned(),
    ];
    assert_eq!(unregistered_sprite_paths(&paths, &registry), vec!["assets/sprites/props/overworld/tree.png".to_owned()]);
}

#[test]
fn imported_sprites_take_category_and_defaults_from_their_path_and_kind() {
    assert_eq!(normalize_sprite_path("  assets\\sprites\\flora\\overworld\\fern.png "), "assets/sprites/flora/overworld/fern.png");
    assert_eq!(category_from_path("assets/sprites/flora/overworld/fern.png"), "flora");
    assert_eq!(category_from_path("overworld/fern.png"), "props");
    assert_eq!(category_from_path("a/overworld"), "a");
    assert_eq!(category_from_path("assets/sprites/fern.png"), "props");
    assert_eq!(placement_defaults(AssetKind::Tile), (LayerKind::Ground, AnchorKind::TopLeft, SnapMode::Grid));
    assert_eq!(placement_defaults(AssetKind::Decal), (LayerKind::Decals, AnchorKind::Center, SnapMode::HalfGrid));
    assert_eq!(placement_defaults(AssetKind::Entity), (LayerKind::Entities, AnchorKind::BottomCenter, SnapMode::Grid));
    assert_eq!(default_entity_type(AssetKind::Entity, "  "), "Decoration");
    assert_eq!(default_entity_type(AssetKind::Entity, "Door"), "Door");
    assert_eq!(default_entity_type(AssetKind::Object, ""), "");
    assert_eq!(tags_from_category("alien_flora"), "alien, flora");
}
