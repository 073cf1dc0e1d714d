use alien_archive::assets::{AnchorKind, AssetDatabase, AssetDefinition, AssetKind, SnapMode};
use alien_archive::codex::{CodexDatabase, CodexEntry};
use alien_archive::map::{LayerKind, TileInstance, TransitionTarget, UnlockRule};
use alien_archive::validation::{
    validate_map, validate_map_with_codex, CollisionFacts, EntityFacts, GroundFacts, MapFacts, MapValidationIssue,
    MapValidationSeverity, PlacementFacts, SpawnFacts, ZoneFacts,
};

fn landing_site() -> MapFacts {
    MapFacts {
        id: "overworld_landing_site".to_owned(),
        tile_size: 32,
        width: 80,
        height: 60,
        spawns: vec![SpawnFacts {
            id: "player_start".to_owned(),
            cell_x: 8,
            cell_y: 12,
            in_bounds: true,
            position_text: "8.00,12.00".to_owned(),
        }],
        ground: Vec::new(),
        decals: Vec::new(),
        objects: Vec::new(),
        entities: Vec::new(),
        collision: Vec::new(),
        zones: Vec::new(),
    }
}

fn placement(id: &str, asset: &str, x: f32, y: f32) -> PlacementFacts {
    PlacementFacts {
        id: id.to_owned(),
        asset: asset.to_owned(),
        in_bounds: true,
        position_text: format!("{x:.2},{y:.2}"),
        scale_valid: true,
        scale_text: "1.00 x 1.00".to_owned(),
    }
}

fn entity(asset: &str, entity_type: &str, x: f32, y: f32) -> EntityFacts {
    EntityFacts {
        placement: placement("ent_001", asset, x, y),
        entity_type: entity_type.to_owned(),
        has_interaction_rect: false,
        unlock: None,
        transition: None,
    }
}

fn test_database(assets: Vec<AssetDefinition>) -> AssetDatabase {
    let mut database = AssetDatabase::new("Overworld");
    database.assets = assets;
    database.reindex();
    database
}

fn test_codex(entries: Vec<CodexEntry>) -> CodexDatabase {
    let mut database = CodexDatabase::new("Overworld");
    database.entries = entries;
    database.reindex();
    database
}

fn test_asset(
    id: &str,
    kind: AssetKind,
    default_layer: LayerKind,
    entity_type: Option<&str>,
    codex_id: Option<&str>,
) -> AssetDefinition {
    AssetDefinition {
        id: id.to_owned(),
        category: "test".to_owned(),
        path: format!("assets/sprites/test/{id}.png"),
        kind,
        default_layer,
        default_size_bits: [32.0f32.to_bits(), 32.0f32.to_bits()],
        footprint: (kind == AssetKind::Tile).then_some([1, 1]),
        anchor: AnchorKind::TopLeft,
        snap: SnapMode::Grid,
        tags: Vec::new(),
        entity_type: entity_type.map(str::to_owned),
        codex_id: codex_id.map(str::to_owned),
    }
}

fn has(issues: &[MapValidationIssue], severity: MapValidationSeverity, text: &str) -> bool {
    issues.iter().any(|issue| issue.severity == severity && issue.message.contains(text))
}

#[test]
fn reports_unknown_asset() {
    let document = landing_site();
    let database = test_database(Vec::new());

    let issues = validate_map(&document, &database);

    assert!(issues.iter().all(|issue| issue.severity != MapValidationSeverity::Error));
}

#[test]
fn validates_known_ground_asset() {
    let mut document = landing_site();
    document.ground.push(GroundFacts {
        tile: TileInstance {
            asset: "ow_tile_sand_ground".to_owned(),
            x: 0,
            y: 0,
            w: 1,
            h: 1,
            flip_x: false,
            rotation: 0,
        },
        inferred_footprint: Some([1, 1]),
    });
    let database = test_database(vec![test_asset(
        "ow_tile_sand_ground",
        AssetKind::Tile,
        LayerKind::Ground,
        None,
        None,
    )]);

    let issues = validate_map(&document, &database);

    assert!(issues.iter().all(|issue| issue.severity != MapValidationSeverity::Error));
}

#[test]
fn warns_when_scannable_entity_has_no_interaction_rect() {
    let mut document = landing_site();
    document.entities.push(entity("ow_scan_terminal", "ScanTarget", 2.0, 2.0));
    let database = test_database(vec![test_asset(
        "ow_scan_terminal",
        AssetKind::Entity,
        LayerKind::Entities,
        Some("ScanTarget"),
        Some("codex.ruin.terminal"),
    )]);

    let issues = validate_map(&document, &database);

    assert!(has(&issues, MapValidationSeverity::Warning, "has no interaction_rect"));
}

#[test]
fn warns_when_codex_asset_is_placed_as_object() {
    let mut document = landing_site();
    document.objects.push(placement("obj_001", "ow_flora_glowfungus", 3.0, 4.0));
    let database = test_database(vec![test_asset(
        "ow_flora_glowfungus",
        AssetKind::Object,
        LayerKind::Objects,
        None,
        Some("codex.flora.glowfungus"),
    )]);

    let issues = validate_map(&document, &database);

    assert!(has(&issues, MapValidationSeverity::Warning, "current runtime only scans entities"));
}

#[test]
fn errors_when_spawn_overlaps_solid_collision() {
    let mut document = landing_site();
    document.collision.push(CollisionFacts { x: 8, y: 12, solid: true });
    let database = test_database(Vec::new());

    let issues = validate_map(&document, &database);

    assert!(has(&issues, MapValidationSeverity::Error, "overlaps solid collision"));
}

#[test]
fn warns_when_codex_reference_is_missing_from_database() {
    let mut document = landing_site();
    document.entities.push(entity("ow_scan_terminal", "ScanTarget", 2.0, 2.0));
    let database = test_database(vec![test_asset(
        "ow_scan_terminal",
        AssetKind::Entity,
        LayerKind::Entities,
        Some("ScanTarget"),
        Some("codex.ruin.terminal"),
    )]);
    let codex = test_codex(Vec::new());

    let issues = validate_map_with_codex(&document, &database, Some(&codex));

    assert!(has(&issues, MapValidationSeverity::Warning, "not defined in codex database"));
}

#[test]
fn warns_when_codex_entry_has_empty_content_fields() {
    let mut document = landing_site();
    document.entities.push(entity("ow_scan_terminal", "ScanTarget", 2.0, 2.0));
    let database = test_database(vec![test_asset(
        "ow_scan_terminal",
        AssetKind::Entity,
        LayerKind::Entities,
        Some("ScanTarget"),
        Some("codex.ruin.terminal"),
    )]);
    let codex = test_codex(vec![CodexEntry {
        id: "codex.ruin.terminal".to_owned(),
        category: String::new(),
        title: String::new(),
        description: String::new(),
        scan_time_bits: None,
        unlock_tags: Vec::new(),
        image: None,
    }]);

    let issues = validate_map_with_codex(&document, &database, Some(&codex));

    assert!(issues.iter().any(|issue| issue.message.contains("empty title")));
    assert!(issues.iter().any(|issue| issue.message.contains("empty category")));
    assert!(issues.iter().any(|issue| issue.message.contains("empty description")));
}

#[test]
fn validates_explicit_unlock_codex_reference() {
    let mut document = landing_site();
    let mut door = entity("ow_ruin_door", "Door", 2.0, 2.0);
    door.unlock = Some(UnlockRule {
        requires_codex_id: Some("codex.ruin.door".to_owned()),
        requires_item_id: None,
        locked_message: None,
    });
    document.entities.push(door);
    let database = test_database(vec![test_asset(
        "ow_ruin_door",
        AssetKind::Entity,
        LayerKind::Entities,
        Some("Door"),
        None,
    )]);
    let codex = test_codex(Vec::new());

    let issues = validate_map_with_codex(&document, &database, Some(&codex));

    assert!(has(&issues, MapValidationSeverity::Warning, "not defined in codex database"));
}

#[test]
fn warns_when_unlock_has_no_requirement() {
    let mut document = landing_site();
    let mut door = entity("ow_ruin_door", "Door", 2.0, 2.0);
    door.unlock = Some(UnlockRule {
        requires_codex_id: None,
        requires_item_id: None,
        locked_message: Some("Locked".to_owned()),
    });
    document.entities.push(door);
    let database = test_database(vec![test_asset(
        "ow_ruin_door",
        AssetKind::Entity,
        LayerKind::Entities,
        Some("Door"),
        None,
    )]);

    let issues = validate_map(&document, &database);

    assert!(has(&issues, MapValidationSeverity::Warning, "unlock data but no requires"));
}

#[test]
fn warns_when_transition_target_has_bad_fields() {
    let mut document = landing_site();
    let mut door = entity("ow_ruin_door", "Door", 2.0, 2.0);
    door.transition = Some(TransitionTarget {
        scene: Some("UnknownScene".to_owned()),
        map_path: Some("assets/data/maps/facility.txt".to_owned()),
        spawn_id: Some("bad spawn".to_owned()),
    });
    document.entities.push(door);
    let database = test_database(vec![test_asset(
        "ow_ruin_door",
        AssetKind::Entity,
        LayerKind::Entities,
        Some("Door"),
        None,
    )]);

    let issues = validate_map(&document, &database);

    assert!(has(&issues, MapValidationSeverity::Warning, "not a known runtime scene"));
    assert!(has(&issues, MapValidationSeverity::Warning, "does not point to a RON map"));
    assert!(issues.iter().any(|issue| {
        issue.severity == MapValidationSeverity::Warning
            && issue.message.contains("spawn_id")
            && issue.message.contains("contains whitespace")
    }));
}

#[test]
fn header_errors_come_first_and_exactly() {
    let mut document = landing_site();
    document.id = "   ".to_owned();
    document.tile_size = 0;
    let database = test_database(Vec::new());
    let issues = validate_map(&document, &database);
    assert_eq!(issues[0].message, "map id is empty");
    assert_eq!(issues[0].severity, MapValidationSeverity::Error);
    assert_eq!(issues[1].message, "tile_size must be greater than zero");
}

#[test]
fn duplicate_zone_ids_and_short_zones_are_reported() {
    let mut document = landing_site();
    for _ in 0..2 {
        document.zones.push(ZoneFacts {
            id: "zone_a".to_owned(),
            zone_type: "Bogus".to_owned(),
            point_count: 2,
            unlock: None,
            transition: None,
        });
    }
    let database = test_database(Vec::new());
    let issues = validate_map(&document, &database);
    assert!(issues.iter().any(|issue| issue.message.contains("zone_a") && issue.message.contains("uses unknown zone_type Bogus")));
    assert!(issues.iter().any(|issue| issue.message.contains("has fewer than three points")));
    assert!(issues.iter().any(|issue| issue.severity == MapValidationSeverity::Error && issue.message.contains("zone_a")));
}
