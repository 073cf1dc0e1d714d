use alien_archive::semantics::{
    canonical_entity_type, entity_type_uses_implicit_legacy_unlock, is_known_hazard_meter,
    is_known_runtime_scene, is_known_zone_type, launch_scene_for_mode, meter_def, zone_type_allows_surface,
    zone_type_def, zone_type_is_collision_scope, zone_type_is_line_like, zone_type_is_objective_like,
    ZoneTypeKind, ENTITY_FACILITY_ENTRANCE, ENTITY_FACILITY_EXIT, ZONE_CHECKPOINT, ZONE_COLLISION_LINE,
    ZONE_HAZARD, ZONE_SURFACE_GATE, ZONE_WALK_SURFACE,
};

#[test]
fn zone_metadata_covers_line_and_surface_rules() {
    assert!(zone_type_is_line_like(ZONE_COLLISION_LINE));
    assert!(zone_type_is_line_like(ZONE_SURFACE_GATE));
    assert!(zone_type_allows_surface(ZONE_WALK_SURFACE));
    assert!(zone_type_allows_surface(ZONE_CHECKPOINT));
    assert!(!zone_type_allows_surface(ZONE_HAZARD));
}

#[test]
fn entity_aliases_preserve_legacy_names() {
    assert_eq!(canonical_entity_type("Entrance"), Some(ENTITY_FACILITY_ENTRANCE));
    assert_eq!(canonical_entity_type("Exit"), Some(ENTITY_FACILITY_EXIT));
    assert!(entity_type_uses_implicit_legacy_unlock("Entrance"));
}

#[test]
fn scene_aliases_match_existing_launch_keys() {
    assert!(is_known_runtime_scene("main_menu"));
    assert_eq!(launch_scene_for_mode("Facility"), "facility");
    assert_eq!(launch_scene_for_mode("unknown"), "overworld");
}

#[test]
fn zone_lookup_is_exact_and_keeps_table_metadata() {
    let def = zone_type_def("HazardZone").unwrap();
    assert_eq!(def.kind, ZoneTypeKind::Hazard);
    assert_eq!(def.zh_label, "危险区");
    assert!(def.editor_preset);
    assert!(zone_type_def("hazardzone").is_none());
    assert!(zone_type_def(" HazardZone").is_none());
    assert!(is_known_zone_type("Trigger"));
    assert!(zone_type_is_collision_scope("CollisionArea"));
    assert!(!zone_type_is_collision_scope("SurfaceGate"));
    assert!(zone_type_is_objective_like("ObjectiveZone"));
    assert!(!zone_type_is_objective_like("PromptZone"));
}

#[test]
fn scene_names_are_trimmed_and_case_insensitive() {
    assert!(is_known_runtime_scene("  MENU "));
    assert!(is_known_runtime_scene("World"));
    assert!(!is_known_runtime_scene("main menu"));
    assert_eq!(launch_scene_for_mode(" FACILITY\t"), "facility");
    assert_eq!(launch_scene_for_mode("main-menu"), "overworld");
}

#[test]
fn meters_distinguish_hazard_drains() {
    assert!(is_known_hazard_meter("oxygen"));
    assert!(!is_known_hazard_meter("heat"));
    assert!(!is_known_hazard_meter("Oxygen"));
    assert_eq!(meter_def("spores").unwrap().english_label, "Spore resistance");
    assert_eq!(canonical_entity_type("Gate"), None);
    assert!(!entity_type_uses_implicit_legacy_unlock("Exit"));
    assert!(entity_type_uses_implicit_legacy_unlock("Door"));
}
