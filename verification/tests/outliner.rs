use alien_archive::editor::outliner::{
    default_entity_types, default_unlock_item_ids, editor_known_zone_types, outliner_groups, outliner_matches,
    outliner_search_text,
};

#[test]
fn outliner_search_text_joins_and_lowercases_every_part() {
    let text = outliner_search_text("Door_01", "Entities · Door", "codex.RUIN item", &vec!["LOCK", "Trans"]);
    assert_eq!(text, "door_01 entities · door codex.ruin item lock trans");
    assert_eq!(outliner_search_text("A", "B", "", &Vec::new()), "a b  ");
}

#[test]
fn outliner_matches_needs_every_search_word() {
    let text = "door_01 entities door codex.ruin";
    assert!(outliner_matches(text, ""));
    assert!(outliner_matches(text, "   "));
    assert!(outliner_matches(text, "door"));
    assert!(outliner_matches(text, "  ruin\tdoor_01 "));
    assert!(!outliner_matches(text, "door crate"));
    assert!(!outliner_matches(text, "DOOR"));
}

#[test]
fn editor_lists() {
    assert_eq!(outliner_groups(), ["Spawns", "Entities", "Objects", "Decals", "Zones", "Ground"]);
    assert_eq!(editor_known_zone_types(), ["ScanArea", "MapTransition", "NoSpawn", "CameraBounds"]);
    assert_eq!(default_entity_types()[2], "FacilityEntrance");
    assert_eq!(default_unlock_item_ids().len(), 10);
    assert_eq!(default_unlock_item_ids()[9], "glow_fungus_sample");
}
