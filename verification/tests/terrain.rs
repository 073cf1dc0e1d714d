use alien_archive::assets::AssetKind;
use alien_archive::editor::terrain::{
    dominant_transition_target, role_for_mask, rotation_between_degrees, transition_role_for_target, TerrainMask,
    TerrainNeighborFamilies, TerrainRules,
};
use alien_archive::editor::terrain_names::{
    classify_asset, infer_family_and_role_of, normalize_family_id, role_from_token, terrain_tag_value, Corner, Direction,
    TerrainAsset, TerrainRole,
};

fn asset(id: &str) -> TerrainAsset {
    TerrainAsset {
        id: id.to_owned(),
        kind: AssetKind::Tile,
        tags: vec!["tiles".to_owned()],
    }
}

fn neighbors_for_mask(family: &str, mask: TerrainMask) -> TerrainNeighborFamilies {
    TerrainNeighborFamilies {
        north: mask.north.then(|| family.to_owned()),
        east: mask.east.then(|| family.to_owned()),
        south: mask.south.then(|| family.to_owned()),
        west: mask.west.then(|| family.to_owned()),
    }
}

#[test]
fn chooses_rotated_edge_variant_from_single_base_edge() {
    let rules = TerrainRules::from_assets(&[asset("ow_tile_sand_ground"), asset("ow_tile_sand_edge_n")]);
    let choice = rules
        .choice_for_neighbors(
            "ow_tile_sand_ground",
            &neighbors_for_mask(
                "sand",
                TerrainMask {
                    north: true,
                    east: false,
                    south: true,
                    west: true,
                },
            ),
        )
        .unwrap();

    assert_eq!(choice.asset_id, "ow_tile_sand_edge_n");
    assert_eq!(choice.rotation, 90);
}

#[test]
fn falls_back_to_center_when_no_variant_exists() {
    let rules = TerrainRules::from_assets(&[asset("ow_tile_sand_ground")]);
    let choice = rules
        .choice_for_neighbors(
            "ow_tile_sand_ground",
            &neighbors_for_mask(
                "sand",
                TerrainMask {
                    north: false,
                    east: true,
                    south: true,
                    west: true,
                },
            ),
        )
        .unwrap();

    assert_eq!(choice.asset_id, "ow_tile_sand_ground");
    assert_eq!(choice.rotation, 0);
}

#[test]
fn terrain_tag_can_group_assets_without_hiding_id_role() {
    let mut center = asset("ow_tile_custom_ground");
    center.tags.push("terrain:sand".to_owned());
    let mut edge = asset("ow_tile_custom_edge_n");
    edge.tags.push("terrain:sand".to_owned());

    let rules = TerrainRules::from_assets(&[center, edge]);
    let choice = rules
        .choice_for_neighbors(
            "ow_tile_custom_ground",
            &neighbors_for_mask(
                "sand",
                TerrainMask {
                    north: false,
                    east: true,
                    south: true,
                    west: true,
                },
            ),
        )
        .unwrap();

    assert_eq!(choice.asset_id, "ow_tile_custom_edge_n");
}

#[test]
fn keeps_current_center_variant_inside_full_terrain_patch() {
    let mut base = asset("ow_tile_gen_sand_01");
    base.tags.push("terrain:sand".to_owned());
    base.tags.push("terrain_role:center".to_owned());
    let mut variant = asset("ow_tile_gen_sand_02");
    variant.tags.push("terrain:sand".to_owned());
    variant.tags.push("terrain_role:center".to_owned());

    let rules = TerrainRules::from_assets(&[base, variant]);
    let choice = rules
        .choice_for_neighbors(
            "ow_tile_gen_sand_02",
            &neighbors_for_mask(
                "sand",
                TerrainMask {
                    north: true,
                    east: true,
                    south: true,
                    west: true,
                },
            ),
        )
        .unwrap();

    assert_eq!(choice.asset_id, "ow_tile_gen_sand_02");
    assert_eq!(choice.rotation, 0);
}

#[test]
fn keeps_current_center_variant_when_family_has_no_edge_variant() {
    let mut base = asset("ow_tile_gen_sand_01");
    base.tags.push("terrain:sand".to_owned());
    base.tags.push("terrain_role:center".to_owned());
    let mut variant = asset("ow_tile_gen_sand_02");
    variant.tags.push("terrain:sand".to_owned());
    variant.tags.push("terrain_role:center".to_owned());

    let rules = TerrainRules::from_assets(&[base, variant]);
    let choice = rules
        .choice_for_neighbors(
            "ow_tile_gen_sand_02",
            &neighbors_for_mask(
                "sand",
                TerrainMask {
                    north: false,
                    east: true,
                    south: true,
                    west: true,
                },
            ),
        )
        .unwrap();

    assert_eq!(choice.asset_id, "ow_tile_gen_sand_02");
    assert_eq!(choice.rotation, 0);
}

#[test]
fn directed_transition_edge_wins_against_plain_family_edge() {
    let mut sand = asset("ow_tile_32_sand_center_01");
    sand.tags.push("terrain:t32_sand".to_owned());
    sand.tags.push("material:sand".to_owned());
    sand.tags.push("terrain_role:center".to_owned());
    let mut sand_edge = asset("ow_tile_32_sand_edge_n");
    sand_edge.tags.push("terrain:t32_sand".to_owned());
    sand_edge.tags.push("material:sand".to_owned());
    sand_edge.tags.push("terrain_role:edge_n".to_owned());
    let mut transition = asset("ow_tile_32_sand_to_rock_edge_n");
    transition.tags.push("transition".to_owned());
    transition.tags.push("terrain:t32_sand_to_rock".to_owned());
    transition.tags.push("material:sand".to_owned());
    transition.tags.push("transition_to:rock".to_owned());
    transition.tags.push("terrain_role:edge_n".to_owned());

    let rules = TerrainRules::from_assets(&[sand, sand_edge, transition]);
    let choice = rules
        .choice_for_neighbors(
            "ow_tile_32_sand_center_01",
            &TerrainNeighborFamilies {
                north: Some("rock".to_owned()),
                east: Some("sand".to_owned()),
                south: Some("sand".to_owned()),
                west: Some("sand".to_owned()),
            },
        )
        .unwrap();

    assert_eq!(choice.asset_id, "ow_tile_32_sand_to_rock_edge_n");
    assert_eq!(choice.rotation, 0);
}

#[test]
fn directed_transition_corner_uses_matching_target_sides() {
    let mut sand = asset("ow_tile_32_sand_center_01");
    sand.tags.push("terrain:t32_sand".to_owned());
    sand.tags.push("material:sand".to_owned());
    sand.tags.push("terrain_role:center".to_owned());
    let mut transition = asset("ow_tile_32_sand_to_rock_corner_ne");
    transition.tags.push("transition".to_owned());
    transition.tags.push("terrain:t32_sand_to_rock".to_owned());
    transition.tags.push("material:sand".to_owned());
    transition.tags.push("transition_to:rock".to_owned());
    transition.tags.push("terrain_role:corner_ne".to_owned());

    let rules = TerrainRules::from_assets(&[sand, transition]);
    let choice = rules
        .choice_for_neighbors(
            "ow_tile_32_sand_center_01",
            &TerrainNeighborFamilies {
                north: Some("rock".to_owned()),
                east: Some("rock".to_owned()),
                south: Some("sand".to_owned()),
                west: Some("sand".to_owned()),
            },
        )
        .unwrap();

    assert_eq!(choice.asset_id, "ow_tile_32_sand_to_rock_corner_ne");
}

#[test]
fn unknown_or_non_tile_assets_get_no_choice() {
    let mut decal = asset("ow_tile_sand_ground");
    decal.kind = AssetKind::Decal;
    let rules = TerrainRules::from_assets(&[decal]);
    assert!(rules.is_empty());
    let n = TerrainNeighborFamilies { north: None, east: None, south: None, west: None };
    assert!(rules.choice_for_neighbors("ow_tile_sand_ground", &n).is_none());
    assert_eq!(rules.family_for_asset("ow_tile_sand_ground"), None);
}

#[test]
fn family_of_registered_tile_is_normalized() {
    let mut tile = asset("ow_tile_Desert-Rock_edge_w");
    tile.tags.push("material: _T32_Desert-Rock_ ".to_owned());
    let rules = TerrainRules::from_assets(&[tile]);
    assert!(!rules.is_empty());
    assert_eq!(rules.family_for_asset("ow_tile_Desert-Rock_edge_w"), Some("desert_rock"));
}

#[test]
fn mask_roles_follow_missing_sides() {
    let all = TerrainMask { north: true, east: true, south: true, west: true };
    assert_eq!(role_for_mask(all), TerrainRole::Center);
    assert_eq!(role_for_mask(TerrainMask { west: false, ..all }), TerrainRole::Edge(Direction::West));
    assert_eq!(
        role_for_mask(TerrainMask { south: false, east: false, ..all }),
        TerrainRole::Corner(Corner::SouthEast)
    );
    assert_eq!(role_for_mask(TerrainMask { north: false, south: false, ..all }), TerrainRole::Center);
    assert_eq!(
        role_for_mask(TerrainMask { north: false, east: false, south: false, west: false }),
        TerrainRole::Center
    );
}

#[test]
fn rotation_wraps_into_one_turn() {
    assert_eq!(rotation_between_degrees(0, 90), 90);
    assert_eq!(rotation_between_degrees(270, 0), 90);
    assert_eq!(rotation_between_degrees(180, 90), 270);
    assert_eq!(rotation_between_degrees(90, 90), 0);
}

#[test]
fn dominant_target_prefers_count_then_earliest_name() {
    let n = TerrainNeighborFamilies {
        north: Some("water".to_owned()),
        east: Some("rock".to_owned()),
        south: Some("sand".to_owned()),
        west: Some("water".to_owned()),
    };
    assert_eq!(dominant_transition_target("sand", &n), Some("water".to_owned()));
    let tie = TerrainNeighborFamilies {
        north: Some("water".to_owned()),
        east: Some("rock".to_owned()),
        south: None,
        west: Some("sand".to_owned()),
    };
    assert_eq!(dominant_transition_target("sand", &tie), Some("rock".to_owned()));
    let own = TerrainNeighborFamilies {
        north: Some("sand".to_owned()),
        east: None,
        south: Some("sand".to_owned()),
        west: None,
    };
    assert_eq!(dominant_transition_target("sand", &own), None);
}

#[test]
fn transition_roles_follow_target_sides() {
    let n = TerrainNeighborFamilies {
        north: Some("sand".to_owned()),
        east: Some("rock".to_owned()),
        south: Some("rock".to_owned()),
        west: Some("sand".to_owned()),
    };
    assert_eq!(
        transition_role_for_target("sand", "rock", &n),
        Some(TerrainRole::Corner(Corner::SouthEast))
    );
    assert_eq!(transition_role_for_target("sand", "water", &n), Some(TerrainRole::Center));
    assert_eq!(transition_role_for_target("sand", "sand", &n), Some(TerrainRole::Corner(Corner::NorthWest)));
}

#[test]
fn names_and_tags_give_roles() {
    assert_eq!(role_from_token("Outer_NE"), Some(TerrainRole::Corner(Corner::NorthEast)));
    assert_eq!(role_from_token("edge_edge_left"), Some(TerrainRole::Edge(Direction::West)));
    assert_eq!(role_from_token("01"), None);
    let (family, role) = infer_family_and_role_of("sand_cap_s_02");
    assert_eq!(family, "sand_cap");
    assert_eq!(role, TerrainRole::Edge(Direction::South));
    let (family, role) = infer_family_and_role_of("rock_corner_top_left");
    assert_eq!(family, "rock");
    assert_eq!(role, TerrainRole::Corner(Corner::NorthWest));
    let (family, role) = infer_family_and_role_of("lava_tile");
    assert_eq!(family, "lava");
    assert_eq!(role, TerrainRole::Center);
    let (family, role) = infer_family_and_role_of("n_grass");
    assert_eq!(family, "");
    assert_eq!(role, TerrainRole::Edge(Direction::North));
    assert_eq!(terrain_tag_value("material= rock ", "material"), Some("rock"));
    assert_eq!(terrain_tag_value("material:   ", "material"), None);
    assert_eq!(terrain_tag_value("materials:rock", "material"), None);
    assert_eq!(normalize_family_id("terrain32_Ice-Sheet"), "ice_sheet");
}

#[test]
fn classification_reads_transition_tags() {
    let mut t = asset("ow_tile_sand_to_rock_corner_ne");
    t.tags.push("transition_from:Sand".to_owned());
    t.tags.push("transition_to:t32_Rock".to_owned());
    let c = classify_asset(&t).unwrap();
    assert_eq!(c.family, "sand");
    assert_eq!(c.role, TerrainRole::Corner(Corner::NorthEast));
    assert_eq!(c.transition_to, Some("rock".to_owned()));
}
