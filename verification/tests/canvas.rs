use alien_archive::assets::AssetKind;
use alien_archive::editor::canvas::{expected_asset_kind_for_layer, normalized_tile_rect, tile_intersects_rect};
use alien_archive::map::{LayerKind, TileInstance};

fn tile_at(x: i32, y: i32) -> TileInstance {
    TileInstance {
        asset: "ow_tile_test".to_owned(),
        x,
        y,
        w: 1,
        h: 1,
        flip_x: false,
        rotation: 0,
    }
}

#[test]
fn tile_intersection_needs_expanded_max_to_include_right_and_bottom_neighbors() {
    let right_neighbor = tile_at(11, 10);
    let bottom_neighbor = tile_at(10, 11);

    assert!(!tile_intersects_rect(&right_neighbor, 9, 9, 11, 11));
    assert!(!tile_intersects_rect(&bottom_neighbor, 9, 9, 11, 11));
    assert!(tile_intersects_rect(&right_neighbor, 9, 9, 12, 12));
    assert!(tile_intersects_rect(&bottom_neighbor, 9, 9, 12, 12));
}

#[test]
fn tile_intersection_treats_empty_extent_as_one_cell() {
    let mut tile = tile_at(5, 5);
    tile.w = 0;
    tile.h = -3;
    assert!(tile_intersects_rect(&tile, 5, 5, 6, 6));
    assert!(!tile_intersects_rect(&tile, 6, 5, 8, 8));
    tile.w = 3;
    assert!(tile_intersects_rect(&tile, 7, 5, 8, 6));
}

#[test]
fn normalized_rect_orders_corners() {
    assert_eq!(normalized_tile_rect([4, 1], [2, 7]), [2, 1, 4, 7]);
    assert_eq!(normalized_tile_rect([-1, -1], [-3, 5]), [-3, -1, -1, 5]);
}

#[test]
fn layers_expect_matching_asset_kinds() {
    assert_eq!(expected_asset_kind_for_layer(LayerKind::Ground), Some(AssetKind::Tile));
    assert_eq!(expected_asset_kind_for_layer(LayerKind::Decals), Some(AssetKind::Decal));
    assert_eq!(expected_asset_kind_for_layer(LayerKind::Objects), Some(AssetKind::Object));
    assert_eq!(expected_asset_kind_for_layer(LayerKind::Entities), Some(AssetKind::Entity));
    assert_eq!(expected_asset_kind_for_layer(LayerKind::Zones), None);
    assert_eq!(expected_asset_kind_for_layer(LayerKind::Collision), None);
}
