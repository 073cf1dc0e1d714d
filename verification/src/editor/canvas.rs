use vstd::prelude::*;

use crate::assets::AssetKind;
use crate::map::{extent, LayerKind, TileInstance};

verus! {

/// Whether the tile's cells (extents of at least one cell) overlap the half-open
/// rectangle `[min_x, max_x) x [min_y, max_y)`.
pub open spec fn spec_tile_intersects_rect(t: TileInstance, min_x: int, min_y: int, max_x: int, max_y: int) -> bool {
    &&& t.x < max_x
    &&& t.x + extent(t.w) > min_x
    &&& t.y < max_y
    &&& t.y + extent(t.h) > min_y
}

/// Whether a ground tile overlaps the cell rectangle whose maximum corner is exclusive.
pub fn tile_intersects_rect(tile: &TileInstance, min_x: i32, min_y: i32, max_x: i32, max_y: i32) -> (r: bool)
    ensures
        r == spec_tile_intersects_rect(*tile, min_x as int, min_y as int, max_x as int, max_y as int),
{
    let width: i64 = if tile.w < 1 { 1 } else { tile.w as i64 };
    let height: i64 = if tile.h < 1 { 1 } else { tile.h as i64 };
    let tile_max_x: i64 = tile.x as i64 + width;
    let tile_max_y: i64 = tile.y as i64 + height;
    tile.x < max_x && tile_max_x > min_x as i64 && tile.y < max_y && tile_max_y > min_y as i64
}

pub open spec fn min_i32(a: i32, b: i32) -> i32 {
    if a <= b { a } else { b }
}

pub open spec fn max_i32(a: i32, b: i32) -> i32 {
    if a >= b { a } else { b }
}

/// The rectangle spanned by two corner cells, as `[min_x, min_y, max_x, max_y]`
/// (both corners inclusive).
pub fn normalized_tile_rect(start: [i32; 2], end: [i32; 2]) -> (r: [i32; 4])
    ensures
        r@ == seq![
            min_i32(start[0], end[0]),
            min_i32(start[1], end[1]),
            max_i32(start[0], end[0]),
            max_i32(start[1], end[1]),
        ],
{
    let min_x = if start[0] <= end[0] { start[0] } else { end[0] };
    let min_y = if start[1] <= end[1] { start[1] } else { end[1] };
    let max_x = if start[0] >= end[0] { start[0] } else { end[0] };
    let max_y = if start[1] >= end[1] { start[1] } else { end[1] };
    let r = [min_x, min_y, max_x, max_y];
    assert(r@ =~= seq![min_x, min_y, max_x, max_y]);
    r
}

/// The kind of asset that a layer holds; zones and collision hold none.
pub open spec fn spec_expected_asset_kind(layer: LayerKind) -> Option<AssetKind> {
    match layer {
        LayerKind::Ground => Some(AssetKind::Tile),
        LayerKind::Decals => Some(AssetKind::Decal),
        LayerKind::Objects => Some(AssetKind::Object),
        LayerKind::Entities => Some(AssetKind::Entity),
        LayerKind::Zones | LayerKind::Collision => None,
    }
}

/// The kind of asset that may be painted on `layer`.
pub fn expected_asset_kind_for_layer(layer: LayerKind) -> (r: Option<AssetKind>)
    ensures
        r == spec_expected_asset_kind(layer),
{
    match layer {
        LayerKind::Ground => Some(AssetKind::Tile),
        LayerKind::Decals => Some(AssetKind::Decal),
        LayerKind::Objects => Some(AssetKind::Object),
        LayerKind::Entities => Some(AssetKind::Entity),
        LayerKind::Zones | LayerKind::Collision => None,
    }
}

} // verus!
