use vstd::prelude::*;

use crate::editor::tools::ToolKind;
use crate::map::LayerKind;
use crate::text::{cat2, cat4, dec, decimal, signed_dec, signed_decimal};

verus! {

/// What a click or drag on a map cell does, given the tool and the active layer.
#[derive(Clone, Copy, Debug, PartialEq, Eq, Structural)]
pub enum CanvasAction {
    /// The tool does not place anything (select, pan, zoom).
    Ignore,
    /// Hand the point to the zone tool.
    ZoneTool,
    /// Hand the cell to the rectangle tool.
    RectangleTool,
    /// Pick up the asset under the pointer.
    Eyedropper,
    /// The active layer is locked: report it.
    LayerLocked,
    /// Erase collision under the collision brush.
    EraseCollision,
    /// Erase the active layer's content under the ground footprint.
    EraseCells,
    /// Paint collision with the collision brush.
    PaintCollision,
    /// The bucket only fills the ground layer: report it.
    BucketNeedsGround,
    /// The bucket needs a ground asset: report it.
    BucketNeedsAsset,
    /// Flood-fill the ground from the cell.
    BucketFill,
    /// Placing needs a selected asset: report it.
    NeedsAsset,
    /// Paint the selected tile asset on the ground.
    PlaceGround,
    /// Place the selected asset as a decal.
    PlaceDecal,
    /// Place the selected asset as an object.
    PlaceObject,
    /// Place the selected asset as an entity.
    PlaceEntity,
}

/// The canvas's decision for a click on a cell (after the pointer checks): by tool, then by
/// lock state, then by layer and whether an asset is selected.
pub open spec fn spec_canvas_action(tool: ToolKind, layer: LayerKind, locked: bool, has_asset: bool) -> CanvasAction {
    match tool {
        ToolKind::Select | ToolKind::Pan | ToolKind::Zoom => CanvasAction::Ignore,
        ToolKind::Zone => CanvasAction::ZoneTool,
        ToolKind::Rectangle => CanvasAction::RectangleTool,
        ToolKind::Eyedropper => CanvasAction::Eyedropper,
        _ => if locked {
            CanvasAction::LayerLocked
        } else if tool == ToolKind::Erase {
            if layer == LayerKind::Collision {
                CanvasAction::EraseCollision
            } else {
                CanvasAction::EraseCells
            }
        } else if tool == ToolKind::Collision || layer == LayerKind::Collision {
            CanvasAction::PaintCollision
        } else if tool == ToolKind::Bucket {
            if layer != LayerKind::Ground {
                CanvasAction::BucketNeedsGround
            } else if !has_asset {
                CanvasAction::BucketNeedsAsset
            } else {
                CanvasAction::BucketFill
            }
        } else if !has_asset {
            CanvasAction::NeedsAsset
        } else {
            match layer {
                LayerKind::Ground => CanvasAction::PlaceGround,
                LayerKind::Decals | LayerKind::Zones => CanvasAction::PlaceDecal,
                LayerKind::Objects => CanvasAction::PlaceObject,
                _ => CanvasAction::PlaceEntity,
            }
        },
    }
}

/// What a click on a map cell does with `tool` on `layer` (locked or not), with or without a
/// selected asset. Zones take the selected asset as a decal.
pub fn canvas_action(tool: ToolKind, layer: LayerKind, layer_locked: bool, has_asset: bool) -> (r: CanvasAction)
    ensures
        r == spec_canvas_action(tool, layer, layer_locked, has_asset),
{
    match tool {
        ToolKind::Select | ToolKind::Pan | ToolKind::Zoom => CanvasAction::Ignore,
        ToolKind::Zone => CanvasAction::ZoneTool,
        ToolKind::Rectangle => CanvasAction::RectangleTool,
        ToolKind::Eyedropper => CanvasAction::Eyedropper,
        _ => if layer_locked {
            CanvasAction::LayerLocked
        } else if tool == ToolKind::Erase {
            if layer == LayerKind::Collision {
                CanvasAction::EraseCollision
            } else {
                CanvasAction::EraseCells
            }
        } else if tool == ToolKind::Collision || layer == LayerKind::Collision {
            CanvasAction::PaintCollision
        } else if tool == ToolKind::Bucket {
            if layer != LayerKind::Ground {
                CanvasAction::BucketNeedsGround
            } else if !has_asset {
                CanvasAction::BucketNeedsAsset
            } else {
                CanvasAction::BucketFill
            }
        } else if !has_asset {
            CanvasAction::NeedsAsset
        } else {
            match layer {
                LayerKind::Ground => CanvasAction::PlaceGround,
                LayerKind::Decals | LayerKind::Zones => CanvasAction::PlaceDecal,
                LayerKind::Objects => CanvasAction::PlaceObject,
                _ => CanvasAction::PlaceEntity,
            }
        },
    }
}

/// Whether the tool acts while the pointer is held down (erasing, collision painting, and
/// brushing ground or collision) rather than on a click.
pub fn continuous_paint(tool: ToolKind, layer: LayerKind) -> (r: bool)
    ensures
        r == (tool == ToolKind::Erase || tool == ToolKind::Collision || (tool == ToolKind::Brush && (layer
            == LayerKind::Ground || layer == LayerKind::Collision))),
{
    tool == ToolKind::Erase || tool == ToolKind::Collision || (tool == ToolKind::Brush && (layer == LayerKind::Ground
        || layer == LayerKind::Collision))
}

/// The status line after placing `asset_id` at cell (`x`, `y`), with the painted size for
/// ground tiles.
pub open spec fn placed_status(asset_id: Seq<char>, size: Option<[i32; 2]>, x: int, y: int) -> Seq<char> {
    match size {
        Some(s) => "Placed "@ + asset_id + " "@ + signed_dec(s[0] as int) + "x"@ + signed_dec(s[1] as int) + " at "@
            + signed_dec(x) + ", "@ + signed_dec(y),
        None => "Placed "@ + asset_id + " at "@ + signed_dec(x) + ", "@ + signed_dec(y),
    }
}

/// The status line after placing an asset.
pub fn placement_status(asset_id: &str, ground_size: Option<[i32; 2]>, x: i32, y: i32) -> (r: String)
    ensures
        r@ == placed_status(asset_id@, ground_size, x as int, y as int),
{
    let xs = signed_decimal(x as i64);
    let ys = signed_decimal(y as i64);
    let mut r = cat2("Placed ", asset_id);
    match ground_size {
        Some(s) => {
            let ws = signed_decimal(s[0] as i64);
            let hs = signed_decimal(s[1] as i64);
            let size = cat4(" ", ws.as_str(), "x", hs.as_str());
            r.append(size.as_str());
        },
        None => {},
    }
    let at = cat4(" at ", xs.as_str(), ", ", ys.as_str());
    r.append(at.as_str());
    r
}

/// The status line after erasing at cell (`x`, `y`).
pub fn erase_status(x: i32, y: i32) -> (r: String)
    ensures
        r@ == "Erased "@ + signed_dec(x as int) + ", "@ + signed_dec(y as int),
{
    let xs = signed_decimal(x as i64);
    let ys = signed_decimal(y as i64);
    cat4("Erased ", xs.as_str(), ", ", ys.as_str())
}

/// The status line after a bucket fill of `filled` cells.
pub fn bucket_status(filled: usize) -> (r: String)
    ensures
        r@ == "油漆桶填充 "@ + dec(filled as nat) + " 格"@,
{
    let n = decimal(filled as u64);
    let mut r = cat2("油漆桶填充 ", n.as_str());
    r.append(" 格");
    r
}

} // verus!
