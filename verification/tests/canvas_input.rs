use alien_archive::editor::canvas_input::{
    bucket_status, canvas_action, continuous_paint, erase_status, placement_status, CanvasAction,
};
use alien_archive::editor::tools::ToolKind;
use alien_archive::map::LayerKind;

#[test]
fn canvas_clicks_dispatch_by_tool_lock_layer_and_asset() {
    assert_eq!(canvas_action(ToolKind::Select, LayerKind::Ground, true, true), CanvasAction::Ignore);
    assert_eq!(canvas_action(ToolKind::Zone, LayerKind::Zones, true, false), CanvasAction::ZoneTool);
    assert_eq!(canvas_action(ToolKind::Eyedropper, LayerKind::Objects, true, false), CanvasAction::Eyedropper);
    assert_eq!(canvas_action(ToolKind::Brush, LayerKind::Ground, true, true), CanvasAction::LayerLocked);
    assert_eq!(canvas_action(ToolKind::Erase, LayerKind::Collision, false, false), CanvasAction::EraseCollision);
    assert_eq!(canvas_action(ToolKind::Erase, LayerKind::Objects, false, false), CanvasAction::EraseCells);
    assert_eq!(canvas_action(ToolKind::Brush, LayerKind::Collision, false, true), CanvasAction::PaintCollision);
    assert_eq!(canvas_action(ToolKind::Bucket, LayerKind::Decals, false, true), CanvasAction::BucketNeedsGround);
    assert_eq!(canvas_action(ToolKind::Bucket, LayerKind::Ground, false, false), CanvasAction::BucketNeedsAsset);
    assert_eq!(canvas_action(ToolKind::Bucket, LayerKind::Ground, false, true), CanvasAction::BucketFill);
    assert_eq!(canvas_action(ToolKind::Brush, LayerKind::Objects, false, false), CanvasAction::NeedsAsset);
    assert_eq!(canvas_action(ToolKind::Brush, LayerKind::Ground, false, true), CanvasAction::PlaceGround);
    assert_eq!(canvas_action(ToolKind::Brush, LayerKind::Zones, false, true), CanvasAction::PlaceDecal);
    assert_eq!(canvas_action(ToolKind::Brush, LayerKind::Entities, false, true), CanvasAction::PlaceEntity);
}

#[test]
fn continuous_tools_and_status_lines() {
    assert!(continuous_paint(ToolKind::Erase, LayerKind::Objects));
    assert!(continuous_paint(ToolKind::Brush, LayerKind::Ground));
    assert!(!continuous_paint(ToolKind::Brush, LayerKind::Objects));
    assert!(!continuous_paint(ToolKind::Bucket, LayerKind::Ground));
    assert_eq!(placement_status("grass", Some([2, 3]), 4, -1), "Placed grass 2x3 at 4, -1");
    assert_eq!(placement_status("rock", None, 0, 7), "Placed rock at 0, 7");
    assert_eq!(erase_status(3, 5), "Erased 3, 5");
    assert_eq!(bucket_status(12), "油漆桶填充 12 格");
}
