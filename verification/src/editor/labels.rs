use vstd::prelude::*;

use crate::assets::{AnchorKind, AssetKind, SnapMode};
use crate::map::LayerKind;
use crate::text::{blank, cat2, contains, contains_seq, is_blank, replace_char, replaced, str_eq, strip_all_prefix, trim_start_matches};

verus! {

/// The display name of an asset category; unknown categories show as they are.
pub open spec fn category_name(c: Seq<char>) -> Seq<char> {
    if c == "tiles"@ {
        "地块"@
    } else if c == "decals"@ {
        "贴花"@
    } else if c == "props"@ {
        "道具"@
    } else if c == "flora"@ {
        "植物"@
    } else if c == "fauna"@ {
        "生物"@
    } else if c == "structures"@ {
        "结构"@
    } else if c == "ruins"@ {
        "遗迹"@
    } else if c == "interactables"@ {
        "交互物"@
    } else if c == "pickups"@ {
        "拾取物"@
    } else if c == "zones"@ {
        "区域"@
    } else {
        c
    }
}

/// The display name of an asset category.
pub fn category_label(category: &str) -> (r: &str)
    ensures
        r@ == category_name(category@),
{
    if str_eq(category, "tiles") {
        "地块"
    } else if str_eq(category, "decals") {
        "贴花"
    } else if str_eq(category, "props") {
        "道具"
    } else if str_eq(category, "flora") {
        "植物"
    } else if str_eq(category, "fauna") {
        "生物"
    } else if str_eq(category, "structures") {
        "结构"
    } else if str_eq(category, "ruins") {
        "遗迹"
    } else if str_eq(category, "interactables") {
        "交互物"
    } else if str_eq(category, "pickups") {
        "拾取物"
    } else if str_eq(category, "zones") {
        "区域"
    } else {
        category
    }
}

/// The short caption of an asset tile in the palette: the id without its `ow_tile_`
/// and `ow_` prefixes, `_` shown as spaces, cut to twelve characters and `...` when longer.
pub open spec fn compact_label(id: Seq<char>) -> Seq<char> {
    let label = replaced(strip_all_prefix(strip_all_prefix(id, "ow_tile_"@), "ow_"@), '_', " "@);
    if label.len() > 12 {
        label.take(12) + "..."@
    } else {
        label
    }
}

/// The short caption of an asset in the palette.
pub fn compact_asset_label(id: &str) -> (r: String)
    ensures
        r@ == compact_label(id@),
{
    proof {
        reveal_strlit("ow_tile_");
        reveal_strlit("ow_");
    }
    let t = trim_start_matches(id, "ow_tile_");
    let t = trim_start_matches(t, "ow_");
    let label = replace_char(t, '_', " ");
    if label.unicode_len() > 12 {
        let head = label.as_str().substring_char(0, 12);
        assert(head@ =~= label@.take(12));
        cat2(head, "...")
    } else {
        label
    }
}

/// The kind an imported image is registered as, from its folder and its file name.
pub open spec fn inferred_kind(category: Seq<char>, id: Seq<char>) -> AssetKind {
    if category == "tiles"@ || contains_seq(id, "_tile_"@) {
        AssetKind::Tile
    } else if category == "decals"@ || contains_seq(id, "_decal_"@) {
        AssetKind::Decal
    } else if category == "fauna"@ || category == "pickups"@ || contains_seq(id, "_fauna_"@) {
        AssetKind::Entity
    } else {
        AssetKind::Object
    }
}

/// The kind an imported image is registered as.
pub fn infer_asset_kind(category: &str, id: &str) -> (r: AssetKind)
    ensures
        r == inferred_kind(category@, id@),
{
    if str_eq(category, "tiles") || contains(id, "_tile_") {
        AssetKind::Tile
    } else if str_eq(category, "decals") || contains(id, "_decal_") {
        AssetKind::Decal
    } else if str_eq(category, "fauna") || str_eq(category, "pickups") || contains(id, "_fauna_") {
        AssetKind::Entity
    } else {
        AssetKind::Object
    }
}

/// The display name of an anchor.
pub fn anchor_label(anchor: AnchorKind) -> (r: &'static str)
    ensures
        r == (match anchor {
            AnchorKind::TopLeft => "左上",
            AnchorKind::Center => "中心",
            AnchorKind::BottomCenter => "底部中心",
        }),
{
    match anchor {
        AnchorKind::TopLeft => "左上",
        AnchorKind::Center => "中心",
        AnchorKind::BottomCenter => "底部中心",
    }
}

/// The display name of a snap mode.
pub fn snap_label(snap: SnapMode) -> (r: &'static str)
    ensures
        r == (match snap {
            SnapMode::Grid => "网格",
            SnapMode::HalfGrid => "半格",
            SnapMode::Free => "自由",
        }),
{
    match snap {
        SnapMode::Grid => "网格",
        SnapMode::HalfGrid => "半格",
        SnapMode::Free => "自由",
    }
}

/// A field's value for display, or `未填写` when it is blank.
pub fn empty_fallback(value: &str) -> (r: &str)
    ensures
        r@ == (if blank(value@) { "未填写"@ } else { value@ }),
{
    if is_blank(value) {
        "未填写"
    } else {
        value
    }
}

/// The number key that selects a layer.
pub fn layer_shortcut(layer: LayerKind) -> (r: &'static str)
    ensures
        r == (match layer {
            LayerKind::Ground => "1",
            LayerKind::Decals => "2",
            LayerKind::Objects => "3",
            LayerKind::Entities => "4",
            LayerKind::Collision => "5",
            LayerKind::Zones => "6",
        }),
{
    match layer {
        LayerKind::Ground => "1",
        LayerKind::Decals => "2",
        LayerKind::Objects => "3",
        LayerKind::Entities => "4",
        LayerKind::Collision => "5",
        LayerKind::Zones => "6",
    }
}

} // verus!
