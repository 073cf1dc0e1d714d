use vstd::prelude::*;

use crate::assets::{asset_kind_zh_label, AssetKind};
use crate::editor::asset_registry::AssetEntry;
use crate::editor::canvas::{expected_asset_kind_for_layer, spec_expected_asset_kind};
use crate::editor::ground::brush_extent;
use crate::editor::workspace::LayerUiState;
use crate::map::{extent, first_tile_at, layer_zh_label, tiles_view, LayerKind, TileInstance, TileView};
use crate::text::{cat2, cat4, signed_dec, signed_decimal};

verus! {

/// The display state `states` records first for `layer`; a layer without one is visible and
/// unlocked.
pub open spec fn state_of(states: Seq<(LayerKind, LayerUiState)>, layer: LayerKind) -> LayerUiState
    decreases states.len(),
{
    if states.len() == 0 {
        LayerUiState { visible: true, locked: false }
    } else if states[0].0 == layer {
        states[0].1
    } else {
        state_of(states.drop_first(), layer)
    }
}

/// The display state of `layer`.
pub fn layer_state(states: &Vec<(LayerKind, LayerUiState)>, layer: LayerKind) -> (r: LayerUiState)
    ensures
        r == state_of(states@, layer),
{
    let ghost s = states@;
    assert(s.subrange(0, s.len() as int) =~= s);
    let mut i: usize = 0;
    while i < states.len()
        invariant
            s == states@,
            i <= s.len(),
            state_of(s, layer) == state_of(s.subrange(i as int, s.len() as int), layer),
        decreases s.len() - i,
    {
        assert(s.subrange(i as int, s.len() as int).drop_first() =~= s.subrange(i + 1, s.len() as int));
        if states[i].0 == layer {
            return states[i].1;
        }
        i = i + 1;
    }
    LayerUiState::default()
}

/// `label 已锁定`: the note that a layer is locked.
pub open spec fn locked_note(layer: LayerKind) -> Seq<char> {
    layer_zh_label(layer)@ + " 已锁定"@
}

fn locked_text(layer: LayerKind) -> (r: String)
    ensures
        r@ == locked_note(layer),
{
    cat2(layer.zh_label(), " 已锁定")
}

/// What the editor warns about before placing an asset of `kind` (default layer
/// `default_layer`) on `layer`: the layer is locked, the asset is of another kind than the
/// layer holds, the asset belongs on another layer.
pub open spec fn placement_warnings(kind: AssetKind, default_layer: LayerKind, layer: LayerKind, locked: bool) -> Seq<Seq<char>> {
    (if locked {
        seq![locked_note(layer)]
    } else {
        Seq::empty()
    }) + (match spec_expected_asset_kind(layer) {
        Some(expected) => if kind != expected {
            seq!["素材类型是"@ + asset_kind_zh_label(kind)@ + "，当前层需要"@ + asset_kind_zh_label(expected)@]
        } else {
            Seq::empty()
        },
        None => Seq::empty(),
    }) + (if default_layer != layer {
        seq!["素材默认层是"@ + layer_zh_label(default_layer)@]
    } else {
        Seq::empty()
    })
}

pub open spec fn string_seq(v: Seq<String>) -> Seq<Seq<char>> {
    v.map_values(|s: String| s@)
}

/// The warnings shown before placing `asset` on `layer` (locked or not).
pub fn asset_placement_warnings(asset: &AssetEntry, layer: LayerKind, layer_locked: bool) -> (r: Vec<String>)
    ensures
        string_seq(r@) == placement_warnings(asset.kind, asset.default_layer, layer, layer_locked),
{
    let mut warnings: Vec<String> = Vec::new();
    if layer_locked {
        warnings.push(locked_text(layer));
    }
    let ghost w1 = string_seq(warnings@);
    match expected_asset_kind_for_layer(layer) {
        Some(expected) => {
            if asset.kind != expected {
                warnings.push(cat4("素材类型是", asset.kind.zh_label(), "，当前层需要", expected.zh_label()));
            }
        },
        None => {},
    }
    let ghost w2 = string_seq(warnings@);
    if asset.default_layer != layer {
        warnings.push(cat2("素材默认层是", asset.default_layer.zh_label()));
    }
    assert(string_seq(warnings@) =~= placement_warnings(asset.kind, asset.default_layer, layer, layer_locked));
    warnings
}

/// The layers a stamp can hold, in the order its warnings list them.
pub open spec fn stamp_layers() -> Seq<LayerKind> {
    seq![LayerKind::Ground, LayerKind::Decals, LayerKind::Objects, LayerKind::Entities]
}

/// The locked-layer notes for a stamp with items on `item_layers`, layer by layer from `k`.
pub open spec fn stamp_lock_notes(item_layers: Seq<LayerKind>, states: Seq<(LayerKind, LayerUiState)>, k: int) -> Seq<Seq<char>>
    decreases 4 - k,
{
    if k < 0 || k >= 4 {
        Seq::empty()
    } else {
        let layer = stamp_layers()[k];
        (if item_layers.contains(layer) && state_of(states, layer).locked {
            seq![locked_note(layer)]
        } else {
            Seq::empty()
        }) + stamp_lock_notes(item_layers, states, k + 1)
    }
}

/// What the editor warns about before pasting a `width` x `height` stamp whose items lie on
/// `item_layers` at (`x`, `y`) of a `map_width` x `map_height` map: each locked layer it
/// touches, then whether it reaches past the map.
pub open spec fn stamp_warnings(
    item_layers: Seq<LayerKind>,
    states: Seq<(LayerKind, LayerUiState)>,
    x: int,
    y: int,
    width: int,
    height: int,
    map_width: int,
    map_height: int,
) -> Seq<Seq<char>> {
    stamp_lock_notes(item_layers, states, 0) + (if x + width > map_width || y + height > map_height {
        seq!["Stamp 超出地图边界，粘贴时会跳过越界对象"@]
    } else {
        Seq::empty()
    })
}

fn layer_listed(layers: &Vec<LayerKind>, layer: LayerKind) -> (r: bool)
    ensures
        r == layers@.contains(layer),
{
    let mut i: usize = 0;
    while i < layers.len()
        invariant
            i <= layers@.len(),
            forall|j: int| 0 <= j < i ==> layers@[j] != layer,
        decreases layers@.len() - i,
    {
        if layers[i] == layer {
            return true;
        }
        i = i + 1;
    }
    false
}

/// The warnings shown before pasting a stamp (see `stamp_warnings`).
pub fn stamp_warnings_at(
    item_layers: &Vec<LayerKind>,
    states: &Vec<(LayerKind, LayerUiState)>,
    x: i32,
    y: i32,
    width: i32,
    height: i32,
    map_width: u32,
    map_height: u32,
) -> (r: Vec<String>)
    ensures
        string_seq(r@) == stamp_warnings(
            item_layers@,
            states@,
            x as int,
            y as int,
            width as int,
            height as int,
            map_width as int,
            map_height as int,
        ),
{
    let layers = [LayerKind::Ground, LayerKind::Decals, LayerKind::Objects, LayerKind::Entities];
    assert(layers@ =~= stamp_layers());
    let mut warnings: Vec<String> = Vec::new();
    let mut k: usize = 0;
    while k < 4
        invariant
            layers@ == stamp_layers(),
            k <= 4,
            string_seq(warnings@) + stamp_lock_notes(item_layers@, states@, k as int) == stamp_lock_notes(
                item_layers@,
                states@,
                0,
            ),
        decreases 4 - k,
    {
        let layer = layers[k];
        let ghost before = string_seq(warnings@);
        if layer_listed(item_layers, layer) && layer_state(states, layer).locked {
            warnings.push(locked_text(layer));
            assert(string_seq(warnings@) =~= before.push(locked_note(layer)));
        }
        proof {
            let tail = stamp_lock_notes(item_layers@, states@, k + 1);
            assert(before + stamp_lock_notes(item_layers@, states@, k as int) =~= string_seq(warnings@) + tail);
        }
        k = k + 1;
    }
    assert(string_seq(warnings@) =~= string_seq(warnings@) + stamp_lock_notes(item_layers@, states@, 4));
    let ghost notes = string_seq(warnings@);
    if (x as i64) + (width as i64) > map_width as i64 || (y as i64) + (height as i64) > map_height as i64 {
        warnings.push("Stamp 超出地图边界，粘贴时会跳过越界对象".to_owned());
        assert(string_seq(warnings@) =~= notes.push("Stamp 超出地图边界，粘贴时会跳过越界对象"@));
    } else {
        assert(string_seq(warnings@) =~= notes + Seq::<Seq<char>>::empty());
    }
    warnings
}

/// A footprint clamped, axis by axis, to at least one cell and to what fits before the far
/// edge of a `width` x `height` map from (`x`, `y`) (at least one cell).
pub fn clamped_footprint_at(footprint: [i32; 2], width: u32, height: u32, x: i32, y: i32) -> (r: [i32; 2])
    requires
        width <= i32::MAX,
        height <= i32::MAX,
        i32::MIN <= width - x <= i32::MAX,
        i32::MIN <= height - y <= i32::MAX,
    ensures
        r[0] == brush_extent(footprint[0], width as int, x as int),
        r[1] == brush_extent(footprint[1], height as int, y as int),
{
    let max_w: i32 = if (width as i32) - x < 1 { 1 } else { (width as i32) - x };
    let max_h: i32 = if (height as i32) - y < 1 { 1 } else { (height as i32) - y };
    let w: i32 = if footprint[0] < 1 { 1 } else if footprint[0] > max_w { max_w } else { footprint[0] };
    let h: i32 = if footprint[1] < 1 { 1 } else if footprint[1] > max_h { max_h } else { footprint[1] };
    [w, h]
}

/// The footprint a tile asset paints with: the declared one, else the one inferred from its
/// size, else a single cell.
pub fn asset_tile_footprint(declared: Option<[i32; 2]>, inferred: Option<[i32; 2]>) -> (r: [i32; 2])
    ensures
        r == (match declared {
            Some(f) => f,
            None => match inferred {
                Some(f) => f,
                None => [1i32, 1i32],
            },
        }),
{
    match declared {
        Some(f) => f,
        None => match inferred {
            Some(f) => f,
            None => [1, 1],
        },
    }
}

/// The footprint a placement preview outlines: the declared or inferred one, when it spans
/// more than one cell.
pub fn asset_preview_footprint(declared: Option<[i32; 2]>, inferred: Option<[i32; 2]>) -> (r: Option<[i32; 2]>)
    ensures
        r == (match (match declared {
            Some(f) => Some(f),
            None => inferred,
        }) {
            Some(f) => if f[0] > 1 || f[1] > 1 {
                Some(f)
            } else {
                None
            },
            None => None,
        }),
{
    let chosen = match declared {
        Some(f) => Some(f),
        None => inferred,
    };
    match chosen {
        Some(f) => if f[0] > 1 || f[1] > 1 {
            Some(f)
        } else {
            None
        },
        None => None,
    }
}

/// The size of the ground tile anchored at (`x`, `y`), each extent at least one cell.
pub fn ground_size_at(tiles: &Vec<TileInstance>, x: i32, y: i32) -> (r: Option<[i32; 2]>)
    ensures
        r is Some <==> first_tile_at(tiles_view(tiles@), x, y) is Some,
        r matches Some(s) ==> {
            let t = tiles_view(tiles@)[first_tile_at(tiles_view(tiles@), x, y)->0];
            s[0] == extent(t.3) && s[1] == extent(t.4)
        },
{
    let ghost g = tiles_view(tiles@);
    assert(g.subrange(0, g.len() as int) =~= g);
    let mut i: usize = 0;
    while i < tiles.len()
        invariant
            g == tiles_view(tiles@),
            g.len() == tiles@.len(),
            i <= g.len(),
            first_tile_at(g, x, y) == match first_tile_at(g.subrange(i as int, g.len() as int), x, y) {
                Some(k) => Some(k + i),
                None => None,
            },
        decreases g.len() - i,
    {
        proof {
            assert(g.subrange(i as int, g.len() as int).drop_first() =~= g.subrange(i + 1, g.len() as int));
            assert(g.subrange(i as int, g.len() as int)[0] == g[i as int]);
        }
        if tiles[i].x == x && tiles[i].y == y {
            let w = if tiles[i].w < 1 { 1 } else { tiles[i].w };
            let h = if tiles[i].h < 1 { 1 } else { tiles[i].h };
            return Some([w, h]);
        }
        i = i + 1;
    }
    None
}

/// The ground layer after resizing the tile anchored at (`x`, `y`) to `w` x `h`, clamped to
/// at least one cell and to what fits before the edge of a `width` x `height` map.
pub open spec fn resized_ground(g: Seq<TileView>, x: i32, y: i32, w: i32, h: i32, width: int, height: int) -> Seq<TileView> {
    match first_tile_at(g, x, y) {
        Some(k) => g.update(
            k,
            (
                g[k].0,
                x,
                y,
                brush_extent(w, width, x as int),
                brush_extent(h, height, y as int),
                g[k].5,
                g[k].6,
            ),
        ),
        None => g,
    }
}

/// Resizes the ground tile anchored at (`x`, `y`); returns its new size, or nothing when no
/// tile is anchored there.
pub fn resize_ground_tile(tiles: &mut Vec<TileInstance>, width: u32, height: u32, x: i32, y: i32, w: i32, h: i32) -> (r: Option<[i32; 2]>)
    requires
        width <= i32::MAX,
        height <= i32::MAX,
        i32::MIN <= width - x <= i32::MAX,
        i32::MIN <= height - y <= i32::MAX,
    ensures
        tiles_view(final(tiles)@) == resized_ground(tiles_view(old(tiles)@), x, y, w, h, width as int, height as int),
        r is Some <==> first_tile_at(tiles_view(old(tiles)@), x, y) is Some,
        r matches Some(s) ==> s[0] == brush_extent(w, width as int, x as int) && s[1] == brush_extent(
            h,
            height as int,
            y as int,
        ),
{
    let size = clamped_footprint_at([w, h], width, height, x, y);
    let ghost g = tiles_view(tiles@);
    assert(g.subrange(0, g.len() as int) =~= g);
    let mut i: usize = 0;
    while i < tiles.len()
        invariant
            g == tiles_view(tiles@),
            g.len() == tiles@.len(),
            g == tiles_view(old(tiles)@),
            i <= g.len(),
            size[0] == brush_extent(w, width as int, x as int),
            size[1] == brush_extent(h, height as int, y as int),
            first_tile_at(g, x, y) == match first_tile_at(g.subrange(i as int, g.len() as int), x, y) {
                Some(k) => Some(k + i),
                None => None,
            },
        decreases g.len() - i,
    {
        proof {
            assert(g.subrange(i as int, g.len() as int).drop_first() =~= g.subrange(i + 1, g.len() as int));
            assert(g.subrange(i as int, g.len() as int)[0] == g[i as int]);
        }
        if tiles[i].x == x && tiles[i].y == y {
            let t = TileInstance {
                asset: tiles[i].asset.clone(),
                x,
                y,
                w: size[0],
                h: size[1],
                flip_x: tiles[i].flip_x,
                rotation: tiles[i].rotation,
            };
            assert(first_tile_at(g, x, y) == Some(i as int));
            tiles.set(i, t);
            assert(tiles_view(tiles@) =~= g.update(i as int, t@));
            return Some(size);
        }
        i = i + 1;
    }
    None
}

/// The status line after resizing the ground tile at (`x`, `y`) to `w` x `h`.
pub open spec fn resize_status(x: int, y: int, w: int, h: int) -> Seq<char> {
    "Resized Ground:"@ + signed_dec(x) + ","@ + signed_dec(y) + " to "@ + signed_dec(w) + " x "@ + signed_dec(h)
}

/// The status line after resizing a ground tile.
pub fn ground_resize_status(x: i32, y: i32, w: i32, h: i32) -> (r: String)
    ensures
        r@ == resize_status(x as int, y as int, w as int, h as int),
{
    let xs = signed_decimal(x as i64);
    let ys = signed_decimal(y as i64);
    let ws = signed_decimal(w as i64);
    let hs = signed_decimal(h as i64);
    let mut r = cat4("Resized Ground:", xs.as_str(), ",", ys.as_str());
    let tail = cat4(" to ", ws.as_str(), " x ", hs.as_str());
    r.append(tail.as_str());
    r
}

} // verus!
