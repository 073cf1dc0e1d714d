use vstd::prelude::*;

use crate::text::{blank, cat3, contains, contains_seq, is_blank, list_contains, lemma_pad3_injective, pad3, padded3, str_eq};

verus! {

pub const DEFAULT_MAP_ID: &'static str = "overworld_landing_site";
pub const DEFAULT_MAP_PATH: &'static str = "assets/data/maps/overworld_landing_site.ron";

/// The layers of a map document.
#[derive(Clone, Copy, Debug, PartialEq, Eq, Hash, Structural)]
pub enum LayerKind {
    Ground,
    Decals,
    Objects,
    Entities,
    Zones,
    Collision,
}

pub open spec fn layer_label(l: LayerKind) -> &'static str {
    match l {
        LayerKind::Ground => "Ground",
        LayerKind::Decals => "Decals",
        LayerKind::Objects => "Objects",
        LayerKind::Entities => "Entities",
        LayerKind::Zones => "Zones",
        LayerKind::Collision => "Collision",
    }
}

pub open spec fn layer_zh_label(l: LayerKind) -> &'static str {
    match l {
        LayerKind::Ground => "地表",
        LayerKind::Decals => "贴花",
        LayerKind::Objects => "物件",
        LayerKind::Entities => "实体",
        LayerKind::Zones => "区域",
        LayerKind::Collision => "碰撞",
    }
}

/// Every layer, bottom to top (`LayerKind::ALL`).
pub fn all_layers() -> (r: [LayerKind; 6])
    ensures
        r@ == seq![LayerKind::Ground, LayerKind::Decals, LayerKind::Objects, LayerKind::Entities,
            LayerKind::Zones, LayerKind::Collision],
{
    let r = [LayerKind::Ground, LayerKind::Decals, LayerKind::Objects, LayerKind::Entities,
        LayerKind::Zones, LayerKind::Collision];
    assert(r@ =~= seq![LayerKind::Ground, LayerKind::Decals, LayerKind::Objects, LayerKind::Entities,
        LayerKind::Zones, LayerKind::Collision]);
    r
}

impl LayerKind {
    pub fn label(self) -> (r: &'static str)
        ensures
            r == layer_label(self),
    {
        match self {
            LayerKind::Ground => "Ground",
            LayerKind::Decals => "Decals",
            LayerKind::Objects => "Objects",
            LayerKind::Entities => "Entities",
            LayerKind::Zones => "Zones",
            LayerKind::Collision => "Collision",
        }
    }

    pub fn zh_label(self) -> (r: &'static str)
        ensures
            r == layer_zh_label(self),
    {
        match self {
            LayerKind::Ground => "地表",
            LayerKind::Decals => "贴花",
            LayerKind::Objects => "物件",
            LayerKind::Entities => "实体",
            LayerKind::Zones => "区域",
            LayerKind::Collision => "碰撞",
        }
    }
}

/// A ground tile covering `w` x `h` cells from cell (`x`, `y`).
#[derive(Clone, Debug, PartialEq, Eq)]
pub struct TileInstance {
    pub asset: String,
    pub x: i32,
    pub y: i32,
    pub w: i32,
    pub h: i32,
    pub flip_x: bool,
    pub rotation: i32,
}

impl View for TileInstance {
    type V = (Seq<char>, i32, i32, i32, i32, bool, i32);

    open spec fn view(&self) -> (Seq<char>, i32, i32, i32, i32, bool, i32) {
        (self.asset@, self.x, self.y, self.w, self.h, self.flip_x, self.rotation)
    }
}

pub open spec fn tiles_view(s: Seq<TileInstance>) -> Seq<(Seq<char>, i32, i32, i32, i32, bool, i32)> {
    s.map_values(|t: TileInstance| t@)
}

/// What is needed to pass an entity or zone.
#[derive(Clone, Debug, PartialEq, Eq, Default)]
pub struct UnlockRule {
    pub requires_codex_id: Option<String>,
    pub requires_item_id: Option<String>,
    pub locked_message: Option<String>,
}

/// An optional string that is absent or blank.
pub open spec fn absent_or_blank(s: Option<String>) -> bool {
    match s {
        Some(v) => blank(v@),
        None => true,
    }
}

fn absent_or_blank_exec(s: &Option<String>) -> (r: bool)
    ensures
        r == absent_or_blank(*s),
{
    match s {
        Some(v) => is_blank(v.as_str()),
        None => true,
    }
}

impl UnlockRule {
    /// No field carries text.
    pub fn is_empty(&self) -> (r: bool)
        ensures
            r == (absent_or_blank(self.requires_codex_id) && absent_or_blank(self.requires_item_id)
                && absent_or_blank(self.locked_message)),
    {
        absent_or_blank_exec(&self.requires_codex_id) && absent_or_blank_exec(&self.requires_item_id)
            && absent_or_blank_exec(&self.locked_message)
    }
}

/// Where an entity or zone sends the player.
#[derive(Clone, Debug, PartialEq, Eq, Default)]
pub struct TransitionTarget {
    pub scene: Option<String>,
    pub map_path: Option<String>,
    pub spawn_id: Option<String>,
}

impl TransitionTarget {
    /// No field carries text.
    pub fn is_empty(&self) -> (r: bool)
        ensures
            r == (absent_or_blank(self.scene) && absent_or_blank(self.map_path) && absent_or_blank(self.spawn_id)),
    {
        absent_or_blank_exec(&self.scene) && absent_or_blank_exec(&self.map_path) && absent_or_blank_exec(&self.spawn_id)
    }
}

/// An unlock rule that is absent or empty (the rule a document leaves out).
pub fn option_unlock_rule_is_none_or_empty(value: &Option<UnlockRule>) -> (r: bool)
    ensures
        r == (match value {
            Some(u) => absent_or_blank(u.requires_codex_id) && absent_or_blank(u.requires_item_id)
                && absent_or_blank(u.locked_message),
            None => true,
        }),
{
    match value {
        Some(u) => u.is_empty(),
        None => true,
    }
}

/// A transition target that is absent or empty (the target a document leaves out).
pub fn option_transition_target_is_none_or_empty(value: &Option<TransitionTarget>) -> (r: bool)
    ensures
        r == (match value {
            Some(t) => absent_or_blank(t.scene) && absent_or_blank(t.map_path) && absent_or_blank(t.spawn_id),
            None => true,
        }),
{
    match value {
        Some(t) => t.is_empty(),
        None => true,
    }
}

/// How a walk surface is entered.
#[derive(Clone, Copy, Debug, PartialEq, Eq)]
pub enum WalkSurfaceKind {
    Platform,
    Ramp,
}

impl Default for WalkSurfaceKind {
    fn default() -> (r: Self)
        ensures
            r == WalkSurfaceKind::Platform,
    {
        WalkSurfaceKind::Platform
    }
}

impl WalkSurfaceKind {
    pub fn label(self) -> (r: &'static str)
        ensures
            r == (match self {
                WalkSurfaceKind::Platform => "Platform",
                WalkSurfaceKind::Ramp => "Ramp",
            }),
    {
        match self {
            WalkSurfaceKind::Platform => "Platform",
            WalkSurfaceKind::Ramp => "Ramp",
        }
    }

    pub fn zh_label(self) -> (r: &'static str)
        ensures
            r == (match self {
                WalkSurfaceKind::Platform => "台面",
                WalkSurfaceKind::Ramp => "斜坡入口",
            }),
    {
        match self {
            WalkSurfaceKind::Platform => "台面",
            WalkSurfaceKind::Ramp => "斜坡入口",
        }
    }
}

/// The walk surface kind a document leaves out.
pub fn is_default_walk_surface_kind(value: &WalkSurfaceKind) -> (r: bool)
    ensures
        r == (*value == WalkSurfaceKind::Platform),
{
    match value {
        WalkSurfaceKind::Platform => true,
        WalkSurfaceKind::Ramp => false,
    }
}

pub fn is_zero_i32(value: &i32) -> (r: bool)
    ensures
        r == (*value == 0),
{
    *value == 0
}

pub fn is_one_i32(value: &i32) -> (r: bool)
    ensures
        r == (*value == 1),
{
    *value == 1
}

pub fn is_false(value: &bool) -> (r: bool)
    ensures
        r == !*value,
{
    !*value
}

pub fn is_true(value: &bool) -> (r: bool)
    ensures
        r == *value,
{
    *value
}

pub fn default_true() -> (r: bool)
    ensures
        r,
{
    true
}

/// The tile extent a document leaves out.
pub fn default_tile_extent() -> (r: i32)
    ensures
        r == 1,
{
    1
}

/// A tile's extent, at least one cell.
pub open spec fn extent(v: i32) -> int {
    if v < 1 {
        1
    } else {
        v as int
    }
}

pub open spec fn spec_tile_contains_cell(t: TileInstance, x: int, y: int) -> bool {
    t.x <= x < t.x + extent(t.w) && t.y <= y < t.y + extent(t.h)
}

/// Whether cell (`x`, `y`) lies in the tile's rectangle (extents of at least one cell).
pub fn tile_contains_cell(tile: &TileInstance, x: i32, y: i32) -> (r: bool)
    ensures
        r == spec_tile_contains_cell(*tile, x as int, y as int),
{
    let width: i64 = if tile.w < 1 { 1 } else { tile.w as i64 };
    let height: i64 = if tile.h < 1 { 1 } else { tile.h as i64 };
    x >= tile.x && (x as i64) < (tile.x as i64) + width && y >= tile.y && (y as i64) < (tile.y as i64) + height
}

pub open spec fn clamp_int(v: int, lo: int, hi: int) -> int {
    if v < lo {
        lo
    } else if v > hi {
        hi
    } else {
        v
    }
}

/// A ground tile as a value: asset, x, y, w, h, mirrored, rotation.
pub type TileView = (Seq<char>, i32, i32, i32, i32, bool, i32);

/// Whether the tile covers cell (`x`, `y`) (extents of at least one cell).
pub open spec fn covers(v: TileView, x: int, y: int) -> bool {
    v.1 <= x < v.1 + extent(v.3) && v.2 <= y < v.2 + extent(v.4)
}

/// Position of the first tile anchored at (`x`, `y`).
pub open spec fn first_tile_at(ground: Seq<TileView>, x: i32, y: i32) -> Option<int>
    decreases ground.len(),
{
    if ground.len() == 0 {
        None
    } else if ground[0].1 == x && ground[0].2 == y {
        Some(0)
    } else {
        match first_tile_at(ground.drop_first(), x, y) {
            Some(i) => Some(i + 1),
            None => None,
        }
    }
}

/// The ground layer after `place_tile_sized`: the first tile anchored at the cell takes the
/// new asset and size, or a new unrotated, unflipped tile is appended.
pub open spec fn placed_ground(
    ground: Seq<TileView>,
    asset: Seq<char>,
    x: i32,
    y: i32,
    w: i32,
    h: i32,
) -> Seq<TileView> {
    match first_tile_at(ground, x, y) {
        Some(k) => ground.update(k, (asset, x, y, w, h, ground[k].5, ground[k].6)),
        None => ground.push((asset, x, y, w, h, false, 0)),
    }
}

/// Puts a `w` x `h` tile of `asset` at (`x`, `y`) on a map `width` x `height` cells large;
/// the size is clamped to at least one cell and to what fits before the map edge (at least one).
pub fn place_tile_sized(
    ground: &mut Vec<TileInstance>,
    width: u32,
    height: u32,
    asset: &str,
    x: i32,
    y: i32,
    w: i32,
    h: i32,
)
    requires
        width <= i32::MAX,
        height <= i32::MAX,
        i32::MIN <= width - x <= i32::MAX,
        i32::MIN <= height - y <= i32::MAX,
    ensures
        tiles_view(final(ground)@) == placed_ground(
            tiles_view(old(ground)@),
            asset@,
            x,
            y,
            clamp_int(w as int, 1, if width - x < 1 { 1 } else { width - x }) as i32,
            clamp_int(h as int, 1, if height - y < 1 { 1 } else { height - y }) as i32,
        ),
{
    let max_width: i32 = if (width as i32) - x < 1 { 1 } else { (width as i32) - x };
    let max_height: i32 = if (height as i32) - y < 1 { 1 } else { (height as i32) - y };
    let cw = if w < 1 { 1 } else if w > max_width { max_width } else { w };
    let ch = if h < 1 { 1 } else if h > max_height { max_height } else { h };
    assert(cw == clamp_int(w as int, 1, if width - x < 1 { 1 } else { width - x }) as i32);
    assert(ch == clamp_int(h as int, 1, if height - y < 1 { 1 } else { height - y }) as i32);
    let ghost start = ground@;
    assert(tiles_view(start).subrange(0, ground@.len() as int) =~= tiles_view(start));
    let mut i: usize = 0;
    while i < ground.len()
        invariant
            ground@ == start,
            start == old(ground)@,
            cw == clamp_int(w as int, 1, if width - x < 1 { 1 } else { width - x }) as i32,
            ch == clamp_int(h as int, 1, if height - y < 1 { 1 } else { height - y }) as i32,
            i <= ground@.len(),
            first_tile_at(tiles_view(start), x, y) == match first_tile_at(
                tiles_view(start).subrange(i as int, ground@.len() as int),
                x,
                y,
            ) {
                Some(k) => Some(k + i),
                None => None,
            },
        decreases ground@.len() - i,
    {
        proof {
            assert(tiles_view(start).subrange(i as int, ground@.len() as int).drop_first()
                =~= tiles_view(start).subrange(i + 1, ground@.len() as int));
            assert(tiles_view(start).subrange(i as int, ground@.len() as int)[0] == tiles_view(start)[i as int]);
        }
        if ground[i].x == x && ground[i].y == y {
            let tile = TileInstance {
                asset: asset.to_owned(),
                x,
                y,
                w: cw,
                h: ch,
                flip_x: ground[i].flip_x,
                rotation: ground[i].rotation,
            };
            assert(first_tile_at(tiles_view(start).subrange(i as int, ground@.len() as int), x, y) == Some(0int));
            assert(first_tile_at(tiles_view(start), x, y) == Some(i as int));
            ground.set(i, tile);
            assert(tiles_view(ground@) =~= tiles_view(start).update(i as int, tile@));
            return;
        }
        i = i + 1;
    }
    let tile = TileInstance { asset: asset.to_owned(), x, y, w: cw, h: ch, flip_x: false, rotation: 0 };
    ground.push(tile);
    assert(tiles_view(ground@) =~= tiles_view(start).push(tile@));
}

/// Puts a one-cell tile of `asset` at (`x`, `y`).
pub fn place_tile(ground: &mut Vec<TileInstance>, width: u32, height: u32, asset: &str, x: i32, y: i32)
    requires
        width <= i32::MAX,
        height <= i32::MAX,
        i32::MIN <= width - x <= i32::MAX,
        i32::MIN <= height - y <= i32::MAX,
    ensures
        tiles_view(final(ground)@) == placed_ground(tiles_view(old(ground)@), asset@, x, y, 1, 1),
{
    place_tile_sized(ground, width, height, asset, x, y, 1, 1);
}

/// Removes every tile that covers cell (`x`, `y`), keeping the others in order.
pub fn erase_ground_at(ground: &mut Vec<TileInstance>, x: i32, y: i32)
    ensures
        tiles_view(final(ground)@) == tiles_view(old(ground)@).filter(|v: TileView| !covers(v, x as int, y as int)),
{
    let ghost start = tiles_view(ground@);
    let mut kept: Vec<TileInstance> = Vec::new();
    let mut input: Vec<TileInstance> = Vec::new();
    std::mem::swap(&mut input, ground);
    let mut k: usize = 0;
    let total = input.len();
    assert(start.subrange(0, 0).filter(|v: TileView| !covers(v, x as int, y as int)) =~= tiles_view(kept@));
    while input.len() > 0
        invariant
            start.len() == total,
            k + input@.len() == start.len(),
            tiles_view(input@) == start.subrange(k as int, start.len() as int),
            tiles_view(kept@) == start.subrange(0, k as int).filter(|v: TileView| !covers(v, x as int, y as int)),
        decreases input@.len(),
    {
        let ghost before = input@;
        let t = input.remove(0);
        proof {
            let pre = start.subrange(0, k + 1);
            assert(pre.drop_last() =~= start.subrange(0, k as int));
            assert(tiles_view(before)[0] == t@);
            assert(pre.last() == t@);
            assert(input@ =~= before.subrange(1, before.len() as int));
            assert(tiles_view(input@) =~= tiles_view(before).subrange(1, before.len() as int));
            assert(tiles_view(input@) =~= start.subrange(k + 1, start.len() as int));
            reveal_with_fuel(Seq::filter, 1);
        }
        if !tile_contains_cell(&t, x, y) {
            let ghost kv = tiles_view(kept@);
            kept.push(t);
            assert(tiles_view(kept@) =~= kv.push(t@));
        }
        k = k + 1;
    }
    assert(start.subrange(0, k as int) =~= start);
    *ground = kept;
}

/// The generated id for slot `index`: the prefix, `_` and the one-based slot number padded to
/// three digits.
pub open spec fn id_for(prefix: Seq<char>, index: nat) -> Seq<char> {
    prefix + "_"@ + pad3(index + 1)
}

/// `format!("{prefix}_{:03}", index + 1)`.
pub fn next_id(prefix: &str, index: usize) -> (r: String)
    requires
        index < usize::MAX,
    ensures
        r@ == id_for(prefix@, index as nat),
{
    let number = padded3((index + 1) as u64);
    cat3(prefix, "_", number.as_str())
}

proof fn lemma_id_for_injective(prefix: Seq<char>, a: nat, b: nat)
    requires
        id_for(prefix, a) == id_for(prefix, b),
    ensures
        a == b,
{
    let n = (prefix.len() + "_"@.len()) as int;
    assert(id_for(prefix, a).subrange(n, id_for(prefix, a).len() as int) =~= pad3(a + 1));
    assert(id_for(prefix, b).subrange(n, id_for(prefix, b).len() as int) =~= pad3(b + 1));
    lemma_pad3_injective(a + 1, b + 1);
}

/// Pigeonhole: if the ids of slots `0..count` all occur in `existing`, then `count` is at most
/// the length of `existing`.
proof fn lemma_ids_fit(prefix: Seq<char>, count: nat, existing: Seq<Seq<char>>)
    requires
        forall|j: nat| j < count ==> existing.contains(#[trigger] id_for(prefix, j)),
    ensures
        count <= existing.len(),
{
    let cands = Seq::new(count, |j: int| id_for(prefix, j as nat));
    assert forall|i: int, j: int| 0 <= i < cands.len() && 0 <= j < cands.len() && i != j implies cands[i] != cands[j] by {
        if cands[i] == cands[j] {
            lemma_id_for_injective(prefix, i as nat, j as nat);
        }
    }
    assert(cands.no_duplicates());
    cands.unique_seq_to_set();
    existing.lemma_cardinality_of_set();
    assert forall|s: Seq<char>| cands.to_set().contains(s) implies existing.to_set().contains(s) by {
        let j = choose|j: int| 0 <= j < cands.len() && cands[j] == s;
        assert(existing.contains(id_for(prefix, j as nat)));
    }
    vstd::seq_lib::seq_to_set_is_finite(existing);
    vstd::set_lib::lemma_len_subset(cands.to_set(), existing.to_set());
}

/// The first generated id that no string of `existing` equals.
pub fn next_free_id(prefix: &str, existing: &Vec<String>) -> (r: String)
    requires
        existing@.len() < usize::MAX,
    ensures
        exists|k: nat| #![trigger id_for(prefix@, k)] r@ == id_for(prefix@, k)
            && !existing@.map_values(|s: String| s@).contains(id_for(prefix@, k))
            && forall|j: nat| j < k ==> existing@.map_values(|s: String| s@).contains(#[trigger] id_for(prefix@, j)),
{
    let ghost views = existing@.map_values(|s: String| s@);
    let mut index: usize = 0;
    loop
        invariant
            views == existing@.map_values(|s: String| s@),
            existing@.len() < usize::MAX,
            index <= existing@.len(),
            forall|j: nat| j < index ==> views.contains(#[trigger] id_for(prefix@, j)),
        decreases existing@.len() - index,
    {
        let candidate = next_id(prefix, index);
        if !list_contains(existing, candidate.as_str()) {
            return candidate;
        }
        proof {
            assert forall|j: nat| j < index + 1 implies views.contains(#[trigger] id_for(prefix@, j)) by {
                if j == index as nat {
                } else {
                }
            }
            lemma_ids_fit(prefix@, (index + 1) as nat, views);
        }
        index = index + 1;
    }
}

} // verus!

verus! {

/// One cell of the editor's collision layer.
#[derive(Clone, Copy, Debug, PartialEq, Eq, Structural)]
pub struct CollisionCell {
    pub x: i32,
    pub y: i32,
    pub solid: bool,
}

/// The first cell of `cells` at (`x`, `y`), from index `k` on.
pub open spec fn first_cell_at(cells: Seq<CollisionCell>, x: i32, y: i32, k: int) -> Option<int>
    decreases cells.len() - k,
{
    if k < 0 || k >= cells.len() {
        None
    } else if cells[k].x == x && cells[k].y == y {
        Some(k)
    } else {
        first_cell_at(cells, x, y, k + 1)
    }
}

/// A solid collision cell at (`x`, `y`).
pub open spec fn solid_cell(x: i32, y: i32) -> CollisionCell {
    CollisionCell { x, y, solid: true }
}

/// The collision layer after marking (`x`, `y`) solid: the first cell there turns solid,
/// or a solid cell is added at the end when there is none.
pub open spec fn with_solid_cell(cells: Seq<CollisionCell>, x: i32, y: i32) -> Seq<CollisionCell> {
    match first_cell_at(cells, x, y, 0) {
        Some(i) => cells.update(i, solid_cell(x, y)),
        None => cells.push(solid_cell(x, y)),
    }
}

/// Marks cell (`x`, `y`) solid.
pub fn place_collision(cells: &mut Vec<CollisionCell>, x: i32, y: i32)
    ensures
        final(cells)@ == with_solid_cell(old(cells)@, x, y),
{
    let ghost start = cells@;
    let mut k: usize = 0;
    while k < cells.len()
        invariant
            cells@ == start,
            start == old(cells)@,
            k <= cells@.len(),
            first_cell_at(start, x, y, 0) == first_cell_at(start, x, y, k as int),
        decreases cells@.len() - k,
    {
        if cells[k].x == x && cells[k].y == y {
            assert(first_cell_at(start, x, y, k as int) == Some(k as int));
            cells.set(k, CollisionCell { x, y, solid: true });
            assert(cells@ == start.update(k as int, solid_cell(x, y)));
            return;
        }
        k = k + 1;
    }
    cells.push(CollisionCell { x, y, solid: true });
}

/// Removes every collision cell at (`x`, `y`), keeping the others in order.
pub fn erase_collision_at(cells: &mut Vec<CollisionCell>, x: i32, y: i32)
    ensures
        final(cells)@ == old(cells)@.filter(|c: CollisionCell| c.x != x || c.y != y),
{
    let ghost start = cells@;
    let mut kept: Vec<CollisionCell> = Vec::new();
    let mut k: usize = 0;
    assert(start.subrange(0, 0).filter(|c: CollisionCell| c.x != x || c.y != y) =~= kept@);
    while k < cells.len()
        invariant
            cells@ == start,
            k <= start.len(),
            kept@ == start.subrange(0, k as int).filter(|c: CollisionCell| c.x != x || c.y != y),
        decreases start.len() - k,
    {
        let c = cells[k];
        proof {
            let pre = start.subrange(0, k + 1);
            assert(pre.drop_last() =~= start.subrange(0, k as int));
            assert(pre.last() == c);
            reveal_with_fuel(Seq::filter, 1);
        }
        if c.x != x || c.y != y {
            kept.push(c);
        }
        k = k + 1;
    }
    assert(start.subrange(0, start.len() as int) =~= start);
    *cells = kept;
}

proof fn lemma_first_cell_at(cells: Seq<CollisionCell>, x: i32, y: i32, k: int)
    requires
        0 <= k <= cells.len(),
    ensures
        first_cell_at(cells, x, y, k) matches Some(i) ==> k <= i < cells.len() && cells[i].x == x && cells[i].y == y,
        first_cell_at(cells, x, y, k) is None ==> forall|j: int| k <= j < cells.len() ==> !(#[trigger] cells[j].x == x
            && cells[j].y == y),
    decreases cells.len() - k,
{
    if k < cells.len() && !(cells[k].x == x && cells[k].y == y) {
        lemma_first_cell_at(cells, x, y, k + 1);
    }
}

proof fn lemma_first_cell_is(cells: Seq<CollisionCell>, x: i32, y: i32, k: int, p: int)
    requires
        0 <= k <= p < cells.len(),
        cells[p].x == x && cells[p].y == y,
        forall|j: int| k <= j < p ==> !(#[trigger] cells[j].x == x && cells[j].y == y),
    ensures
        first_cell_at(cells, x, y, k) == Some(p),
    decreases p - k,
{
    if k < p {
        lemma_first_cell_is(cells, x, y, k + 1, p);
    }
}

/// Marking a cell solid leaves a solid cell there, and marking it again changes nothing.
pub proof fn lemma_place_collision_idempotent(cells: Seq<CollisionCell>, x: i32, y: i32)
    ensures
        exists|i: int| 0 <= i < with_solid_cell(cells, x, y).len() && #[trigger] with_solid_cell(cells, x, y)[i]
            == solid_cell(x, y),
        with_solid_cell(with_solid_cell(cells, x, y), x, y) == with_solid_cell(cells, x, y),
{
    let once = with_solid_cell(cells, x, y);
    lemma_first_cell_at(cells, x, y, 0);
    let p = match first_cell_at(cells, x, y, 0) {
        Some(i) => i,
        None => cells.len() as int,
    };
    assert(once[p] == solid_cell(x, y));
    assert forall|j: int| 0 <= j < p implies !(#[trigger] once[j].x == x && once[j].y == y) by {
        assert(once[j] == cells[j]);
        if let Some(i) = first_cell_at(cells, x, y, 0) {
            lemma_first_cell_prefix(cells, x, y, 0, i, j);
        }
    }
    lemma_first_cell_is(once, x, y, 0, p);
    assert(once.update(p, solid_cell(x, y)) =~= once);
}

proof fn lemma_first_cell_prefix(cells: Seq<CollisionCell>, x: i32, y: i32, k: int, i: int, j: int)
    requires
        0 <= k <= j < i,
        first_cell_at(cells, x, y, k) == Some(i),
    ensures
        !(cells[j].x == x && cells[j].y == y),
    decreases j - k,
{
    if k < j {
        lemma_first_cell_prefix(cells, x, y, k + 1, i, j);
    }
}

/// The entity type a newly placed entity gets from its asset id: a facility entrance
/// for gates, doors and entrances; a scan target for terminals, signals and scans;
/// otherwise a decoration.
pub open spec fn inferred_entity_type(asset: Seq<char>) -> &'static str {
    if contains_seq(asset, "gate"@) || contains_seq(asset, "door"@) || contains_seq(asset, "entrance"@) {
        "FacilityEntrance"
    } else if contains_seq(asset, "terminal"@) || contains_seq(asset, "signal"@) || contains_seq(asset, "scan"@) {
        "ScanTarget"
    } else {
        "Decoration"
    }
}

/// The entity type of a newly placed entity.
pub fn infer_entity_type(asset: &str) -> (r: &'static str)
    ensures
        r == inferred_entity_type(asset@),
{
    if contains(asset, "gate") || contains(asset, "door") || contains(asset, "entrance") {
        "FacilityEntrance"
    } else if contains(asset, "terminal") || contains(asset, "signal") || contains(asset, "scan") {
        "ScanTarget"
    } else {
        "Decoration"
    }
}

} // verus!
