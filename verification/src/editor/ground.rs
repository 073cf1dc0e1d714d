use vstd::prelude::*;

use crate::editor::canvas::tile_intersects_rect;
use crate::editor::terrain::{
    asset_family, choice_view, terrain_choice, NeighborsView, TerrainNeighborFamilies, TerrainRules,
};
use crate::editor::terrain_names::string_opt_view;
use crate::map::{clamp_int, covers, erase_ground_at, extent, place_tile_sized, placed_ground, tiles_view, TileInstance, TileView};
use crate::text::{cat5, dec, decimal};
use crate::text::str_eq;

verus! {

/// The topmost (last drawn) tile covering cell (`x`, `y`).
pub open spec fn last_cover(g: Seq<TileView>, x: int, y: int) -> Option<int>
    decreases g.len(),
{
    if g.len() == 0 {
        None
    } else if covers(g.last(), x, y) {
        Some(g.len() - 1)
    } else {
        last_cover(g.drop_last(), x, y)
    }
}

/// The first tile anchored (top-left corner) at (`x`, `y`), from index `k` on.
pub open spec fn first_anchor(g: Seq<TileView>, x: i32, y: i32, k: int) -> Option<int>
    decreases g.len() - k,
{
    if k < 0 || k >= g.len() {
        None
    } else if g[k].1 == x && g[k].2 == y {
        Some(k)
    } else {
        first_anchor(g, x, y, k + 1)
    }
}

/// A side of a tile, for sampling its neighbour.
#[derive(Clone, Copy, Debug, PartialEq, Eq, Structural)]
pub enum Side {
    North,
    East,
    South,
    West,
}

/// The cell just outside the middle of side `s` of tile `v`.
pub open spec fn side_cell(v: TileView, s: Side) -> (int, int) {
    let w = extent(v.3);
    let h = extent(v.4);
    match s {
        Side::North => (v.1 + w / 2, v.2 - 1),
        Side::East => (v.1 + w, v.2 + h / 2),
        Side::South => (v.1 + w / 2, v.2 + h),
        Side::West => (v.1 - 1, v.2 + h / 2),
    }
}

/// The terrain family of the topmost tile beyond side `s` of `v`, on a map `width` x
/// `height` cells large; none off the map, on bare ground, or for a non-terrain tile.
pub open spec fn family_at_side(m: Seq<crate::editor::terrain::EntryView>, g: Seq<TileView>, width: int, height: int, v: TileView, s: Side) -> Option<Seq<char>> {
    let (x, y) = side_cell(v, s);
    if x < 0 || y < 0 || x >= width || y >= height {
        None
    } else {
        match last_cover(g, x, y) {
            Some(i) => asset_family(m, g[i].0),
            None => None,
        }
    }
}

/// The neighbour families of tile `v`, north, east, south, west.
pub open spec fn neighbors_of(m: Seq<crate::editor::terrain::EntryView>, g: Seq<TileView>, width: int, height: int, v: TileView) -> NeighborsView {
    (
        family_at_side(m, g, width, height, v, Side::North),
        family_at_side(m, g, width, height, v, Side::East),
        family_at_side(m, g, width, height, v, Side::South),
        family_at_side(m, g, width, height, v, Side::West),
    )
}

/// The retiling of the tile anchored at (`x`, `y`): which tile, and its new asset and
/// rotation; none when there is no such tile, it is no terrain tile, nothing fits, or
/// the pick is what it already shows.
pub open spec fn anchor_update(m: Seq<crate::editor::terrain::EntryView>, g: Seq<TileView>, width: int, height: int, x: i32, y: i32) -> Option<(int, (Seq<char>, i32))> {
    match first_anchor(g, x, y, 0) {
        None => None,
        Some(i) => {
            let t = g[i];
            if asset_family(m, t.0) is None {
                None
            } else {
                match terrain_choice(m, t.0, neighbors_of(m, g, width, height, t)) {
                    None => None,
                    Some(c) => if c.0 == t.0 && c.1 == t.6 {
                        None
                    } else {
                        Some((i, c))
                    },
                }
            }
        },
    }
}

/// The ground after retiling the tile anchored at (`x`, `y`).
pub open spec fn autotiled(m: Seq<crate::editor::terrain::EntryView>, g: Seq<TileView>, width: int, height: int, x: i32, y: i32) -> Seq<TileView> {
    match anchor_update(m, g, width, height, x, y) {
        None => g,
        Some((i, c)) => g.update(i, (c.0, g[i].1, g[i].2, g[i].3, g[i].4, g[i].5, c.1)),
    }
}

/// The ground after retiling the tiles anchored at `anchors`, one after the other, and
/// how many of them changed.
pub open spec fn autotiled_all(m: Seq<crate::editor::terrain::EntryView>, g: Seq<TileView>, width: int, height: int, anchors: Seq<(i32, i32)>) -> (Seq<TileView>, nat)
    decreases anchors.len(),
{
    if anchors.len() == 0 {
        (g, 0)
    } else {
        let (g1, n1) = autotiled_all(m, g, width, height, anchors.drop_last());
        let a = anchors.last();
        (
            autotiled(m, g1, width, height, a.0, a.1),
            n1 + (if anchor_update(m, g1, width, height, a.0, a.1) is Some { 1nat } else { 0nat }),
        )
    }
}

fn first_anchor_of(tiles: &Vec<TileInstance>, x: i32, y: i32) -> (r: Option<usize>)
    ensures
        match r {
            Some(i) => first_anchor(tiles_view(tiles@), x, y, 0) == Some(i as int) && i < tiles@.len(),
            None => first_anchor(tiles_view(tiles@), x, y, 0) is None,
        },
{
    let ghost g = tiles_view(tiles@);
    let mut k: usize = 0;
    while k < tiles.len()
        invariant
            g == tiles_view(tiles@),
            g.len() == tiles@.len(),
            k <= g.len(),
            first_anchor(g, x, y, 0) == first_anchor(g, x, y, k as int),
        decreases g.len() - k,
    {
        if tiles[k].x == x && tiles[k].y == y {
            return Some(k);
        }
        k = k + 1;
    }
    None
}

fn last_cover_of(tiles: &Vec<TileInstance>, x: i64, y: i64) -> (r: Option<usize>)
    ensures
        match r {
            Some(i) => last_cover(tiles_view(tiles@), x as int, y as int) == Some(i as int) && i < tiles@.len(),
            None => last_cover(tiles_view(tiles@), x as int, y as int) is None,
        },
{
    let ghost g = tiles_view(tiles@);
    let mut k: usize = tiles.len();
    assert(g.subrange(0, g.len() as int) =~= g);
    while k > 0
        invariant
            g == tiles_view(tiles@),
            g.len() == tiles@.len(),
            k <= g.len(),
            last_cover(g, x as int, y as int) == last_cover(g.subrange(0, k as int), x as int, y as int),
        decreases k,
    {
        proof {
            assert(g.subrange(0, k as int).drop_last() =~= g.subrange(0, k - 1));
        }
        let t = &tiles[k - 1];
        let w: i64 = if t.w < 1 { 1 } else { t.w as i64 };
        let h: i64 = if t.h < 1 { 1 } else { t.h as i64 };
        if t.x as i64 <= x && x < t.x as i64 + w && t.y as i64 <= y && y < t.y as i64 + h {
            return Some(k - 1);
        }
        k = k - 1;
    }
    None
}

/// The asset of the topmost tile covering cell (`x`, `y`).
pub fn ground_asset_at_cell(tiles: &Vec<TileInstance>, x: i32, y: i32) -> (r: Option<String>)
    ensures
        string_opt_view(r) == (match last_cover(tiles_view(tiles@), x as int, y as int) {
            Some(i) => Some(tiles_view(tiles@)[i].0),
            None => None,
        }),
{
    match last_cover_of(tiles, x as i64, y as i64) {
        Some(i) => Some(tiles[i].asset.clone()),
        None => None,
    }
}

fn side_cell_of(t: &TileInstance, s: Side) -> (r: (i64, i64))
    ensures
        (r.0 as int, r.1 as int) == side_cell(
            (t.asset@, t.x, t.y, t.w, t.h, t.flip_x, t.rotation),
            s,
        ),
{
    let w: i64 = if t.w < 1 { 1 } else { t.w as i64 };
    let h: i64 = if t.h < 1 { 1 } else { t.h as i64 };
    match s {
        Side::North => (t.x as i64 + w / 2, t.y as i64 - 1),
        Side::East => (t.x as i64 + w, t.y as i64 + h / 2),
        Side::South => (t.x as i64 + w / 2, t.y as i64 + h),
        Side::West => (t.x as i64 - 1, t.y as i64 + h / 2),
    }
}

/// The terrain family beyond one side of a tile.
pub fn terrain_family_at_side(rules: &TerrainRules, tiles: &Vec<TileInstance>, width: u32, height: u32, tile: &TileInstance, side: Side) -> (r: Option<String>)
    ensures
        string_opt_view(r) == family_at_side(
            rules@,
            tiles_view(tiles@),
            width as int,
            height as int,
            (tile.asset@, tile.x, tile.y, tile.w, tile.h, tile.flip_x, tile.rotation),
            side,
        ),
{
    let (x, y) = side_cell_of(tile, side);
    if x < 0 || y < 0 || x >= width as i64 || y >= height as i64 {
        return None;
    }
    match last_cover_of(tiles, x, y) {
        Some(i) => match rules.family_for_asset(tiles[i].asset.as_str()) {
            Some(f) => Some(f.to_owned()),
            None => None,
        },
        None => None,
    }
}

/// The neighbour families of a tile.
pub fn neighbor_families_of(rules: &TerrainRules, tiles: &Vec<TileInstance>, width: u32, height: u32, tile: &TileInstance) -> (r: TerrainNeighborFamilies)
    ensures
        r@ == neighbors_of(
            rules@,
            tiles_view(tiles@),
            width as int,
            height as int,
            (tile.asset@, tile.x, tile.y, tile.w, tile.h, tile.flip_x, tile.rotation),
        ),
{
    TerrainNeighborFamilies {
        north: terrain_family_at_side(rules, tiles, width, height, tile, Side::North),
        east: terrain_family_at_side(rules, tiles, width, height, tile, Side::East),
        south: terrain_family_at_side(rules, tiles, width, height, tile, Side::South),
        west: terrain_family_at_side(rules, tiles, width, height, tile, Side::West),
    }
}

/// Retiles the tile anchored at (`x`, `y`) for its neighbours; whether it changed.
pub fn autotile_ground_at_anchor(rules: &TerrainRules, tiles: &mut Vec<TileInstance>, width: u32, height: u32, x: i32, y: i32) -> (changed: bool)
    ensures
        tiles_view(final(tiles)@) == autotiled(rules@, tiles_view(old(tiles)@), width as int, height as int, x, y),
        changed == anchor_update(rules@, tiles_view(old(tiles)@), width as int, height as int, x, y) is Some,
{
    let ghost g = tiles_view(tiles@);
    let i = match first_anchor_of(tiles, x, y) {
        Some(i) => i,
        None => {
            return false;
        },
    };
    assert(g[i as int] == (tiles@[i as int].asset@, tiles@[i as int].x, tiles@[i as int].y, tiles@[i as int].w,
        tiles@[i as int].h, tiles@[i as int].flip_x, tiles@[i as int].rotation));
    if rules.family_for_asset(tiles[i].asset.as_str()).is_none() {
        return false;
    }
    let neighbors = neighbor_families_of(rules, tiles, width, height, &tiles[i]);
    let choice = match rules.choice_for_neighbors(tiles[i].asset.as_str(), &neighbors) {
        Some(c) => c,
        None => {
            return false;
        },
    };
    if str_eq(choice.asset_id.as_str(), tiles[i].asset.as_str()) && choice.rotation == tiles[i].rotation {
        return false;
    }
    let ghost new_asset = choice.asset_id@;
    let ghost new_rotation = choice.rotation;
    let updated = TileInstance {
        asset: choice.asset_id,
        x: tiles[i].x,
        y: tiles[i].y,
        w: tiles[i].w,
        h: tiles[i].h,
        flip_x: tiles[i].flip_x,
        rotation: choice.rotation,
    };
    tiles.set(i, updated);
    assert(tiles_view(tiles@) =~= g.update(
        i as int,
        (new_asset, g[i as int].1, g[i as int].2, g[i as int].3, g[i as int].4, g[i as int].5, new_rotation),
    ));
    true
}

/// Lexicographic order of cell anchors, x first.
pub open spec fn anchor_lt(a: (i32, i32), b: (i32, i32)) -> bool {
    a.0 < b.0 || (a.0 == b.0 && a.1 < b.1)
}

/// Anchors in strictly increasing order (so without repeats).
pub open spec fn strictly_sorted(s: Seq<(i32, i32)>) -> bool {
    forall|i: int, j: int| 0 <= i < j < s.len() ==> anchor_lt(#[trigger] s[i], #[trigger] s[j])
}

/// The anchors of `anchors` without repeats, in increasing order.
pub fn sorted_unique_anchors(anchors: &Vec<(i32, i32)>) -> (r: Vec<(i32, i32)>)
    ensures
        strictly_sorted(r@),
        r@.to_set() == anchors@.to_set(),
{
    let mut r: Vec<(i32, i32)> = Vec::new();
    let mut i: usize = 0;
    while i < anchors.len()
        invariant
            i <= anchors@.len(),
            strictly_sorted(r@),
            r@.to_set() == anchors@.subrange(0, i as int).to_set(),
        decreases anchors@.len() - i,
    {
        let a = anchors[i];
        let mut j: usize = 0;
        while j < r.len() && anchor_lt_exec(r[j], a)
            invariant
                j <= r@.len(),
                forall|k: int| 0 <= k < j ==> anchor_lt(#[trigger] r@[k], a),
            decreases r@.len() - j,
        {
            j = j + 1;
        }
        proof {
            assert(anchors@.subrange(0, i + 1) =~= anchors@.subrange(0, i as int).push(a));
            anchors@.subrange(0, i as int).lemma_push_to_set_commute(a);
        }
        if j < r.len() && r[j].0 == a.0 && r[j].1 == a.1 {
            proof {
                assert(r@.to_set().contains(a)) by {
                    assert(r@.contains(a)) by {
                        assert(r@[j as int] == a);
                    }
                }
                assert(r@.to_set().insert(a) =~= r@.to_set());
            }
        } else {
            let ghost old_r = r@;
            r.insert(j, a);
            proof {
                assert forall|k: int| j <= k < old_r.len() implies anchor_lt(a, #[trigger] old_r[k]) by {
                    if k > j as int {
                        assert(anchor_lt(old_r[j as int], old_r[k]));
                    }
                }
                assert(r@ =~= old_r.subrange(0, j as int).push(a) + old_r.subrange(j as int, old_r.len() as int));
                assert forall|p: int, q: int| 0 <= p < q < r@.len() implies anchor_lt(#[trigger] r@[p], #[trigger] r@[q]) by {
                    if q < j {
                    } else if p < j && q == j {
                    } else if p < j {
                        assert(r@[q] == old_r[q - 1]);
                        assert(anchor_lt(old_r[p], old_r[q - 1]));
                    } else if p == j {
                        assert(r@[q] == old_r[q - 1]);
                    } else {
                        assert(r@[p] == old_r[p - 1]);
                        assert(r@[q] == old_r[q - 1]);
                    }
                }
                assert(r@.to_set() =~= old_r.to_set().insert(a)) by {
                    assert forall|e: (i32, i32)| r@.to_set().contains(e) <==> old_r.to_set().insert(a).contains(e) by {
                        if r@.contains(e) {
                            let k = choose|k: int| 0 <= k < r@.len() && r@[k] == e;
                            if k < j {
                                assert(old_r[k] == e);
                            } else if k > j {
                                assert(old_r[k - 1] == e);
                            }
                        }
                        if old_r.contains(e) {
                            let k = choose|k: int| 0 <= k < old_r.len() && old_r[k] == e;
                            if k < j {
                                assert(r@[k] == e);
                            } else {
                                assert(r@[k + 1] == e);
                            }
                        }
                        if e == a {
                            assert(r@[j as int] == a);
                        }
                    }
                }
            }
        }
        i = i + 1;
    }
    assert(anchors@.subrange(0, anchors@.len() as int) =~= anchors@);
    r
}

fn anchor_lt_exec(a: (i32, i32), b: (i32, i32)) -> (r: bool)
    ensures
        r == anchor_lt(a, b),
{
    a.0 < b.0 || (a.0 == b.0 && a.1 < b.1)
}

/// The order in which anchors are retiled is fixed by the set of anchors alone: two
/// strictly increasing anchor lists with the same members are the same list.
pub proof fn lemma_sorted_anchors_unique(a: Seq<(i32, i32)>, b: Seq<(i32, i32)>)
    requires
        strictly_sorted(a),
        strictly_sorted(b),
        a.to_set() == b.to_set(),
    ensures
        a == b,
    decreases a.len(),
{
    if a.len() == 0 {
        if b.len() > 0 {
            assert(b.to_set().contains(b[0]));
            assert(!a.to_set().contains(b[0]));
        }
        assert(a =~= b);
    } else {
        assert(a.to_set().contains(a[0]));
        assert(b.to_set().contains(a[0]));
        let k = choose|k: int| 0 <= k < b.len() && b[k] == a[0];
        assert(b.to_set().contains(b[0]));
        assert(a.to_set().contains(b[0]));
        let m = choose|m: int| 0 <= m < a.len() && a[m] == b[0];
        if k > 0 {
            assert(anchor_lt(b[0], b[k]));
            if m > 0 {
                assert(anchor_lt(a[0], a[m]));
            }
        }
        assert(k == 0);
        let ta = a.drop_first();
        let tb = b.drop_first();
        assert(strictly_sorted(ta)) by {
            assert forall|i: int, j: int| 0 <= i < j < ta.len() implies anchor_lt(#[trigger] ta[i], #[trigger] ta[j]) by {
                assert(ta[i] == a[i + 1] && ta[j] == a[j + 1]);
            }
        }
        assert(strictly_sorted(tb)) by {
            assert forall|i: int, j: int| 0 <= i < j < tb.len() implies anchor_lt(#[trigger] tb[i], #[trigger] tb[j]) by {
                assert(tb[i] == b[i + 1] && tb[j] == b[j + 1]);
            }
        }
        assert(ta.to_set() =~= tb.to_set()) by {
            assert forall|e: (i32, i32)| ta.to_set().contains(e) <==> tb.to_set().contains(e) by {
                if ta.contains(e) {
                    let i = choose|i: int| 0 <= i < ta.len() && ta[i] == e;
                    assert(a[i + 1] == e);
                    assert(anchor_lt(a[0], a[i + 1]));
                    assert(b.to_set().contains(e));
                    let j = choose|j: int| 0 <= j < b.len() && b[j] == e;
                    assert(j != 0);
                    assert(tb[j - 1] == e);
                }
                if tb.contains(e) {
                    let i = choose|i: int| 0 <= i < tb.len() && tb[i] == e;
                    assert(b[i + 1] == e);
                    assert(anchor_lt(b[0], b[i + 1]));
                    assert(a.to_set().contains(e));
                    let j = choose|j: int| 0 <= j < a.len() && a[j] == e;
                    assert(j != 0);
                    assert(ta[j - 1] == e);
                }
            }
        }
        lemma_sorted_anchors_unique(ta, tb);
        assert(a =~= b) by {
            assert forall|i: int| 0 <= i < a.len() implies a[i] == b[i] by {
                if i > 0 {
                    assert(a[i] == ta[i - 1]);
                    assert(b[i] == tb[i - 1]);
                }
            }
        }
    }
}

/// Retiles the tiles anchored at `anchors`, each anchor once, in increasing order; how
/// many changed.
pub fn autotile_ground_anchors(rules: &TerrainRules, tiles: &mut Vec<TileInstance>, width: u32, height: u32, anchors: &Vec<(i32, i32)>) -> (changed: usize)
    ensures
        exists|s: Seq<(i32, i32)>| #![trigger autotiled_all(rules@, tiles_view(old(tiles)@), width as int, height as int, s)]
            strictly_sorted(s) && s.to_set() == anchors@.to_set()
            && tiles_view(final(tiles)@) == autotiled_all(rules@, tiles_view(old(tiles)@), width as int, height as int, s).0
            && changed == autotiled_all(rules@, tiles_view(old(tiles)@), width as int, height as int, s).1,
{
    let order = sorted_unique_anchors(anchors);
    let ghost g0 = tiles_view(tiles@);
    let mut changed: usize = 0;
    let mut k: usize = 0;
    while k < order.len()
        invariant
            k <= order@.len(),
            g0 == tiles_view(old(tiles)@),
            changed <= k,
            tiles_view(tiles@) == autotiled_all(rules@, g0, width as int, height as int, order@.subrange(0, k as int)).0,
            changed == autotiled_all(rules@, g0, width as int, height as int, order@.subrange(0, k as int)).1,
        decreases order@.len() - k,
    {
        let (x, y) = order[k];
        proof {
            let pre = order@.subrange(0, k + 1);
            assert(pre.drop_last() =~= order@.subrange(0, k as int));
            assert(pre.last() == (x, y));
        }
        if autotile_ground_at_anchor(rules, tiles, width, height, x, y) {
            changed = changed + 1;
        }
        k = k + 1;
    }
    assert(order@.subrange(0, order@.len() as int) =~= order@);
    changed
}

/// The anchors of the tiles of `g`.
pub open spec fn anchor_set(g: Seq<TileView>) -> Set<(i32, i32)> {
    Set::new(|a: (i32, i32)| exists|i: int| 0 <= i < g.len() && (#[trigger] g[i]).1 == a.0 && g[i].2 == a.1)
}

fn all_anchors(tiles: &Vec<TileInstance>) -> (r: Vec<(i32, i32)>)
    ensures
        r@.to_set() == anchor_set(tiles_view(tiles@)),
{
    let ghost g = tiles_view(tiles@);
    let mut r: Vec<(i32, i32)> = Vec::new();
    let mut i: usize = 0;
    while i < tiles.len()
        invariant
            g == tiles_view(tiles@),
            g.len() == tiles@.len(),
            i <= g.len(),
            r@.len() == i,
            forall|j: int| 0 <= j < i ==> #[trigger] r@[j] == (g[j].1, g[j].2),
        decreases g.len() - i,
    {
        r.push((tiles[i].x, tiles[i].y));
        i = i + 1;
    }
    assert(r@.to_set() =~= anchor_set(g)) by {
        assert forall|a: (i32, i32)| r@.to_set().contains(a) <==> anchor_set(g).contains(a) by {
            if r@.contains(a) {
                let j = choose|j: int| 0 <= j < r@.len() && r@[j] == a;
                assert(g[j].1 == a.0 && g[j].2 == a.1);
            }
            if anchor_set(g).contains(a) {
                let j = choose|j: int| 0 <= j < g.len() && (#[trigger] g[j]).1 == a.0 && g[j].2 == a.1;
                assert(r@[j] == a);
            }
        }
    }
    r
}

/// Retiles every ground tile; nothing happens without terrain rules.
pub fn recalc_all_ground(rules: &TerrainRules, tiles: &mut Vec<TileInstance>, width: u32, height: u32) -> (changed: usize)
    ensures
        rules@.len() == 0 ==> changed == 0 && final(tiles)@ == old(tiles)@,
        rules@.len() > 0 ==> exists|s: Seq<(i32, i32)>| #![trigger autotiled_all(rules@, tiles_view(old(tiles)@), width as int, height as int, s)]
            strictly_sorted(s) && s.to_set() == anchor_set(tiles_view(old(tiles)@))
            && tiles_view(final(tiles)@) == autotiled_all(rules@, tiles_view(old(tiles)@), width as int, height as int, s).0
            && changed == autotiled_all(rules@, tiles_view(old(tiles)@), width as int, height as int, s).1,
{
    if rules.is_empty() {
        return 0;
    }
    let anchors = all_anchors(tiles);
    autotile_ground_anchors(rules, tiles, width, height, &anchors)
}

/// The rectangle, maximum exclusive, that retiling after an edit of the `w` x `h` cells
/// at (`x`, `y`) looks at: one cell more on every side, cut at the map's far edges.
pub open spec fn near_rect(x: i32, y: i32, w: i32, h: i32, width: int, height: int) -> (int, int, int, int) {
    let min_x = if x == i32::MIN { x as int } else { x - 1 };
    let min_y = if y == i32::MIN { y as int } else { y - 1 };
    let far_x = x + extent(w) + 1;
    let far_y = y + extent(h) + 1;
    (min_x, min_y, if far_x < width { far_x } else { width }, if far_y < height { far_y } else { height })
}

/// The anchors of the tiles of `g` that overlap the rectangle.
pub open spec fn anchors_in_rect(g: Seq<TileView>, r: (int, int, int, int)) -> Set<(i32, i32)> {
    Set::new(|a: (i32, i32)| exists|i: int| 0 <= i < g.len() && (#[trigger] g[i]).1 == a.0 && g[i].2 == a.1
        && g[i].1 < r.2 && g[i].1 + extent(g[i].3) > r.0 && g[i].2 < r.3 && g[i].2 + extent(g[i].4) > r.1)
}

/// Retiles the tiles around an edited `w` x `h` area at (`x`, `y`); nothing happens
/// without terrain rules.
pub fn autotile_ground_near_rect(rules: &TerrainRules, tiles: &mut Vec<TileInstance>, width: u32, height: u32, x: i32, y: i32, w: i32, h: i32) -> (changed: usize)
    requires
        width <= i32::MAX,
        height <= i32::MAX,
        x + extent(w) + 1 <= i32::MAX,
        y + extent(h) + 1 <= i32::MAX,
    ensures
        rules@.len() == 0 ==> changed == 0 && final(tiles)@ == old(tiles)@,
        rules@.len() > 0 ==> exists|s: Seq<(i32, i32)>| #![trigger autotiled_all(rules@, tiles_view(old(tiles)@), width as int, height as int, s)]
            strictly_sorted(s) && s.to_set() == anchors_in_rect(tiles_view(old(tiles)@), near_rect(x, y, w, h, width as int, height as int))
            && tiles_view(final(tiles)@) == autotiled_all(rules@, tiles_view(old(tiles)@), width as int, height as int, s).0
            && changed == autotiled_all(rules@, tiles_view(old(tiles)@), width as int, height as int, s).1,
{
    if rules.is_empty() {
        return 0;
    }
    let min_x: i32 = if x == i32::MIN { x } else { x - 1 };
    let min_y: i32 = if y == i32::MIN { y } else { y - 1 };
    let ew: i32 = if w < 1 { 1 } else { w };
    let eh: i32 = if h < 1 { 1 } else { h };
    let max_x: i32 = if x + ew + 1 < width as i32 { x + ew + 1 } else { width as i32 };
    let max_y: i32 = if y + eh + 1 < height as i32 { y + eh + 1 } else { height as i32 };
    let ghost g = tiles_view(tiles@);
    let ghost rect = near_rect(x, y, w, h, width as int, height as int);
    assert(rect == (min_x as int, min_y as int, max_x as int, max_y as int));
    let mut anchors: Vec<(i32, i32)> = Vec::new();
    let mut i: usize = 0;
    while i < tiles.len()
        invariant
            g == tiles_view(tiles@),
            g.len() == tiles@.len(),
            i <= g.len(),
            rect == (min_x as int, min_y as int, max_x as int, max_y as int),
            forall|a: (i32, i32)| anchors@.contains(a) <==> exists|j: int| 0 <= j < i && (#[trigger] g[j]).1 == a.0
                && g[j].2 == a.1 && g[j].1 < rect.2 && g[j].1 + extent(g[j].3) > rect.0 && g[j].2 < rect.3 && g[j].2
                + extent(g[j].4) > rect.1,
        decreases g.len() - i,
    {
        let hit = tile_intersects_rect(&tiles[i], min_x, min_y, max_x, max_y);
        let ghost before = anchors@;
        if hit {
            anchors.push((tiles[i].x, tiles[i].y));
        }
        proof {
            assert forall|a: (i32, i32)| anchors@.contains(a) <==> exists|j: int| 0 <= j < i + 1 && (#[trigger] g[j]).1
                == a.0 && g[j].2 == a.1 && g[j].1 < rect.2 && g[j].1 + extent(g[j].3) > rect.0 && g[j].2 < rect.3 && g[j].2
                + extent(g[j].4) > rect.1 by {
                if hit {
                    if anchors@.contains(a) {
                        let k = choose|k: int| 0 <= k < anchors@.len() && anchors@[k] == a;
                        if k < before.len() {
                            assert(before[k] == a);
                            assert(before.contains(a));
                        }
                    }
                    if a == (g[i as int].1, g[i as int].2) {
                        assert(anchors@[before.len() as int] == a);
                    }
                    if before.contains(a) {
                        let k = choose|k: int| 0 <= k < before.len() && before[k] == a;
                        assert(anchors@[k] == a);
                    }
                }
            }
        }
        i = i + 1;
    }
    assert(anchors@.to_set() =~= anchors_in_rect(g, rect));
    autotile_ground_anchors(rules, tiles, width, height, &anchors)
}

/// Whether tile `v` overlaps the cell rectangle `r` = (min x, min y, max x, max y), maxima
/// exclusive.
pub open spec fn overlaps(v: TileView, r: (int, int, int, int)) -> bool {
    v.1 < r.2 && v.1 + extent(v.3) > r.0 && v.2 < r.3 && v.2 + extent(v.4) > r.1
}

fn copy_tile(t: &TileInstance) -> (r: TileInstance)
    ensures
        r@ == t@,
{
    TileInstance { asset: t.asset.clone(), x: t.x, y: t.y, w: t.w, h: t.h, flip_x: t.flip_x, rotation: t.rotation }
}

/// Removes every tile that overlaps the rectangle, keeping the others in order.
pub fn erase_ground_rect(tiles: &mut Vec<TileInstance>, min_x: i32, min_y: i32, max_x: i32, max_y: i32)
    ensures
        tiles_view(final(tiles)@) == tiles_view(old(tiles)@).filter(
            |v: TileView| !overlaps(v, (min_x as int, min_y as int, max_x as int, max_y as int)),
        ),
{
    let ghost start = tiles_view(tiles@);
    let ghost r = (min_x as int, min_y as int, max_x as int, max_y as int);
    let mut kept: Vec<TileInstance> = Vec::new();
    let mut k: usize = 0;
    assert(start.subrange(0, 0).filter(|v: TileView| !overlaps(v, r)) =~= tiles_view(kept@));
    while k < tiles.len()
        invariant
            start == tiles_view(tiles@),
            start.len() == tiles@.len(),
            r == (min_x as int, min_y as int, max_x as int, max_y as int),
            k <= start.len(),
            tiles_view(kept@) == start.subrange(0, k as int).filter(|v: TileView| !overlaps(v, r)),
        decreases start.len() - k,
    {
        proof {
            let pre = start.subrange(0, k + 1);
            assert(pre.drop_last() =~= start.subrange(0, k as int));
            assert(pre.last() == tiles@[k as int]@);
            reveal_with_fuel(Seq::filter, 1);
        }
        if !tile_intersects_rect(&tiles[k], min_x, min_y, max_x, max_y) {
            let ghost kv = tiles_view(kept@);
            kept.push(copy_tile(&tiles[k]));
            assert(tiles_view(kept@) =~= kv.push(tiles@[k as int]@));
        }
        k = k + 1;
    }
    assert(start.subrange(0, k as int) =~= start);
    *tiles = kept;
}

/// A brush extent along one axis: the footprint clamped to at least one cell and to
/// what fits before the map's far edge (at least one cell).
pub open spec fn brush_extent(f: i32, size: int, at: int) -> i32 {
    clamp_int(f as int, 1, if size - at < 1 { 1 } else { size - at }) as i32
}

/// Paints a ground tile of `asset_id` at (`x`, `y`) with the given footprint: every tile
/// under the clamped footprint is removed, then the tile is placed.
pub fn paint_ground_brush(tiles: &mut Vec<TileInstance>, width: u32, height: u32, x: i32, y: i32, asset_id: &str, footprint: [i32; 2])
    requires
        width <= i32::MAX,
        height <= i32::MAX,
        x < i32::MAX,
        y < i32::MAX,
        i32::MIN <= width - x <= i32::MAX,
        i32::MIN <= height - y <= i32::MAX,
    ensures
        tiles_view(final(tiles)@) == placed_ground(
            tiles_view(old(tiles)@).filter(
                |v: TileView| !overlaps(
                    v,
                    (
                        x as int,
                        y as int,
                        x + brush_extent(footprint[0], width as int, x as int),
                        y + brush_extent(footprint[1], height as int, y as int),
                    ),
                ),
            ),
            asset_id@,
            x,
            y,
            brush_extent(footprint[0], width as int, x as int),
            brush_extent(footprint[1], height as int, y as int),
        ),
{
    let max_w: i32 = if (width as i32) - x < 1 { 1 } else { (width as i32) - x };
    let max_h: i32 = if (height as i32) - y < 1 { 1 } else { (height as i32) - y };
    let cw: i32 = if footprint[0] < 1 { 1 } else if footprint[0] > max_w { max_w } else { footprint[0] };
    let ch: i32 = if footprint[1] < 1 { 1 } else if footprint[1] > max_h { max_h } else { footprint[1] };
    assert(cw == brush_extent(footprint[0], width as int, x as int));
    assert(ch == brush_extent(footprint[1], height as int, y as int));
    erase_ground_rect(tiles, x, y, x + cw, y + ch);
    place_tile_sized(tiles, width, height, asset_id, x, y, cw, ch);
}

/// One cell of a rectangle fill: erase what covers the cell, or paint the brush there.
pub open spec fn rect_step(g: Seq<TileView>, x: i32, y: i32, erase: bool, asset: Seq<char>, footprint: [i32; 2], width: int, height: int) -> Seq<TileView> {
    if erase {
        g.filter(|v: TileView| !covers(v, x as int, y as int))
    } else {
        let bw = brush_extent(footprint[0], width, x as int);
        let bh = brush_extent(footprint[1], height, y as int);
        placed_ground(
            g.filter(|v: TileView| !overlaps(v, (x as int, y as int, x + bw, y + bh))),
            asset,
            x,
            y,
            bw,
            bh,
        )
    }
}

/// The fill of one row: cells `x`, `x + sx`, ... up to `max_x`.
pub open spec fn rect_row(g: Seq<TileView>, x: int, y: i32, max_x: int, sx: int, erase: bool, asset: Seq<char>, footprint: [i32; 2], width: int, height: int) -> Seq<TileView>
    decreases max_x + sx - x,
{
    if sx < 1 || x > max_x {
        g
    } else {
        rect_row(rect_step(g, x as i32, y, erase, asset, footprint, width, height), x + sx, y, max_x, sx, erase, asset, footprint, width, height)
    }
}

/// The fill of rows `y`, `y + sy`, ... up to `max_y`, each from `min_x`.
pub open spec fn rect_rows(g: Seq<TileView>, y: int, max_y: int, sy: int, min_x: int, max_x: int, sx: int, erase: bool, asset: Seq<char>, footprint: [i32; 2], width: int, height: int) -> Seq<TileView>
    decreases max_y + sy - y,
{
    if sy < 1 || y > max_y {
        g
    } else {
        rect_rows(
            rect_row(g, min_x, y as i32, max_x, sx, erase, asset, footprint, width, height),
            y + sy,
            max_y,
            sy,
            min_x,
            max_x,
            sx,
            erase,
            asset,
            footprint,
            width,
            height,
        )
    }
}

pub open spec fn clamp_cell(v: int, size: int) -> int {
    clamp_int(v, 0, size - 1)
}

/// The cells of a dragged rectangle, clamped to the map: (min x, min y, max x, max y),
/// maxima inclusive.
pub open spec fn dragged_rect(start: [i32; 2], end: [i32; 2], width: int, height: int) -> (int, int, int, int) {
    (
        clamp_cell(if start[0] <= end[0] { start[0] as int } else { end[0] as int }, width),
        clamp_cell(if start[1] <= end[1] { start[1] as int } else { end[1] as int }, height),
        clamp_cell(if start[0] >= end[0] { start[0] as int } else { end[0] as int }, width),
        clamp_cell(if start[1] >= end[1] { start[1] as int } else { end[1] as int }, height),
    )
}

/// The status line after a rectangle on the ground layer: erased or filled, and its size.
pub open spec fn rect_status(erase: bool, w: int, h: int) -> Seq<char> {
    "矩形"@ + (if erase { "擦除"@ } else { "填充"@ }) + ": "@ + dec(w as nat) + "x"@ + dec(h as nat)
}

/// The status line when a fill has no ground asset to paint with.
pub open spec fn no_asset_status() -> Seq<char> {
    "矩形填充需要先选择地表素材"@
}

/// A step along one axis: at least one cell.
pub open spec fn step_of(v: i32) -> int {
    if v < 1 {
        1
    } else {
        v as int
    }
}

pub open spec fn opt_text(o: Option<&str>) -> Seq<char> {
    match o {
        Some(a) => a@,
        None => Seq::empty(),
    }
}

pub open spec fn rules_view(o: Option<&TerrainRules>) -> Option<Seq<crate::editor::terrain::EntryView>> {
    match o {
        Some(r) => Some(r@),
        None => None,
    }
}

/// The ground after filling (or clearing) the dragged rectangle, before any retiling.
pub open spec fn rectangle_painted(g: Seq<TileView>, width: int, height: int, start: [i32; 2], end: [i32; 2], erase: bool, asset: Seq<char>, step: [i32; 2], footprint: [i32; 2]) -> Seq<TileView> {
    let r = dragged_rect(start, end, width, height);
    rect_rows(g, r.1, r.3, step_of(step[1]), r.0, r.2, step_of(step[0]), erase, asset, footprint, width, height)
}

/// The area retiling looks at after a dragged rectangle.
pub open spec fn rectangle_near(width: int, height: int, start: [i32; 2], end: [i32; 2]) -> (int, int, int, int) {
    let r = dragged_rect(start, end, width, height);
    near_rect(r.0 as i32, r.1 as i32, (r.2 - r.0 + 1) as i32, (r.3 - r.1 + 1) as i32, width, height)
}

/// What a rectangle fill leaves: the status line, and the ground filled and then, when
/// non-empty terrain rules are given, retiled around the rectangle in anchor order.
pub open spec fn rectangle_done(
    before: Seq<TileView>,
    after: Seq<TileView>,
    status: Seq<char>,
    width: int,
    height: int,
    start: [i32; 2],
    end: [i32; 2],
    erase: bool,
    asset: Seq<char>,
    step: [i32; 2],
    footprint: [i32; 2],
    rules: Option<Seq<crate::editor::terrain::EntryView>>,
) -> bool {
    let r = dragged_rect(start, end, width, height);
    let painted = rectangle_painted(before, width, height, start, end, erase, asset, step, footprint);
    &&& status == rect_status(erase, r.2 - r.0 + 1, r.3 - r.1 + 1)
    &&& match rules {
        Some(m) => if m.len() == 0 {
            after == painted
        } else {
            exists|s: Seq<(i32, i32)>| #![trigger autotiled_all(m, painted, width, height, s)]
                strictly_sorted(s) && s.to_set() == anchors_in_rect(painted, rectangle_near(width, height, start, end))
                && after == autotiled_all(m, painted, width, height, s).0
        },
        None => after == painted,
    }
}

fn rect_row_exec(tiles: &mut Vec<TileInstance>, width: u32, height: u32, min_x: i32, max_x: i32, sx: i32, y: i32, erase: bool, asset: &str, footprint: [i32; 2])
    requires
        1 <= width <= i32::MAX,
        1 <= height <= i32::MAX,
        0 <= min_x <= max_x < width,
        0 <= y < height,
        sx >= 1,
    ensures
        tiles_view(final(tiles)@) == rect_row(
            tiles_view(old(tiles)@),
            min_x as int,
            y,
            max_x as int,
            sx as int,
            erase,
            asset@,
            footprint,
            width as int,
            height as int,
        ),
{
    let mut x: i64 = min_x as i64;
    while x <= max_x as i64
        invariant
            1 <= width <= i32::MAX,
            1 <= height <= i32::MAX,
            0 <= min_x <= x,
            x <= max_x + sx,
            max_x < width,
            0 <= y < height,
            sx >= 1,
            rect_row(tiles_view(old(tiles)@), min_x as int, y, max_x as int, sx as int, erase, asset@, footprint, width as int, height as int)
                == rect_row(tiles_view(tiles@), x as int, y, max_x as int, sx as int, erase, asset@, footprint, width as int, height as int),
        decreases max_x + sx - x,
    {
        let cx = x as i32;
        if erase {
            erase_ground_at(tiles, cx, y);
        } else {
            paint_ground_brush(tiles, width, height, cx, y, asset, footprint);
        }
        x = x + sx as i64;
    }
}

fn fill_rect_rows(tiles: &mut Vec<TileInstance>, width: u32, height: u32, min_x: i32, min_y: i32, max_x: i32, max_y: i32, sx: i32, sy: i32, erase: bool, asset: &str, footprint: [i32; 2])
    requires
        1 <= width < i32::MAX,
        1 <= height < i32::MAX,
        0 <= min_x <= max_x < width,
        0 <= min_y <= max_y < height,
        sx >= 1,
        sy >= 1,
    ensures
        tiles_view(final(tiles)@) == rect_rows(tiles_view(old(tiles)@), min_y as int, max_y as int, sy as int, min_x as int, max_x as int, sx as int, erase, asset@, footprint, width as int, height as int),
{
    let mut y: i64 = min_y as i64;
    while y <= max_y as i64
        invariant
            1 <= width < i32::MAX,
            1 <= height < i32::MAX,
            0 <= min_x <= max_x < width,
            0 <= min_y <= y,
            y <= max_y + sy,
            max_y < height,
            sx >= 1,
            sy >= 1,
            rect_rows(tiles_view(old(tiles)@), min_y as int, max_y as int, sy as int, min_x as int, max_x as int, sx as int, erase, asset@, footprint, width as int, height as int)
                == rect_rows(tiles_view(tiles@), y as int, max_y as int, sy as int, min_x as int, max_x as int, sx as int, erase, asset@, footprint, width as int, height as int),
        decreases max_y + sy - y,
    {
        rect_row_exec(tiles, width, height, min_x, max_x, sx, y as i32, erase, asset, footprint);
        y = y + sy as i64;
    }
}

fn drag_bounds(start: [i32; 2], end: [i32; 2], width: u32, height: u32) -> (r: (i32, i32, i32, i32))
    requires
        1 <= width < i32::MAX,
        1 <= height < i32::MAX,
    ensures
        (r.0 as int, r.1 as int, r.2 as int, r.3 as int) == dragged_rect(start, end, width as int, height as int),
        0 <= r.0 <= r.2 < width,
        0 <= r.1 <= r.3 < height,
{
    let w = width as i32;
    let h = height as i32;
    let lo_x = if start[0] <= end[0] { start[0] } else { end[0] };
    let lo_y = if start[1] <= end[1] { start[1] } else { end[1] };
    let hi_x = if start[0] >= end[0] { start[0] } else { end[0] };
    let hi_y = if start[1] >= end[1] { start[1] } else { end[1] };
    let min_x = if lo_x < 0 { 0 } else if lo_x > w - 1 { w - 1 } else { lo_x };
    let min_y = if lo_y < 0 { 0 } else if lo_y > h - 1 { h - 1 } else { lo_y };
    let max_x = if hi_x < 0 { 0 } else if hi_x > w - 1 { w - 1 } else { hi_x };
    let max_y = if hi_y < 0 { 0 } else if hi_y > h - 1 { h - 1 } else { hi_y };
    (min_x, min_y, max_x, max_y)
}

fn rectangle_status(erase: bool, w: i32, h: i32) -> (r: String)
    requires
        w >= 1,
        h >= 1,
    ensures
        r@ == rect_status(erase, w as int, h as int),
{
    let cw = decimal(w as u64);
    let ch = decimal(h as u64);
    let verb = if erase { "擦除" } else { "填充" };
    let mut r = cat5("矩形", verb, ": ", cw.as_str(), "x");
    r.append(ch.as_str());
    r
}

/// Fills (or, erasing, clears) the ground under a dragged rectangle, cell by cell with
/// the asset's footprint as step, then retiles around it when `rules` are given; the
/// status line it reports.
#[verifier::rlimit(60)]
pub fn apply_ground_rectangle(
    tiles: &mut Vec<TileInstance>,
    width: u32,
    height: u32,
    start: [i32; 2],
    end: [i32; 2],
    erase: bool,
    asset_id: Option<&str>,
    step: [i32; 2],
    footprint: [i32; 2],
    rules: Option<&TerrainRules>,
) -> (status: String)
    requires
        1 <= width < i32::MAX,
        1 <= height < i32::MAX,
    ensures
        !erase && asset_id is None ==> final(tiles)@ == old(tiles)@ && status@ == no_asset_status(),
        erase || asset_id is Some ==> rectangle_done(
            tiles_view(old(tiles)@),
            tiles_view(final(tiles)@),
            status@,
            width as int,
            height as int,
            start,
            end,
            erase,
            opt_text(asset_id),
            step,
            footprint,
            rules_view(rules),
        ),
{
    let (min_x, min_y, max_x, max_y) = drag_bounds(start, end, width, height);
    let ghost r = dragged_rect(start, end, width as int, height as int);
    let asset: &str = match asset_id {
        Some(a) => a,
        None => {
            if !erase {
                return "矩形填充需要先选择地表素材".to_owned();
            }
            proof {
                reveal_strlit("");
            }
            ""
        },
    };
    let sx: i32 = if step[0] < 1 { 1 } else { step[0] };
    let sy: i32 = if step[1] < 1 { 1 } else { step[1] };
    fill_rect_rows(tiles, width, height, min_x, min_y, max_x, max_y, sx, sy, erase, asset, footprint);
    let ghost painted = tiles_view(tiles@);
    assert(asset@ == opt_text(asset_id));
    assert(sx as int == step_of(step[0]) && sy as int == step_of(step[1]));
    assert(painted == rectangle_painted(tiles_view(old(tiles)@), width as int, height as int, start, end, erase, opt_text(asset_id), step, footprint));
    assert(rectangle_near(width as int, height as int, start, end) == near_rect(min_x, min_y, (max_x - min_x + 1) as i32, (max_y - min_y + 1) as i32, width as int, height as int));
    match rules {
        Some(rs) => {
            autotile_ground_near_rect(rs, tiles, width, height, min_x, min_y, max_x - min_x + 1, max_y - min_y + 1);
        },
        None => {},
    }
    let status = rectangle_status(erase, max_x - min_x + 1, max_y - min_y + 1);
    status
}

} // verus!
