use vstd::prelude::*;

use crate::editor::ground::{erase_ground_rect, overlaps};
use crate::map::{clamp_int, extent, first_tile_at, place_tile_sized, placed_ground, tiles_view, TileInstance, TileView};
use crate::text::{cat3, cat4, dec, decimal, signed_dec, signed_decimal};

verus! {

/// Whether the tile's anchor lies in the cell rectangle, maxima included.
pub open spec fn anchored_in(v: TileView, min_x: int, min_y: int, max_x: int, max_y: int) -> bool {
    min_x <= v.1 <= max_x && min_y <= v.2 <= max_y
}

/// The tile moved by (`dx`, `dy`) cells.
pub open spec fn shifted(v: TileView, dx: int, dy: int) -> TileView {
    (v.0, (v.1 + dx) as i32, (v.2 + dy) as i32, v.3, v.4, v.5, v.6)
}

/// The ground tiles a stamp takes from a rectangle: those anchored inside it, in layer order,
/// moved so that the rectangle's corner becomes the origin.
pub open spec fn captured_ground(g: Seq<TileView>, min_x: int, min_y: int, max_x: int, max_y: int) -> Seq<TileView> {
    g.filter(|v: TileView| anchored_in(v, min_x, min_y, max_x, max_y)).map_values(|v: TileView| shifted(v, -min_x, -min_y))
}

/// The ground part of a stamp: its size in cells and its tiles, relative to its corner.
pub struct GroundStamp {
    pub width: i32,
    pub height: i32,
    pub tiles: Vec<TileInstance>,
}

/// Takes the ground tiles anchored in the rectangle (`min_x`, `min_y`)..=(`max_x`, `max_y`)
/// as a stamp; a hidden ground layer gives none.
pub fn capture_ground_stamp(
    tiles: &Vec<TileInstance>,
    ground_visible: bool,
    min_x: i32,
    min_y: i32,
    max_x: i32,
    max_y: i32,
) -> (r: GroundStamp)
    requires
        0 <= max_x - min_x < i32::MAX,
        0 <= max_y - min_y < i32::MAX,
    ensures
        r.width == max_x - min_x + 1,
        r.height == max_y - min_y + 1,
        ground_visible ==> tiles_view(r.tiles@) == captured_ground(
            tiles_view(tiles@),
            min_x as int,
            min_y as int,
            max_x as int,
            max_y as int,
        ),
        !ground_visible ==> r.tiles@.len() == 0,
{
    let mut out: Vec<TileInstance> = Vec::new();
    if ground_visible {
        let ghost start = tiles_view(tiles@);
        let ghost inside = |v: TileView| anchored_in(v, min_x as int, min_y as int, max_x as int, max_y as int);
        let ghost moved = |v: TileView| shifted(v, -min_x, -min_y);
        assert(start.subrange(0, 0).filter(inside).map_values(moved) =~= tiles_view(out@));
        let mut k: usize = 0;
        while k < tiles.len()
            invariant
                start == tiles_view(tiles@),
                start.len() == tiles@.len(),
                k <= start.len(),
                0 <= max_x - min_x < i32::MAX,
                0 <= max_y - min_y < i32::MAX,
                inside == (|v: TileView| anchored_in(v, min_x as int, min_y as int, max_x as int, max_y as int)),
                moved == (|v: TileView| shifted(v, -min_x, -min_y)),
                tiles_view(out@) == start.subrange(0, k as int).filter(inside).map_values(moved),
            decreases start.len() - k,
        {
            let t = &tiles[k];
            proof {
                let pre = start.subrange(0, k + 1);
                assert(pre.drop_last() =~= start.subrange(0, k as int));
                assert(pre.last() == t@);
                reveal_with_fuel(Seq::filter, 1);
            }
            if t.x >= min_x && t.x <= max_x && t.y >= min_y && t.y <= max_y {
                let ghost before = start.subrange(0, k as int).filter(inside);
                let ghost ov = tiles_view(out@);
                let moved_tile = TileInstance {
                    asset: t.asset.clone(),
                    x: t.x - min_x,
                    y: t.y - min_y,
                    w: t.w,
                    h: t.h,
                    flip_x: t.flip_x,
                    rotation: t.rotation,
                };
                out.push(moved_tile);
                assert(start.subrange(0, k + 1).filter(inside) =~= before.push(t@));
                assert(before.push(t@).map_values(moved) =~= before.map_values(moved).push(moved(t@)));
                assert(tiles_view(out@) =~= ov.push(moved_tile@));
            }
            k = k + 1;
        }
        assert(start.subrange(0, k as int) =~= start);
    }
    GroundStamp { width: max_x - min_x + 1, height: max_y - min_y + 1, tiles: out }
}

/// The status line after capturing a stamp of `count` items from a `width` x `height`
/// rectangle.
pub open spec fn capture_status(width: int, height: int, count: nat) -> Seq<char> {
    if count == 0 {
        "框选区域里没有可盖章对象"@
    } else {
        "已生成 Stamp："@ + signed_dec(width) + "x"@ + signed_dec(height) + "，"@ + dec(count) + " 个对象"@
    }
}

/// The status line after capturing a stamp.
pub fn stamp_capture_status(width: i32, height: i32, count: usize) -> (r: String)
    ensures
        r@ == capture_status(width as int, height as int, count as nat),
{
    if count == 0 {
        return "框选区域里没有可盖章对象".to_owned();
    }
    let w = signed_decimal(width as i64);
    let h = signed_decimal(height as i64);
    let n = decimal(count as u64);
    let mut r = cat4("已生成 Stamp：", w.as_str(), "x", h.as_str());
    let tail = cat3("，", n.as_str(), " 个对象");
    r.append(tail.as_str());
    r
}

/// Whether a (moved) stamp tile's anchor falls on a `width` x `height` map.
pub open spec fn lands_on_map(t: TileView, width: int, height: int) -> bool {
    0 <= t.1 < width && 0 <= t.2 < height
}

/// A pasted extent: at least one cell, and no more than the `room` left before the map edge.
pub open spec fn paste_extent(v: i32, room: int) -> int {
    if extent(v) < room {
        extent(v)
    } else {
        room
    }
}

/// The ground layer after pasting stamp tile `t`, already at its target cell: every tile
/// overlapping its clamped rectangle is removed and the tile is appended with its asset,
/// mirroring and rotation.
pub open spec fn stamped_ground(g: Seq<TileView>, t: TileView, width: int, height: int) -> Seq<TileView> {
    let w = paste_extent(t.3, width - t.1);
    let h = paste_extent(t.4, height - t.2);
    g.filter(|v: TileView| !overlaps(v, (t.1 as int, t.2 as int, t.1 + w, t.2 + h))).push(
        (t.0, t.1, t.2, w as i32, h as i32, t.5, t.6),
    )
}

proof fn lemma_no_anchor_in_cleared(e: Seq<TileView>, x: i32, y: i32, r: (int, int, int, int))
    requires
        forall|i: int| 0 <= i < e.len() ==> !overlaps(#[trigger] e[i], r),
        r.0 <= x < r.2,
        r.1 <= y < r.3,
    ensures
        first_tile_at(e, x, y) is None,
    decreases e.len(),
{
    if e.len() > 0 {
        assert(!overlaps(e[0], r));
        assert forall|i: int| 0 <= i < e.drop_first().len() implies !overlaps(#[trigger] e.drop_first()[i], r) by {
            assert(e.drop_first()[i] == e[i + 1]);
        }
        lemma_no_anchor_in_cleared(e.drop_first(), x, y, r);
    }
}

/// Pastes one stamp ground tile moved by (`dx`, `dy`) on a `width` x `height` map: it is
/// skipped when its anchor falls off the map; otherwise whatever its rectangle (clamped to
/// the map) overlaps is cleared and the tile is placed there with the stamp's mirroring and
/// rotation. Returns whether it was placed.
pub fn paste_stamp_ground_tile(
    tiles: &mut Vec<TileInstance>,
    width: u32,
    height: u32,
    tile: &TileInstance,
    dx: i32,
    dy: i32,
) -> (placed: bool)
    requires
        width <= i32::MAX,
        height <= i32::MAX,
        i32::MIN <= tile.x + dx <= i32::MAX,
        i32::MIN <= tile.y + dy <= i32::MAX,
    ensures
        placed == lands_on_map(shifted(tile@, dx as int, dy as int), width as int, height as int),
        placed ==> tiles_view(final(tiles)@) == stamped_ground(
            tiles_view(old(tiles)@),
            shifted(tile@, dx as int, dy as int),
            width as int,
            height as int,
        ),
        !placed ==> final(tiles)@ == old(tiles)@,
{
    let x = tile.x + dx;
    let y = tile.y + dy;
    if x < 0 || y < 0 || x >= width as i32 || y >= height as i32 {
        return false;
    }
    let ghost t = shifted(tile@, dx as int, dy as int);
    let w0: i32 = if tile.w < 1 { 1 } else { tile.w };
    let h0: i32 = if tile.h < 1 { 1 } else { tile.h };
    let room_w: i32 = width as i32 - x;
    let room_h: i32 = height as i32 - y;
    let w: i32 = if w0 < room_w { w0 } else { room_w };
    let h: i32 = if h0 < room_h { h0 } else { room_h };
    assert(w == paste_extent(t.3, width - t.1));
    assert(h == paste_extent(t.4, height - t.2));
    let ghost rect = (x as int, y as int, x + w, y + h);
    erase_ground_rect(tiles, x, y, x + w, y + h);
    let ghost cleared = tiles_view(tiles@);
    proof {
        assert forall|i: int| 0 <= i < cleared.len() implies !overlaps(#[trigger] cleared[i], rect) by {
            tiles_view(old(tiles)@).lemma_filter_pred(|v: TileView| !overlaps(v, rect), i);
        }
        lemma_no_anchor_in_cleared(cleared, x, y, rect);
        assert(clamp_int(w as int, 1, if width - x < 1 { 1 } else { width - x }) == w);
        assert(clamp_int(h as int, 1, if height - y < 1 { 1 } else { height - y }) == h);
    }
    place_tile_sized(tiles, width, height, tile.asset.as_str(), x, y, w, h);
    assert(tiles_view(tiles@) == placed_ground(cleared, tile.asset@, x, y, w, h));
    // The placed tile is the one just appended: nothing anchored at (x, y) survived the clearing.
    assert(tiles_view(tiles@) == cleared.push((tile.asset@, x, y, w, h, false, 0i32)));
    assert(tiles@.len() == cleared.len() + 1);
    let ghost before_set = tiles@;
    let last = tiles.len() - 1;
    let placed_tile = TileInstance {
        asset: tile.asset.clone(),
        x,
        y,
        w,
        h,
        flip_x: tile.flip_x,
        rotation: tile.rotation,
    };
    tiles.set(last, placed_tile);
    assert forall|i: int| 0 <= i < cleared.len() implies tiles_view(tiles@)[i] == cleared[i] by {
        assert(tiles@[i] == before_set[i]);
        assert(tiles_view(before_set)[i] == cleared[i]);
    }
    assert(tiles_view(tiles@) =~= cleared.push(placed_tile@));
    true
}

/// The ground layer and the placed and skipped counts after pasting the stamp's ground
/// tiles, in order, moved by (`dx`, `dy`).
pub open spec fn pasted_ground(g: Seq<TileView>, stamp: Seq<TileView>, dx: int, dy: int, width: int, height: int) -> (Seq<TileView>, nat, nat)
    decreases stamp.len(),
{
    if stamp.len() == 0 {
        (g, 0, 0)
    } else {
        let prev = pasted_ground(g, stamp.drop_last(), dx, dy, width, height);
        let t = shifted(stamp.last(), dx, dy);
        if lands_on_map(t, width, height) {
            (stamped_ground(prev.0, t, width, height), prev.1 + 1, prev.2)
        } else {
            (prev.0, prev.1, prev.2 + 1)
        }
    }
}

/// Pastes the stamp's ground tiles at offset (`dx`, `dy`), in order; with the ground layer
/// locked every one of them is skipped. Returns how many were placed and how many skipped.
pub fn paste_ground_stamp(
    tiles: &mut Vec<TileInstance>,
    width: u32,
    height: u32,
    stamp: &Vec<TileInstance>,
    dx: i32,
    dy: i32,
    ground_locked: bool,
) -> (r: (usize, usize))
    requires
        width <= i32::MAX,
        height <= i32::MAX,
        forall|i: int|
            0 <= i < stamp@.len() ==> i32::MIN <= #[trigger] stamp@[i].x + dx <= i32::MAX && i32::MIN
                <= stamp@[i].y + dy <= i32::MAX,
    ensures
        ground_locked ==> final(tiles)@ == old(tiles)@ && r.0 == 0 && r.1 == stamp@.len(),
        !ground_locked ==> {
            let p = pasted_ground(tiles_view(old(tiles)@), tiles_view(stamp@), dx as int, dy as int, width as int, height as int);
            &&& tiles_view(final(tiles)@) == p.0
            &&& r.0 == p.1
            &&& r.1 == p.2
        },
{
    if ground_locked {
        return (0, stamp.len());
    }
    let ghost g0 = tiles_view(tiles@);
    let ghost sv = tiles_view(stamp@);
    let mut placed: usize = 0;
    let mut skipped: usize = 0;
    let mut k: usize = 0;
    assert(sv.subrange(0, 0).len() == 0);
    while k < stamp.len()
        invariant
            width <= i32::MAX,
            height <= i32::MAX,
            forall|i: int|
                0 <= i < stamp@.len() ==> i32::MIN <= #[trigger] stamp@[i].x + dx <= i32::MAX && i32::MIN
                    <= stamp@[i].y + dy <= i32::MAX,
            sv == tiles_view(stamp@),
            k <= stamp@.len(),
            placed + skipped == k,
            ({
                let p = pasted_ground(g0, sv.subrange(0, k as int), dx as int, dy as int, width as int, height as int);
                tiles_view(tiles@) == p.0 && placed == p.1 && skipped == p.2
            }),
        decreases stamp@.len() - k,
    {
        proof {
            let pre = sv.subrange(0, k + 1);
            assert(pre.drop_last() =~= sv.subrange(0, k as int));
            assert(pre.last() == stamp@[k as int]@);
        }
        let ok = paste_stamp_ground_tile(tiles, width, height, &stamp[k], dx, dy);
        if ok {
            placed = placed + 1;
        } else {
            skipped = skipped + 1;
        }
        k = k + 1;
    }
    assert(sv.subrange(0, k as int) =~= sv);
    (placed, skipped)
}

/// The status line after pasting a stamp.
pub open spec fn paste_status(placed: nat, skipped: nat) -> Seq<char> {
    if placed == 0 {
        "Stamp 没有可放置对象，可能越界或图层已锁定"@
    } else if skipped > 0 {
        "Stamp 已放置 "@ + dec(placed) + " 个对象，跳过 "@ + dec(skipped)
    } else {
        "Stamp 已放置 "@ + dec(placed) + " 个对象"@
    }
}

/// The status line after pasting a stamp.
pub fn stamp_paste_status(placed: usize, skipped: usize) -> (r: String)
    ensures
        r@ == paste_status(placed as nat, skipped as nat),
{
    if placed == 0 {
        return "Stamp 没有可放置对象，可能越界或图层已锁定".to_owned();
    }
    let p = decimal(placed as u64);
    if skipped > 0 {
        let s = decimal(skipped as u64);
        let mut r = cat3("Stamp 已放置 ", p.as_str(), " 个对象，跳过 ");
        r.append(s.as_str());
        r
    } else {
        cat3("Stamp 已放置 ", p.as_str(), " 个对象")
    }
}

proof fn lemma_filter_twice(g: Seq<TileView>, f: spec_fn(TileView) -> bool)
    ensures
        g.filter(f).filter(f) == g.filter(f),
    decreases g.len(),
{
    reveal_with_fuel(Seq::filter, 1);
    if g.len() > 0 {
        lemma_filter_twice(g.drop_last(), f);
        let e = g.drop_last().filter(f);
        if f(g.last()) {
            assert(e.push(g.last()).drop_last() =~= e);
        }
    }
}

/// Pasting the same stamp tile twice at the same place leaves the ground as pasting it once.
pub proof fn lemma_stamp_paste_idempotent(g: Seq<TileView>, t: TileView, width: int, height: int)
    requires
        lands_on_map(t, width, height),
    ensures
        stamped_ground(stamped_ground(g, t, width, height), t, width, height) == stamped_ground(g, t, width, height),
{
    let w = paste_extent(t.3, width - t.1);
    let h = paste_extent(t.4, height - t.2);
    let rect = (t.1 as int, t.2 as int, t.1 + w, t.2 + h);
    let keep = |v: TileView| !overlaps(v, rect);
    let e = g.filter(keep);
    let p = (t.0, t.1, t.2, w as i32, h as i32, t.5, t.6);
    assert(!keep(p));
    reveal_with_fuel(Seq::filter, 1);
    assert(e.push(p).drop_last() =~= e);
    assert(e.push(p).filter(keep) == e.filter(keep));
    lemma_filter_twice(g, keep);
}

/// Capturing keeps exactly the tiles anchored in the closed rectangle, maxima included: each
/// such tile appears in the stamp moved by the rectangle's corner, every stamp tile is such a
/// tile, and the stamp has one tile per such tile.
pub proof fn lemma_capture_keeps_closed_rectangle(g: Seq<TileView>, min_x: int, min_y: int, max_x: int, max_y: int)
    ensures
        forall|i: int|
            0 <= i < g.len() && min_x <= #[trigger] g[i].1 <= max_x && min_y <= g[i].2 <= max_y ==> captured_ground(
                g,
                min_x,
                min_y,
                max_x,
                max_y,
            ).contains((g[i].0, (g[i].1 - min_x) as i32, (g[i].2 - min_y) as i32, g[i].3, g[i].4, g[i].5, g[i].6)),
        forall|j: int|
            0 <= j < captured_ground(g, min_x, min_y, max_x, max_y).len() ==> exists|i: int|
                0 <= i < g.len() && min_x <= #[trigger] g[i].1 <= max_x && min_y <= g[i].2 <= max_y
                    && #[trigger] captured_ground(g, min_x, min_y, max_x, max_y)[j] == (
                    g[i].0,
                    (g[i].1 - min_x) as i32,
                    (g[i].2 - min_y) as i32,
                    g[i].3,
                    g[i].4,
                    g[i].5,
                    g[i].6,
                ),
        captured_ground(g, min_x, min_y, max_x, max_y).len() == count_in_rect(g, min_x, min_y, max_x, max_y),
    decreases g.len(),
{
    let inside = |v: TileView| anchored_in(v, min_x, min_y, max_x, max_y);
    let moved = |v: TileView| shifted(v, -min_x, -min_y);
    let f = g.filter(inside);
    reveal_with_fuel(Seq::filter, 1);
    if g.len() > 0 {
        let h = g.drop_last();
        lemma_capture_keeps_closed_rectangle(h, min_x, min_y, max_x, max_y);
        let fh = h.filter(inside);
        let last = g.last();
        assert forall|i: int| 0 <= i < h.len() implies h[i] == g[i] by {}
        if inside(last) {
            assert(f == fh.push(last));
            assert(f.map_values(moved) =~= fh.map_values(moved).push(moved(last)));
        } else {
            assert(f == fh);
        }
        let c = captured_ground(g, min_x, min_y, max_x, max_y);
        let ch = captured_ground(h, min_x, min_y, max_x, max_y);
        assert forall|i: int|
            0 <= i < g.len() && min_x <= #[trigger] g[i].1 <= max_x && min_y <= g[i].2 <= max_y implies c.contains(
                (g[i].0, (g[i].1 - min_x) as i32, (g[i].2 - min_y) as i32, g[i].3, g[i].4, g[i].5, g[i].6),
            ) by {
            if i == g.len() - 1 {
                assert(c[c.len() - 1] == moved(last));
            } else {
                assert(h[i] == g[i]);
                let x = (g[i].0, (g[i].1 - min_x) as i32, (g[i].2 - min_y) as i32, g[i].3, g[i].4, g[i].5, g[i].6);
                assert(ch.contains(x));
                let k = choose|k: int| 0 <= k < ch.len() && ch[k] == x;
                assert(c[k] == ch[k]);
            }
        }
        assert forall|j: int| 0 <= j < c.len() implies exists|i: int|
            0 <= i < g.len() && min_x <= #[trigger] g[i].1 <= max_x && min_y <= g[i].2 <= max_y && #[trigger] c[j] == (
                g[i].0,
                (g[i].1 - min_x) as i32,
                (g[i].2 - min_y) as i32,
                g[i].3,
                g[i].4,
                g[i].5,
                g[i].6,
            ) by {
            if j < ch.len() {
                assert(c[j] == ch[j]);
                let i = choose|i: int|
                    0 <= i < h.len() && min_x <= #[trigger] h[i].1 <= max_x && min_y <= h[i].2 <= max_y && ch[j] == (
                        h[i].0,
                        (h[i].1 - min_x) as i32,
                        (h[i].2 - min_y) as i32,
                        h[i].3,
                        h[i].4,
                        h[i].5,
                        h[i].6,
                    );
                assert(h[i] == g[i]);
            } else {
                assert(c[j] == moved(last));
                assert(g[g.len() - 1] == last);
            }
        }
    }
}

/// How many tiles of `g` are anchored in the closed rectangle.
pub open spec fn count_in_rect(g: Seq<TileView>, min_x: int, min_y: int, max_x: int, max_y: int) -> nat
    decreases g.len(),
{
    if g.len() == 0 {
        0
    } else {
        count_in_rect(g.drop_last(), min_x, min_y, max_x, max_y) + (if min_x <= g.last().1 <= max_x && min_y
            <= g.last().2 <= max_y {
            1nat
        } else {
            0nat
        })
    }
}

} // verus!
