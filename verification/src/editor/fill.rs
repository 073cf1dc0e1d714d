use vstd::prelude::*;

use crate::editor::ground::{ground_asset_at_cell, last_cover, paint_ground_brush, rect_step};
use crate::editor::terrain_names::string_opt_view;
use crate::map::{covers, erase_ground_at, tiles_view, TileInstance, TileView};
use crate::text::str_eq;

verus! {

/// Whether cell `c` lies on a map `w` x `h` cells large.
pub open spec fn in_map(c: (i32, i32), w: int, h: int) -> bool {
    0 <= c.0 < w && 0 <= c.1 < h
}

/// The asset shown at cell `c`: that of the topmost tile covering it.
pub open spec fn cell_asset(g: Seq<TileView>, c: (i32, i32)) -> Option<Seq<char>> {
    match last_cover(g, c.0 as int, c.1 as int) {
        Some(i) => Some(g[i].0),
        None => None,
    }
}

/// Painting one cell of a fill: what covers the cell goes, then the brush is painted there.
pub open spec fn fill_paint(g: Seq<TileView>, c: (i32, i32), asset: Seq<char>, footprint: [i32; 2], w: int, h: int) -> Seq<TileView> {
    rect_step(g.filter(|v: TileView| !covers(v, c.0 as int, c.1 as int)), c.0, c.1, false, asset, footprint, w, h)
}

/// The state of a fill: the ground, the cells waiting in line, the cells seen, and how
/// many cells were painted.
pub type FillState = (Seq<TileView>, Seq<(i32, i32)>, Set<(i32, i32)>, nat);

/// One step of the fill: the first waiting cell is taken; off the map or seen before it is
/// dropped; else it is marked seen and, when it shows the asset being replaced (`target`),
/// painted, and its four neighbours (east, west, south, north) join the end of the line.
pub open spec fn fill_step(s: FillState, target: Option<Seq<char>>, asset: Seq<char>, footprint: [i32; 2], w: int, h: int) -> FillState {
    if s.1.len() == 0 {
        s
    } else {
        let c = s.1[0];
        let rest = s.1.drop_first();
        if !in_map(c, w, h) || s.2.contains(c) {
            (s.0, rest, s.2, s.3)
        } else if cell_asset(s.0, c) != target {
            (s.0, rest, s.2.insert(c), s.3)
        } else {
            (
                fill_paint(s.0, c, asset, footprint, w, h),
                rest + seq![
                    ((c.0 + 1) as i32, c.1),
                    ((c.0 - 1) as i32, c.1),
                    (c.0, (c.1 + 1) as i32),
                    (c.0, (c.1 - 1) as i32),
                ],
                s.2.insert(c),
                s.3 + 1,
            )
        }
    }
}

/// The fill after `n` steps.
pub open spec fn fill_run(s: FillState, target: Option<Seq<char>>, asset: Seq<char>, footprint: [i32; 2], w: int, h: int, n: nat) -> FillState
    decreases n,
{
    if n == 0 {
        s
    } else {
        fill_step(fill_run(s, target, asset, footprint, w, h, (n - 1) as nat), target, asset, footprint, w, h)
    }
}

/// The number of set flags.
pub open spec fn count_true(s: Seq<bool>) -> nat
    decreases s.len(),
{
    if s.len() == 0 {
        0
    } else {
        count_true(s.drop_last()) + (if s.last() { 1nat } else { 0nat })
    }
}

proof fn lemma_count_true_bound(s: Seq<bool>)
    ensures
        count_true(s) <= s.len(),
    decreases s.len(),
{
    if s.len() > 0 {
        lemma_count_true_bound(s.drop_last());
    }
}

proof fn lemma_count_true_set(s: Seq<bool>, i: int)
    requires
        0 <= i < s.len(),
        !s[i],
    ensures
        count_true(s.update(i, true)) == count_true(s) + 1,
    decreases s.len(),
{
    let t = s.update(i, true);
    if i == s.len() - 1 {
        assert(t.drop_last() =~= s.drop_last());
    } else {
        assert(t.drop_last() =~= s.drop_last().update(i, true));
        lemma_count_true_set(s.drop_last(), i);
    }
}

proof fn lemma_cell_index(c: (i32, i32), d: (i32, i32), w: int, h: int)
    requires
        in_map(c, w, h),
        in_map(d, w, h),
    ensures
        0 <= c.1 * w + c.0 < w * h,
        c.1 * w + c.0 == d.1 * w + d.0 ==> c == d,
{
    let (cx, cy, dx, dy) = (c.0 as int, c.1 as int, d.0 as int, d.1 as int);
    assert(0 <= cy * w + cx < w * h) by (nonlinear_arith)
        requires
            0 <= cx < w,
            0 <= cy < h,
    ;
    assert(cy * w + cx == dy * w + dx ==> cx == dx && cy == dy) by (nonlinear_arith)
        requires
            0 <= cx < w,
            0 <= dx < w,
            0 <= cy,
            0 <= dy,
    ;
}

fn opt_string_eq(a: &Option<String>, b: &Option<String>) -> (r: bool)
    ensures
        r == (string_opt_view(*a) == string_opt_view(*b)),
{
    match (a, b) {
        (Some(x), Some(y)) => str_eq(x.as_str(), y.as_str()),
        (None, None) => true,
        _ => false,
    }
}

/// Flood-fills the ground region of cell (`x`, `y`) with `asset_id`: breadth first
/// through the four neighbours of each painted cell, every map cell showing the asset that
/// (`x`, `y`) showed at the start is painted with the brush; how many cells were painted.
/// Nothing happens when (`x`, `y`) already shows `asset_id`.
pub fn bucket_fill_ground(tiles: &mut Vec<TileInstance>, width: u32, height: u32, x: i32, y: i32, asset_id: &str, footprint: [i32; 2]) -> (filled: usize)
    requires
        width <= i32::MAX,
        height <= i32::MAX,
        width * height <= usize::MAX,
    ensures
        filled <= width * height,
        cell_asset(tiles_view(old(tiles)@), (x, y)) == Some(asset_id@) ==> filled == 0 && final(tiles)@ == old(tiles)@,
        cell_asset(tiles_view(old(tiles)@), (x, y)) != Some(asset_id@) ==> exists|n: nat| #![trigger fill_run(
            (tiles_view(old(tiles)@), seq![(x, y)], Set::<(i32, i32)>::empty(), 0nat),
            cell_asset(tiles_view(old(tiles)@), (x, y)),
            asset_id@,
            footprint,
            width as int,
            height as int,
            n,
        )]
            {
                let s = fill_run(
                    (tiles_view(old(tiles)@), seq![(x, y)], Set::<(i32, i32)>::empty(), 0nat),
                    cell_asset(tiles_view(old(tiles)@), (x, y)),
                    asset_id@,
                    footprint,
                    width as int,
                    height as int,
                    n,
                );
                s.1.len() == 0 && tiles_view(final(tiles)@) == s.0 && filled == s.3
            },
{
    let target = ground_asset_at_cell(tiles, x, y);
    let ghost tv = string_opt_view(target);
    assert(tv == cell_asset(tiles_view(tiles@), (x, y)));
    if let Some(t) = &target {
        if str_eq(t.as_str(), asset_id) {
            return 0;
        }
    }
    let ghost w = width as int;
    let ghost h = height as int;
    let ghost init: FillState = (tiles_view(tiles@), seq![(x, y)], Set::<(i32, i32)>::empty(), 0nat);
    let cells: usize = (width as usize) * (height as usize);
    let mut visited: Vec<bool> = vec![false; cells];
    let mut queue: std::collections::VecDeque<(i32, i32)> = std::collections::VecDeque::new();
    queue.push_back((x, y));
    let mut filled: usize = 0;
    let ghost mut seen: Set<(i32, i32)> = Set::empty();
    let ghost mut k: nat = 0;
    proof {
        assert(queue@ =~= seq![(x, y)]);
        assert(count_true(visited@) == 0) by {
            lemma_count_true_zero(visited@);
        }
        assert forall|c: (i32, i32)| #![trigger seen.contains(c)] in_map(c, w, h) implies visited@[c.1 * w + c.0]
            == seen.contains(c) by {
            lemma_cell_index(c, c, w, h);
        }
    }
    while queue.len() > 0
        invariant
            width <= i32::MAX,
            height <= i32::MAX,
            w == width as int,
            h == height as int,
            cells == w * h,
            visited@.len() == cells,
            tv == cell_asset(init.0, (x, y)),
            init == (tiles_view(old(tiles)@), seq![(x, y)], Set::<(i32, i32)>::empty(), 0nat),
            (tiles_view(tiles@), queue@, seen, filled as nat) == fill_run(init, tv, asset_id@, footprint, w, h, k),
            forall|c: (i32, i32)| seen.contains(c) ==> in_map(c, w, h),
            forall|c: (i32, i32)| #![trigger seen.contains(c)] in_map(c, w, h) ==> visited@[c.1 * w + c.0] == seen.contains(c),
            filled <= count_true(visited@),
            count_true(visited@) <= cells,
            string_opt_view(target) == tv,
        decreases 5 * (cells - count_true(visited@)) + queue@.len(),
    {
        proof {
            lemma_count_true_bound(visited@);
        }
        let ghost before = (tiles_view(tiles@), queue@, seen, filled as nat);
        let (cx, cy) = match queue.pop_front() {
            Some(c) => c,
            None => (0, 0),
        };
        let ghost c = (cx, cy);
        proof {
            assert(before.1[0] == c);
            assert(queue@ =~= before.1.drop_first());
        }
        if cx >= 0 && cy >= 0 && (cx as i64) < (width as i64) && (cy as i64) < (height as i64) {
            proof {
                lemma_cell_index(c, c, w, h);
            }
            let idx: usize = (cy as usize) * (width as usize) + (cx as usize);
            assert(idx as int == cy * w + cx) by (nonlinear_arith)
                requires
                    idx as int == (cy as int) * (width as int) + cx,
                    w == width as int,
            ;
            if !visited[idx] {
                proof {
                    lemma_count_true_set(visited@, idx as int);
                }
                visited.set(idx, true);
                proof {
                    lemma_count_true_bound(visited@);
                    seen = seen.insert(c);
                    assert forall|d: (i32, i32)| #![trigger seen.contains(d)] in_map(d, w, h) implies visited@[d.1 * w + d.0] == seen.contains(d) by {
                        lemma_cell_index(d, c, w, h);
                    }
                }
                let here = ground_asset_at_cell(tiles, cx, cy);
                if opt_string_eq(&here, &target) {
                    erase_ground_at(tiles, cx, cy);
                    paint_ground_brush(tiles, width, height, cx, cy, asset_id, footprint);
                    filled = filled + 1;
                    queue.push_back((cx + 1, cy));
                    queue.push_back((cx - 1, cy));
                    queue.push_back((cx, cy + 1));
                    queue.push_back((cx, cy - 1));
                    proof {
                        assert(queue@ =~= before.1.drop_first() + seq![
                            ((cx + 1) as i32, cy),
                            ((cx - 1) as i32, cy),
                            (cx, (cy + 1) as i32),
                            (cx, (cy - 1) as i32),
                        ]);
                    }
                }
            }
        }
        proof {
            k = k + 1;
            lemma_count_true_bound(visited@);
        }
    }
    filled
}

proof fn lemma_count_true_zero(s: Seq<bool>)
    requires
        forall|i: int| 0 <= i < s.len() ==> !s[i],
    ensures
        count_true(s) == 0,
    decreases s.len(),
{
    if s.len() > 0 {
        lemma_count_true_zero(s.drop_last());
    }
}

/// The cell the fill paints when it takes its next step from state `s`, if it paints one.
pub open spec fn painted_by_step(s: FillState, target: Option<Seq<char>>, w: int, h: int) -> Option<(i32, i32)> {
    if s.1.len() == 0 {
        None
    } else {
        let c = s.1[0];
        if !in_map(c, w, h) || s.2.contains(c) || cell_asset(s.0, c) != target {
            None
        } else {
            Some(c)
        }
    }
}

/// Cells `c` and `d` share a side (north, south, east or west).
pub open spec fn side_by_side(c: (i32, i32), d: (i32, i32)) -> bool {
    ||| c.1 == d.1 && (d.0 == c.0 + 1 || d.0 == c.0 - 1)
    ||| c.0 == d.0 && (d.1 == c.1 + 1 || d.1 == c.1 - 1)
}

proof fn lemma_seen_grows(s: FillState, target: Option<Seq<char>>, asset: Seq<char>, footprint: [i32; 2], w: int, h: int, m: nat, n: nat)
    requires
        m <= n,
    ensures
        fill_run(s, target, asset, footprint, w, h, m).2.subset_of(fill_run(s, target, asset, footprint, w, h, n).2),
    decreases n,
{
    if m < n {
        lemma_seen_grows(s, target, asset, footprint, w, h, m, (n - 1) as nat);
    }
}

proof fn lemma_queued_cell_is_seen(
    s: FillState,
    target: Option<Seq<char>>,
    asset: Seq<char>,
    footprint: [i32; 2],
    w: int,
    h: int,
    m: nat,
    p: int,
    n: nat,
)
    requires
        m <= n,
        0 <= p < fill_run(s, target, asset, footprint, w, h, m).1.len(),
        fill_run(s, target, asset, footprint, w, h, n).1.len() == 0,
        in_map(fill_run(s, target, asset, footprint, w, h, m).1[p], w, h),
    ensures
        fill_run(s, target, asset, footprint, w, h, n).2.contains(fill_run(s, target, asset, footprint, w, h, m).1[p]),
    decreases p,
{
    let cur = fill_run(s, target, asset, footprint, w, h, m);
    let q = cur.1[p];
    assert(m < n);
    let next = fill_run(s, target, asset, footprint, w, h, m + 1);
    assert(next == fill_step(cur, target, asset, footprint, w, h));
    if p == 0 {
        assert(next.2.contains(q));
        lemma_seen_grows(s, target, asset, footprint, w, h, m + 1, n);
    } else {
        assert(next.1[p - 1] == q);
        lemma_queued_cell_is_seen(s, target, asset, footprint, w, h, m + 1, p - 1, n);
    }
}

/// The fill spreads to all four sides: once the line of waiting cells has run out, every map
/// cell beside (north, south, east or west of) a cell the fill painted has been visited, and
/// so was painted in turn if it still showed the replaced asset when the fill reached it.
pub proof fn lemma_fill_visits_every_side(
    s: FillState,
    target: Option<Seq<char>>,
    asset: Seq<char>,
    footprint: [i32; 2],
    w: int,
    h: int,
    n: nat,
    j: nat,
    c: (i32, i32),
    d: (i32, i32),
)
    requires
        fill_run(s, target, asset, footprint, w, h, n).1.len() == 0,
        j < n,
        painted_by_step(fill_run(s, target, asset, footprint, w, h, j), target, w, h) == Some(c),
        side_by_side(c, d),
        in_map(d, w, h),
    ensures
        fill_run(s, target, asset, footprint, w, h, n).2.contains(d),
{
    let cur = fill_run(s, target, asset, footprint, w, h, j);
    let next = fill_run(s, target, asset, footprint, w, h, j + 1);
    assert(next == fill_step(cur, target, asset, footprint, w, h));
    let base = cur.1.len() - 1;
    assert(next.1.len() == base + 4);
    let k: int = if d.1 == c.1 && d.0 == c.0 + 1 {
        0
    } else if d.1 == c.1 && d.0 == c.0 - 1 {
        1
    } else if d.1 == c.1 + 1 {
        2
    } else {
        3
    };
    assert(next.1[base + k] == d);
    lemma_queued_cell_is_seen(s, target, asset, footprint, w, h, j + 1, base + k, n);
}

/// A fill that starts from a map cell visits that cell.
pub proof fn lemma_fill_visits_start(
    s: FillState,
    target: Option<Seq<char>>,
    asset: Seq<char>,
    footprint: [i32; 2],
    w: int,
    h: int,
    n: nat,
    start: (i32, i32),
)
    requires
        s.1 == seq![start],
        in_map(start, w, h),
        fill_run(s, target, asset, footprint, w, h, n).1.len() == 0,
    ensures
        fill_run(s, target, asset, footprint, w, h, n).2.contains(start),
{
    assert(fill_run(s, target, asset, footprint, w, h, 0) == s);
    lemma_queued_cell_is_seen(s, target, asset, footprint, w, h, 0, 0, n);
}

} // verus!
