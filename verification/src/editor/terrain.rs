use vstd::prelude::*;

use crate::assets::AssetKind;
use crate::editor::terrain_names::{
    classify, classify_asset, corner_degrees, corner_sides, direction_degrees, str_opt_view, string_opt_view, tag_views, Corner,
    Direction, TerrainAsset, TerrainRole,
};
use crate::text::{lex_lt, str_eq, str_lt};

verus! {

/// Which of a tile's four neighbours belong to its own family.
#[derive(Clone, Copy, Debug, PartialEq, Eq, Structural)]
pub struct TerrainMask {
    pub north: bool,
    pub east: bool,
    pub south: bool,
    pub west: bool,
}

/// The terrain families of a tile's four neighbours (`None` where there is no
/// terrain tile).
#[derive(Clone, Debug, Default)]
pub struct TerrainNeighborFamilies {
    pub north: Option<String>,
    pub east: Option<String>,
    pub south: Option<String>,
    pub west: Option<String>,
}

impl View for TerrainNeighborFamilies {
    type V = (Option<Seq<char>>, Option<Seq<char>>, Option<Seq<char>>, Option<Seq<char>>);

    open spec fn view(&self) -> Self::V {
        (
            string_opt_view(self.north),
            string_opt_view(self.east),
            string_opt_view(self.south),
            string_opt_view(self.west),
        )
    }
}

/// The tile to paint: an asset and its clockwise rotation in degrees.
#[derive(Clone, Debug)]
pub struct TerrainChoice {
    pub asset_id: String,
    pub rotation: i32,
}

impl View for TerrainChoice {
    type V = (Seq<char>, i32);

    open spec fn view(&self) -> (Seq<char>, i32) {
        (self.asset_id@, self.rotation)
    }
}

impl View for TerrainAsset {
    type V = (Seq<char>, AssetKind, Seq<Seq<char>>);

    open spec fn view(&self) -> Self::V {
        (self.id@, self.kind, tag_views(self.tags@))
    }
}

/// A registered terrain tile: its id, family, role and the family it blends into.
pub type EntryView = (Seq<char>, Seq<char>, TerrainRole, Option<Seq<char>>);

#[derive(Clone, Debug)]
struct TerrainEntry {
    id: String,
    family: String,
    role: TerrainRole,
    transition_to: Option<String>,
}

impl View for TerrainEntry {
    type V = EntryView;

    closed spec fn view(&self) -> EntryView {
        (self.id@, self.family@, self.role, string_opt_view(self.transition_to))
    }
}

/// The terrain tiles among `assets`, in order, each with its classification.
pub open spec fn registered(assets: Seq<(Seq<char>, AssetKind, Seq<Seq<char>>)>) -> Seq<EntryView>
    decreases assets.len(),
{
    if assets.len() == 0 {
        Seq::empty()
    } else {
        let a = assets.last();
        match classify(a.0, a.1, a.2) {
            Some(c) => registered(assets.drop_last()).push((a.0, c.0, c.1, c.2)),
            None => registered(assets.drop_last()),
        }
    }
}

/// The autotiling rules read from a set of tile assets.
#[derive(Clone, Debug, Default)]
pub struct TerrainRules {
    entries: Vec<TerrainEntry>,
}

impl View for TerrainRules {
    type V = Seq<EntryView>;

    closed spec fn view(&self) -> Seq<EntryView> {
        self.entries@.map_values(|e: TerrainEntry| e@)
    }
}

/// Which roles a search accepts.
#[derive(Clone, Copy, Debug, PartialEq, Eq, Structural)]
pub enum RoleWanted {
    Any,
    Exactly(TerrainRole),
    AnyEdge,
    AnyCorner,
}

pub open spec fn role_accepted(r: TerrainRole, w: RoleWanted) -> bool {
    match w {
        RoleWanted::Any => true,
        RoleWanted::Exactly(x) => r == x,
        RoleWanted::AnyEdge => r is Edge,
        RoleWanted::AnyCorner => r is Corner,
    }
}

/// The first entry, from `k` on, of family `family` that blends into `target`
/// (`None`: a plain tile of the family) and whose role `w` accepts.
pub open spec fn first_entry(m: Seq<EntryView>, family: Seq<char>, target: Option<Seq<char>>, w: RoleWanted, k: int) -> Option<int>
    decreases m.len() - k,
{
    if k < 0 || k >= m.len() {
        None
    } else if m[k].1 == family && m[k].3 == target && role_accepted(m[k].2, w) {
        Some(k)
    } else {
        first_entry(m, family, target, w, k + 1)
    }
}

/// The last entry registered for asset `id`.
pub open spec fn last_entry(m: Seq<EntryView>, id: Seq<char>) -> Option<int>
    decreases m.len(),
{
    if m.len() == 0 {
        None
    } else if m.last().0 == id {
        Some(m.len() - 1)
    } else {
        last_entry(m.drop_last(), id)
    }
}

/// The family of asset `id`, as last registered.
pub open spec fn asset_family(m: Seq<EntryView>, id: Seq<char>) -> Option<Seq<char>> {
    match last_entry(m, id) {
        Some(i) => Some(m[i].1),
        None => None,
    }
}

/// The role of asset `id`, as last registered.
pub open spec fn asset_role(m: Seq<EntryView>, id: Seq<char>) -> Option<TerrainRole> {
    match last_entry(m, id) {
        Some(i) => Some(m[i].2),
        None => None,
    }
}

/// Whether `id` is registered as a plain centre tile of `family`.
pub open spec fn center_listed(m: Seq<EntryView>, family: Seq<char>, id: Seq<char>) -> bool {
    exists|i: int| 0 <= i < m.len() && #[trigger] m[i].0 == id && m[i].1 == family && m[i].3 is None
        && m[i].2 == TerrainRole::Center
}

/// The clockwise turn, in `[0, 360)`, from angle `from` to angle `to`.
pub open spec fn rotation_between(from: i32, to: i32) -> i32 {
    ((to - from) % 360) as i32
}

pub open spec fn or_else(a: Option<(Seq<char>, i32)>, b: Option<(Seq<char>, i32)>) -> Option<(Seq<char>, i32)> {
    match a {
        Some(x) => Some(x),
        None => b,
    }
}

/// The edge tile for side `d` of a tile set: the one drawn for `d`, else the first
/// edge tile of the set turned from its side to `d`.
pub open spec fn edge_pick(m: Seq<EntryView>, family: Seq<char>, target: Option<Seq<char>>, d: Direction) -> Option<(Seq<char>, i32)> {
    match first_entry(m, family, target, RoleWanted::Exactly(TerrainRole::Edge(d)), 0) {
        Some(i) => Some((m[i].0, 0i32)),
        None => match first_entry(m, family, target, RoleWanted::AnyEdge, 0) {
            Some(i) => match m[i].2 {
                TerrainRole::Edge(b) => Some((m[i].0, rotation_between(direction_degrees(b), direction_degrees(d)))),
                _ => None,
            },
            None => None,
        },
    }
}

/// The corner tile for corner `c` of a tile set, chosen as `edge_pick` chooses edges.
pub open spec fn corner_pick(m: Seq<EntryView>, family: Seq<char>, target: Option<Seq<char>>, c: Corner) -> Option<(Seq<char>, i32)> {
    match first_entry(m, family, target, RoleWanted::Exactly(TerrainRole::Corner(c)), 0) {
        Some(i) => Some((m[i].0, 0i32)),
        None => match first_entry(m, family, target, RoleWanted::AnyCorner, 0) {
            Some(i) => match m[i].2 {
                TerrainRole::Corner(b) => Some((m[i].0, rotation_between(corner_degrees(b), corner_degrees(c)))),
                _ => None,
            },
            None => None,
        },
    }
}

/// A corner tile, or else an edge tile for one of the corner's two sides.
pub open spec fn corner_or_side_pick(m: Seq<EntryView>, family: Seq<char>, target: Option<Seq<char>>, c: Corner) -> Option<(Seq<char>, i32)> {
    or_else(
        corner_pick(m, family, target, c),
        or_else(edge_pick(m, family, target, corner_sides(c).0), edge_pick(m, family, target, corner_sides(c).1)),
    )
}

/// The family's first centre tile.
pub open spec fn center_pick(m: Seq<EntryView>, family: Seq<char>) -> Option<(Seq<char>, i32)> {
    match first_entry(m, family, None, RoleWanted::Exactly(TerrainRole::Center), 0) {
        Some(i) => Some((m[i].0, 0i32)),
        None => None,
    }
}

/// The tile itself, when it is one of the family's centre tiles.
pub open spec fn current_center_pick(m: Seq<EntryView>, family: Seq<char>, id: Seq<char>, current: Option<TerrainRole>) -> Option<(Seq<char>, i32)> {
    if current == Some(TerrainRole::Center) && center_listed(m, family, id) {
        Some((id, 0i32))
    } else {
        None
    }
}

/// The tile of a plain family for `role`, keeping the current centre tile where it fits.
pub open spec fn family_pick(m: Seq<EntryView>, family: Seq<char>, id: Seq<char>, current: Option<TerrainRole>, role: TerrainRole) -> Option<(Seq<char>, i32)> {
    match role {
        TerrainRole::Center => or_else(current_center_pick(m, family, id, current), center_pick(m, family)),
        TerrainRole::Edge(d) => or_else(
            edge_pick(m, family, None, d),
            or_else(current_center_pick(m, family, id, current), center_pick(m, family)),
        ),
        TerrainRole::Corner(c) => or_else(
            corner_or_side_pick(m, family, None, c),
            or_else(current_center_pick(m, family, id, current), center_pick(m, family)),
        ),
    }
}

pub type NeighborsView = (Option<Seq<char>>, Option<Seq<char>>, Option<Seq<char>>, Option<Seq<char>>);

/// The four neighbour slots, north, east, south, west.
pub open spec fn slots(n: NeighborsView) -> Seq<Option<Seq<char>>> {
    seq![n.0, n.1, n.2, n.3]
}

pub open spec fn slot_is(o: Option<Seq<char>>, f: Seq<char>) -> int {
    if o == Some(f) { 1 } else { 0 }
}

/// How many neighbours belong to family `f`.
pub open spec fn slot_count(n: NeighborsView, f: Seq<char>) -> int {
    slot_is(n.0, f) + slot_is(n.1, f) + slot_is(n.2, f) + slot_is(n.3, f)
}

/// Whether family `a` outranks `b` as a blend target: more neighbours, or as many
/// and an earlier name.
pub open spec fn outranks(n: NeighborsView, a: Seq<char>, b: Seq<char>) -> bool {
    slot_count(n, a) > slot_count(n, b) || (slot_count(n, a) == slot_count(n, b) && lex_lt(a, b))
}

/// The best-ranked foreign neighbour family among slots `k..4`, starting from `best`.
pub open spec fn dominant_from(source: Seq<char>, n: NeighborsView, k: int, best: Option<Seq<char>>) -> Option<Seq<char>>
    decreases 4 - k,
{
    if k < 0 || k >= 4 {
        best
    } else {
        let next = match slots(n)[k] {
            Some(f) => if f == source {
                best
            } else {
                match best {
                    None => Some(f),
                    Some(b) => if outranks(n, f, b) { Some(f) } else { Some(b) },
                }
            },
            None => best,
        };
        dominant_from(source, n, k + 1, next)
    }
}

/// The family that a tile of `source` blends into: the foreign neighbour family that
/// most neighbours belong to, the earliest name among equals.
pub open spec fn dominant_target(source: Seq<char>, n: NeighborsView) -> Option<Seq<char>> {
    dominant_from(source, n, 0, None)
}

/// Whether neighbour slot `k` holds a family other than `source`.
pub open spec fn foreign_slot(n: NeighborsView, source: Seq<char>, k: int) -> bool {
    slots(n)[k] matches Some(f) && f != source
}

/// The transition role for the sides where `target` lies.
pub open spec fn transition_role(source: Seq<char>, target: Seq<char>, n: NeighborsView) -> Option<TerrainRole> {
    let north = n.0 == Some(target);
    let east = n.1 == Some(target);
    let south = n.2 == Some(target);
    let west = n.3 == Some(target);
    if north && east {
        Some(TerrainRole::Corner(Corner::NorthEast))
    } else if east && south {
        Some(TerrainRole::Corner(Corner::SouthEast))
    } else if south && west {
        Some(TerrainRole::Corner(Corner::SouthWest))
    } else if west && north {
        Some(TerrainRole::Corner(Corner::NorthWest))
    } else if north {
        Some(TerrainRole::Edge(Direction::North))
    } else if east {
        Some(TerrainRole::Edge(Direction::East))
    } else if south {
        Some(TerrainRole::Edge(Direction::South))
    } else if west {
        Some(TerrainRole::Edge(Direction::West))
    } else if (exists|k: int| 0 <= k < 4 && #[trigger] foreign_slot(n, source, k)) {
        Some(TerrainRole::Center)
    } else {
        None
    }
}

/// The transition tile from `source` into its dominant neighbour family, if the rules
/// hold a transition set for that pair with a tile for the role.
pub open spec fn transition_pick(m: Seq<EntryView>, source: Seq<char>, n: NeighborsView) -> Option<(Seq<char>, i32)> {
    match dominant_target(source, n) {
        None => None,
        Some(t) => if first_entry(m, source, Some(t), RoleWanted::Any, 0) is None {
            None
        } else {
            match transition_role(source, t, n) {
                None => None,
                Some(TerrainRole::Center) => None,
                Some(TerrainRole::Edge(d)) => edge_pick(m, source, Some(t), d),
                Some(TerrainRole::Corner(c)) => corner_or_side_pick(m, source, Some(t), c),
            }
        },
    }
}

/// The role that the missing same-family neighbours call for: one missing side gives
/// that side's edge, two adjacent missing sides their corner, anything else a centre.
pub open spec fn mask_role(mask: TerrainMask) -> TerrainRole {
    let missing = (if mask.north { 0int } else { 1int }) + (if mask.east { 0int } else { 1int })
        + (if mask.south { 0int } else { 1int }) + (if mask.west { 0int } else { 1int });
    if missing == 1 {
        if !mask.north {
            TerrainRole::Edge(Direction::North)
        } else if !mask.east {
            TerrainRole::Edge(Direction::East)
        } else if !mask.south {
            TerrainRole::Edge(Direction::South)
        } else {
            TerrainRole::Edge(Direction::West)
        }
    } else if missing == 2 && !mask.north && !mask.east {
        TerrainRole::Corner(Corner::NorthEast)
    } else if missing == 2 && !mask.east && !mask.south {
        TerrainRole::Corner(Corner::SouthEast)
    } else if missing == 2 && !mask.south && !mask.west {
        TerrainRole::Corner(Corner::SouthWest)
    } else if missing == 2 && !mask.west && !mask.north {
        TerrainRole::Corner(Corner::NorthWest)
    } else {
        TerrainRole::Center
    }
}

/// Which neighbours belong to `family`.
pub open spec fn mask_of(n: NeighborsView, family: Seq<char>) -> TerrainMask {
    TerrainMask { north: n.0 == Some(family), east: n.1 == Some(family), south: n.2 == Some(family), west: n.3 == Some(family) }
}

/// The tile to paint in place of asset `id` given its neighbours: a transition tile
/// where one applies, else the tile of its own family for the shape of the patch.
pub open spec fn terrain_choice(m: Seq<EntryView>, id: Seq<char>, n: NeighborsView) -> Option<(Seq<char>, i32)> {
    match asset_family(m, id) {
        None => None,
        Some(f) => match transition_pick(m, f, n) {
            Some(c) => Some(c),
            None => if first_entry(m, f, None, RoleWanted::Any, 0) is None {
                None
            } else {
                family_pick(m, f, id, asset_role(m, id), mask_role(mask_of(n, f)))
            },
        },
    }
}

pub open spec fn choice_view(o: Option<TerrainChoice>) -> Option<(Seq<char>, i32)> {
    match o {
        Some(c) => Some(c@),
        None => None,
    }
}

/// The role that the missing same-family neighbours call for.
pub fn role_for_mask(mask: TerrainMask) -> (r: TerrainRole)
    ensures
        r == mask_role(mask),
{
    let missing: u8 = (if mask.north { 0u8 } else { 1u8 }) + (if mask.east { 0u8 } else { 1u8 })
        + (if mask.south { 0u8 } else { 1u8 }) + (if mask.west { 0u8 } else { 1u8 });
    if missing == 1 {
        if !mask.north {
            return TerrainRole::Edge(Direction::North);
        } else if !mask.east {
            return TerrainRole::Edge(Direction::East);
        } else if !mask.south {
            return TerrainRole::Edge(Direction::South);
        } else {
            return TerrainRole::Edge(Direction::West);
        }
    }
    if missing == 2 {
        if !mask.north && !mask.east {
            return TerrainRole::Corner(Corner::NorthEast);
        }
        if !mask.east && !mask.south {
            return TerrainRole::Corner(Corner::SouthEast);
        }
        if !mask.south && !mask.west {
            return TerrainRole::Corner(Corner::SouthWest);
        }
        if !mask.west && !mask.north {
            return TerrainRole::Corner(Corner::NorthWest);
        }
    }
    TerrainRole::Center
}

/// The clockwise turn from angle `from` to angle `to`, both in `[0, 360)`.
pub fn rotation_between_degrees(from: i32, to: i32) -> (r: i32)
    requires
        0 <= from < 360,
        0 <= to < 360,
    ensures
        r == rotation_between(from, to),
        0 <= r < 360,
{
    let d = to - from;
    if d < 0 {
        d + 360
    } else {
        d
    }
}

fn opt_str_eq(a: &Option<String>, b: Option<&str>) -> (r: bool)
    ensures
        r == (string_opt_view(*a) == str_opt_view(b)),
{
    match (a, b) {
        (Some(x), Some(y)) => str_eq(x.as_str(), y),
        (None, None) => true,
        _ => false,
    }
}

fn accepts(r: TerrainRole, w: RoleWanted) -> (b: bool)
    ensures
        b == role_accepted(r, w),
{
    match w {
        RoleWanted::Any => true,
        RoleWanted::Exactly(x) => r == x,
        RoleWanted::AnyEdge => match r {
            TerrainRole::Edge(_) => true,
            _ => false,
        },
        RoleWanted::AnyCorner => match r {
            TerrainRole::Corner(_) => true,
            _ => false,
        },
    }
}

fn slot(n: &TerrainNeighborFamilies, k: usize) -> (r: &Option<String>)
    requires
        k < 4,
    ensures
        string_opt_view(*r) == slots(n@)[k as int],
{
    if k == 0 {
        &n.north
    } else if k == 1 {
        &n.east
    } else if k == 2 {
        &n.south
    } else {
        &n.west
    }
}

fn slot_is_of(o: &Option<String>, f: &str) -> (r: i32)
    ensures
        r == slot_is(string_opt_view(*o), f@),
{
    match o {
        Some(x) => if str_eq(x.as_str(), f) { 1 } else { 0 },
        None => 0,
    }
}

fn neighbour_count(n: &TerrainNeighborFamilies, f: &str) -> (r: i32)
    ensures
        r == slot_count(n@, f@),
{
    slot_is_of(&n.north, f) + slot_is_of(&n.east, f) + slot_is_of(&n.south, f) + slot_is_of(&n.west, f)
}

/// The neighbour family that a tile of `source` blends into, if any.
pub fn dominant_transition_target(source: &str, neighbors: &TerrainNeighborFamilies) -> (r: Option<String>)
    ensures
        string_opt_view(r) == dominant_target(source@, neighbors@),
{
    let mut best: Option<&str> = None;
    let mut k: usize = 0;
    while k < 4
        invariant
            k <= 4,
            dominant_target(source@, neighbors@) == dominant_from(
                source@,
                neighbors@,
                k as int,
                match best {
                    Some(b) => Some(b@),
                    None => None,
                },
            ),
        decreases 4 - k,
    {
        match slot(neighbors, k) {
            Some(f) => {
                if !str_eq(f.as_str(), source) {
                    best = match best {
                        None => Some(f.as_str()),
                        Some(b) => {
                            let cf = neighbour_count(neighbors, f.as_str());
                            let cb = neighbour_count(neighbors, b);
                            if cf > cb || (cf == cb && str_lt(f.as_str(), b)) {
                                Some(f.as_str())
                            } else {
                                Some(b)
                            }
                        },
                    };
                }
            },
            None => {},
        }
        k = k + 1;
    }
    match best {
        Some(b) => Some(b.to_owned()),
        None => None,
    }
}

fn is_target(o: &Option<String>, target: &str) -> (r: bool)
    ensures
        r == (string_opt_view(*o) == Some(target@)),
{
    match o {
        Some(x) => str_eq(x.as_str(), target),
        None => false,
    }
}

/// The role of the transition tile between `source` and the neighbour family `target`.
pub fn transition_role_for_target(source: &str, target: &str, neighbors: &TerrainNeighborFamilies) -> (r: Option<TerrainRole>)
    ensures
        r == transition_role(source@, target@, neighbors@),
{
    let north = is_target(&neighbors.north, target);
    let east = is_target(&neighbors.east, target);
    let south = is_target(&neighbors.south, target);
    let west = is_target(&neighbors.west, target);
    if north && east {
        return Some(TerrainRole::Corner(Corner::NorthEast));
    }
    if east && south {
        return Some(TerrainRole::Corner(Corner::SouthEast));
    }
    if south && west {
        return Some(TerrainRole::Corner(Corner::SouthWest));
    }
    if west && north {
        return Some(TerrainRole::Corner(Corner::NorthWest));
    }
    if north {
        return Some(TerrainRole::Edge(Direction::North));
    }
    if east {
        return Some(TerrainRole::Edge(Direction::East));
    }
    if south {
        return Some(TerrainRole::Edge(Direction::South));
    }
    if west {
        return Some(TerrainRole::Edge(Direction::West));
    }
    let mut k: usize = 0;
    while k < 4
        invariant
            k <= 4,
            neighbors@.0 != Some(target@),
            neighbors@.1 != Some(target@),
            neighbors@.2 != Some(target@),
            neighbors@.3 != Some(target@),
            forall|j: int| 0 <= j < k ==> !#[trigger] foreign_slot(neighbors@, source@, j),
        decreases 4 - k,
    {
        match slot(neighbors, k) {
            Some(f) => {
                if !str_eq(f.as_str(), source) {
                    assert(foreign_slot(neighbors@, source@, k as int));
                    return Some(TerrainRole::Center);
                }
            },
            None => {},
        }
        k = k + 1;
    }
    None
}

impl TerrainRules {
    /// Reads the rules off a list of assets: every tile that `classify` accepts, in order.
    pub fn from_assets(assets: &[TerrainAsset]) -> (r: Self)
        ensures
            r@ == registered(assets@.map_values(|a: TerrainAsset| a@)),
    {
        let ghost views = assets@.map_values(|a: TerrainAsset| a@);
        let mut entries: Vec<TerrainEntry> = Vec::new();
        let mut i: usize = 0;
        while i < assets.len()
            invariant
                views == assets@.map_values(|a: TerrainAsset| a@),
                i <= assets@.len(),
                entries@.map_values(|e: TerrainEntry| e@) == registered(views.subrange(0, i as int)),
            decreases assets@.len() - i,
        {
            let asset = &assets[i];
            proof {
                assert(views.subrange(0, i + 1).drop_last() =~= views.subrange(0, i as int));
            }
            match classify_asset(asset) {
                Some(c) => {
                    let entry = TerrainEntry {
                        id: asset.id.clone(),
                        family: c.family,
                        role: c.role,
                        transition_to: c.transition_to,
                    };
                    entries.push(entry);
                    proof {
                        assert(entries@.map_values(|e: TerrainEntry| e@) =~= registered(views.subrange(0, i as int)).push(
                            (views[i as int].0, c@.0, c@.1, c@.2),
                        ));
                    }
                },
                None => {},
            }
            i = i + 1;
        }
        assert(views.subrange(0, assets@.len() as int) =~= views);
        TerrainRules { entries }
    }

    /// Whether no tile takes part in terrain painting.
    pub fn is_empty(&self) -> (r: bool)
        ensures
            r == (self@.len() == 0),
    {
        self.entries.len() == 0
    }

    fn last_entry_of(&self, id: &str) -> (r: Option<usize>)
        ensures
            match r {
                Some(i) => last_entry(self@, id@) == Some(i as int) && i < self@.len(),
                None => last_entry(self@, id@) is None,
            },
    {
        let ghost m = self@;
        let mut k: usize = self.entries.len();
        assert(m.subrange(0, m.len() as int) =~= m);
        while k > 0
            invariant
                m == self@,
                m.len() == self.entries@.len(),
                k <= m.len(),
                last_entry(m, id@) == last_entry(m.subrange(0, k as int), id@),
            decreases k,
        {
            proof {
                assert(m.subrange(0, k as int).drop_last() =~= m.subrange(0, k - 1));
            }
            assert(m[k - 1] == self.entries@[k - 1]@);
            if str_eq(self.entries[k - 1].id.as_str(), id) {
                return Some(k - 1);
            }
            k = k - 1;
        }
        None
    }

    /// The family of a registered terrain tile.
    pub fn family_for_asset(&self, asset_id: &str) -> (r: Option<&str>)
        ensures
            match r {
                Some(f) => asset_family(self@, asset_id@) == Some(f@),
                None => asset_family(self@, asset_id@) is None,
            },
    {
        proof {
            lemma_last_entry_range(self@, asset_id@);
        }
        match self.last_entry_of(asset_id) {
            Some(i) => Some(self.entries[i].family.as_str()),
            None => None,
        }
    }

    fn find(&self, family: &str, target: Option<&str>, w: RoleWanted) -> (r: Option<usize>)
        ensures
            match r {
                Some(i) => first_entry(
                    self@,
                    family@,
                    str_opt_view(target),
                    w,
                    0,
                ) == Some(i as int) && i < self@.len(),
                None => first_entry(
                    self@,
                    family@,
                    str_opt_view(target),
                    w,
                    0,
                ) is None,
            },
    {
        let ghost m = self@;
        let ghost tv = str_opt_view(target);
        let mut k: usize = 0;
        while k < self.entries.len()
            invariant
                m == self@,
                m.len() == self.entries@.len(),
                k <= m.len(),
                tv == str_opt_view(target),
                first_entry(m, family@, tv, w, 0) == first_entry(m, family@, tv, w, k as int),
            decreases m.len() - k,
        {
            let e = &self.entries[k];
            assert(m[k as int] == e@);
            if str_eq(e.family.as_str(), family) && opt_str_eq(&e.transition_to, target) && accepts(e.role, w) {
                return Some(k);
            }
            k = k + 1;
        }
        None
    }

    fn edge_choice(&self, family: &str, target: Option<&str>, d: Direction) -> (r: Option<TerrainChoice>)
        ensures
            choice_view(r) == edge_pick(
                self@,
                family@,
                str_opt_view(target),
                d,
            ),
    {
        match self.find(family, target, RoleWanted::Exactly(TerrainRole::Edge(d))) {
            Some(i) => {
                return Some(TerrainChoice { asset_id: self.entries[i].id.clone(), rotation: 0 });
            },
            None => {},
        }
        match self.find(family, target, RoleWanted::AnyEdge) {
            Some(i) => match self.entries[i].role {
                TerrainRole::Edge(base) => Some(
                    TerrainChoice {
                        asset_id: self.entries[i].id.clone(),
                        rotation: rotation_between_degrees(base.degrees(), d.degrees()),
                    },
                ),
                _ => None,
            },
            None => None,
        }
    }

    fn corner_choice(&self, family: &str, target: Option<&str>, c: Corner) -> (r: Option<TerrainChoice>)
        ensures
            choice_view(r) == corner_pick(
                self@,
                family@,
                str_opt_view(target),
                c,
            ),
    {
        match self.find(family, target, RoleWanted::Exactly(TerrainRole::Corner(c))) {
            Some(i) => {
                return Some(TerrainChoice { asset_id: self.entries[i].id.clone(), rotation: 0 });
            },
            None => {},
        }
        match self.find(family, target, RoleWanted::AnyCorner) {
            Some(i) => match self.entries[i].role {
                TerrainRole::Corner(base) => Some(
                    TerrainChoice {
                        asset_id: self.entries[i].id.clone(),
                        rotation: rotation_between_degrees(base.degrees(), c.degrees()),
                    },
                ),
                _ => None,
            },
            None => None,
        }
    }

    fn corner_or_side_choice(&self, family: &str, target: Option<&str>, c: Corner) -> (r: Option<TerrainChoice>)
        ensures
            choice_view(r) == corner_or_side_pick(
                self@,
                family@,
                str_opt_view(target),
                c,
            ),
    {
        match self.corner_choice(family, target, c) {
            Some(x) => {
                return Some(x);
            },
            None => {},
        }
        let sides = c.edge_fallbacks();
        match self.edge_choice(family, target, sides[0]) {
            Some(x) => Some(x),
            None => self.edge_choice(family, target, sides[1]),
        }
    }

    fn current_center_choice(&self, family: &str, asset_id: &str, current: Option<TerrainRole>) -> (r: Option<TerrainChoice>)
        ensures
            choice_view(r) == current_center_pick(self@, family@, asset_id@, current),
    {
        if current != Some(TerrainRole::Center) {
            return None;
        }
        let ghost m = self@;
        let mut k: usize = 0;
        while k < self.entries.len()
            invariant
                m == self@,
                m.len() == self.entries@.len(),
                k <= m.len(),
                current == Some(TerrainRole::Center),
                forall|j: int| 0 <= j < k ==> !(#[trigger] m[j].0 == asset_id@ && m[j].1 == family@ && m[j].3 is None
                    && m[j].2 == TerrainRole::Center),
            decreases m.len() - k,
        {
            let e = &self.entries[k];
            assert(m[k as int] == e@);
            if str_eq(e.id.as_str(), asset_id) && str_eq(e.family.as_str(), family) && opt_str_eq(&e.transition_to, None)
                && e.role == TerrainRole::Center {
                assert(m[k as int].0 == asset_id@);
                return Some(TerrainChoice { asset_id: asset_id.to_owned(), rotation: 0 });
            }
            k = k + 1;
        }
        None
    }

    fn center_choice(&self, family: &str) -> (r: Option<TerrainChoice>)
        ensures
            choice_view(r) == center_pick(self@, family@),
    {
        match self.find(family, None, RoleWanted::Exactly(TerrainRole::Center)) {
            Some(i) => Some(TerrainChoice { asset_id: self.entries[i].id.clone(), rotation: 0 }),
            None => None,
        }
    }

    fn family_choice(&self, family: &str, asset_id: &str, current: Option<TerrainRole>, role: TerrainRole) -> (r: Option<TerrainChoice>)
        ensures
            choice_view(r) == family_pick(self@, family@, asset_id@, current, role),
    {
        let picked = match role {
            TerrainRole::Center => None,
            TerrainRole::Edge(d) => self.edge_choice(family, None, d),
            TerrainRole::Corner(c) => self.corner_or_side_choice(family, None, c),
        };
        match picked {
            Some(x) => Some(x),
            None => match self.current_center_choice(family, asset_id, current) {
                Some(x) => Some(x),
                None => self.center_choice(family),
            },
        }
    }

    fn transition_choice(&self, source: &str, neighbors: &TerrainNeighborFamilies) -> (r: Option<TerrainChoice>)
        ensures
            choice_view(r) == transition_pick(self@, source@, neighbors@),
    {
        let target = match dominant_transition_target(source, neighbors) {
            Some(t) => t,
            None => {
                return None;
            },
        };
        if self.find(source, Some(target.as_str()), RoleWanted::Any).is_none() {
            return None;
        }
        match transition_role_for_target(source, target.as_str(), neighbors) {
            None => None,
            Some(TerrainRole::Center) => None,
            Some(TerrainRole::Edge(d)) => self.edge_choice(source, Some(target.as_str()), d),
            Some(TerrainRole::Corner(c)) => self.corner_or_side_choice(source, Some(target.as_str()), c),
        }
    }

    /// The tile to paint in place of `asset_id` given the families of its neighbours;
    /// `None` when the asset is not a terrain tile or its family has no tile to offer.
    pub fn choice_for_neighbors(&self, asset_id: &str, neighbors: &TerrainNeighborFamilies) -> (r: Option<TerrainChoice>)
        ensures
            choice_view(r) == terrain_choice(self@, asset_id@, neighbors@),
    {
        proof {
            lemma_last_entry_range(self@, asset_id@);
        }
        let i = match self.last_entry_of(asset_id) {
            Some(i) => i,
            None => {
                return None;
            },
        };
        let family = self.entries[i].family.as_str();
        let current = Some(self.entries[i].role);
        match self.transition_choice(family, neighbors) {
            Some(c) => {
                return Some(c);
            },
            None => {},
        }
        if self.find(family, None, RoleWanted::Any).is_none() {
            return None;
        }
        let mask = TerrainMask {
            north: is_target(&neighbors.north, family),
            east: is_target(&neighbors.east, family),
            south: is_target(&neighbors.south, family),
            west: is_target(&neighbors.west, family),
        };
        self.family_choice(family, asset_id, current, role_for_mask(mask))
    }
}

pub proof fn lemma_last_entry_range(m: Seq<EntryView>, id: Seq<char>)
    ensures
        last_entry(m, id) matches Some(i) ==> 0 <= i < m.len() && m[i].0 == id,
    decreases m.len(),
{
    if m.len() > 0 && m.last().0 != id {
        lemma_last_entry_range(m.drop_last(), id);
    }
}

} // verus!

verus! {

/// A rotation by a whole number of quarter turns, within one full turn.
pub open spec fn quarter_turn(r: i32) -> bool {
    r == 0 || r == 90 || r == 180 || r == 270
}

/// Whether some registered tile has id `a`.
pub open spec fn registered_id(m: Seq<EntryView>, a: Seq<char>) -> bool {
    exists|i: int| 0 <= i < m.len() && #[trigger] m[i].0 == a
}

/// A pick that names a registered tile turned by quarter turns.
pub open spec fn sound_pick(m: Seq<EntryView>, p: Option<(Seq<char>, i32)>) -> bool {
    p matches Some((a, r)) ==> quarter_turn(r) && registered_id(m, a)
}

proof fn lemma_first_entry(m: Seq<EntryView>, family: Seq<char>, target: Option<Seq<char>>, w: RoleWanted, k: int)
    ensures
        first_entry(m, family, target, w, k) matches Some(i) ==> k <= i < m.len() && m[i].1 == family && m[i].3 == target
            && role_accepted(m[i].2, w),
    decreases m.len() - k,
{
    if 0 <= k < m.len() && !(m[k].1 == family && m[k].3 == target && role_accepted(m[k].2, w)) {
        lemma_first_entry(m, family, target, w, k + 1);
    }
}

proof fn lemma_first_entry_found(m: Seq<EntryView>, family: Seq<char>, target: Option<Seq<char>>, w: RoleWanted, k: int, j: int)
    requires
        0 <= k <= j < m.len(),
        m[j].1 == family,
        m[j].3 == target,
        role_accepted(m[j].2, w),
    ensures
        first_entry(m, family, target, w, k) is Some,
    decreases j - k,
{
    if !(m[k].1 == family && m[k].3 == target && role_accepted(m[k].2, w)) {
        lemma_first_entry_found(m, family, target, w, k + 1, j);
    }
}

proof fn lemma_rotation(a: i32, b: i32)
    requires
        quarter_turn(a),
        quarter_turn(b),
    ensures
        quarter_turn(rotation_between(a, b)),
{
}

proof fn lemma_edge_pick(m: Seq<EntryView>, family: Seq<char>, target: Option<Seq<char>>, d: Direction)
    ensures
        sound_pick(m, edge_pick(m, family, target, d)),
{
    lemma_first_entry(m, family, target, RoleWanted::Exactly(TerrainRole::Edge(d)), 0);
    lemma_first_entry(m, family, target, RoleWanted::AnyEdge, 0);
    match first_entry(m, family, target, RoleWanted::Exactly(TerrainRole::Edge(d)), 0) {
        Some(i) => {
            assert(m[i].0 == m[i].0);
        },
        None => match first_entry(m, family, target, RoleWanted::AnyEdge, 0) {
            Some(i) => {
                assert(m[i].0 == m[i].0);
                if let TerrainRole::Edge(b) = m[i].2 {
                    lemma_rotation(direction_degrees(b), direction_degrees(d));
                }
            },
            None => {},
        },
    }
}

proof fn lemma_corner_pick(m: Seq<EntryView>, family: Seq<char>, target: Option<Seq<char>>, c: Corner)
    ensures
        sound_pick(m, corner_pick(m, family, target, c)),
{
    lemma_first_entry(m, family, target, RoleWanted::Exactly(TerrainRole::Corner(c)), 0);
    lemma_first_entry(m, family, target, RoleWanted::AnyCorner, 0);
    match first_entry(m, family, target, RoleWanted::Exactly(TerrainRole::Corner(c)), 0) {
        Some(i) => {
            assert(m[i].0 == m[i].0);
        },
        None => match first_entry(m, family, target, RoleWanted::AnyCorner, 0) {
            Some(i) => {
                assert(m[i].0 == m[i].0);
                if let TerrainRole::Corner(b) = m[i].2 {
                    lemma_rotation(corner_degrees(b), corner_degrees(c));
                }
            },
            None => {},
        },
    }
}

proof fn lemma_corner_or_side_pick(m: Seq<EntryView>, family: Seq<char>, target: Option<Seq<char>>, c: Corner)
    ensures
        sound_pick(m, corner_or_side_pick(m, family, target, c)),
{
    lemma_corner_pick(m, family, target, c);
    lemma_edge_pick(m, family, target, corner_sides(c).0);
    lemma_edge_pick(m, family, target, corner_sides(c).1);
}

proof fn lemma_family_pick(m: Seq<EntryView>, family: Seq<char>, id: Seq<char>, current: Option<TerrainRole>, role: TerrainRole)
    ensures
        sound_pick(m, family_pick(m, family, id, current, role)),
{
    lemma_first_entry(m, family, None, RoleWanted::Exactly(TerrainRole::Center), 0);
    if let Some(i) = first_entry(m, family, None, RoleWanted::Exactly(TerrainRole::Center), 0) {
        assert(m[i].0 == m[i].0);
    }
    match role {
        TerrainRole::Edge(d) => lemma_edge_pick(m, family, None, d),
        TerrainRole::Corner(c) => lemma_corner_or_side_pick(m, family, None, c),
        TerrainRole::Center => {},
    }
}

proof fn lemma_transition_pick(m: Seq<EntryView>, source: Seq<char>, n: NeighborsView)
    ensures
        sound_pick(m, transition_pick(m, source, n)),
{
    if let Some(t) = dominant_target(source, n) {
        match transition_role(source, t, n) {
            Some(TerrainRole::Edge(d)) => lemma_edge_pick(m, source, Some(t), d),
            Some(TerrainRole::Corner(c)) => lemma_corner_or_side_pick(m, source, Some(t), c),
            _ => {},
        }
    }
}

/// Autotiling never invents a tile: whatever it picks is a registered terrain tile,
/// turned by a whole number of quarter turns.
pub proof fn lemma_choice_is_registered_tile(rules: TerrainRules, asset_id: Seq<char>, neighbors: NeighborsView)
    ensures
        terrain_choice(rules@, asset_id, neighbors) matches Some((a, r)) ==> quarter_turn(r) && registered_id(rules@, a),
{
    let m = rules@;
    if let Some(f) = asset_family(m, asset_id) {
        lemma_transition_pick(m, f, neighbors);
        lemma_family_pick(m, f, asset_id, asset_role(m, asset_id), mask_role(mask_of(neighbors, f)));
    }
}

/// Inside a patch whose four neighbours all belong to the tile's family, a centre tile
/// of that family stays as it is, unturned.
pub proof fn lemma_full_patch_keeps_center(rules: TerrainRules, asset_id: Seq<char>, family: Seq<char>)
    requires
        asset_family(rules@, asset_id) == Some(family),
        asset_role(rules@, asset_id) == Some(TerrainRole::Center),
        center_listed(rules@, family, asset_id),
    ensures
        terrain_choice(rules@, asset_id, (Some(family), Some(family), Some(family), Some(family)))
            == Some((asset_id, 0i32)),
{
    let m = rules@;
    let n = (Some(family), Some(family), Some(family), Some(family));
    assert(slots(n)[0] == Some(family));
    assert(slots(n)[1] == Some(family));
    assert(slots(n)[2] == Some(family));
    assert(slots(n)[3] == Some(family));
    assert(dominant_from(family, n, 4, None) is None);
    assert(dominant_from(family, n, 3, None) is None);
    assert(dominant_from(family, n, 2, None) is None);
    assert(dominant_from(family, n, 1, None) is None);
    assert(dominant_target(family, n) is None);
    let i = choose|i: int| 0 <= i < m.len() && #[trigger] m[i].0 == asset_id && m[i].1 == family && m[i].3 is None
        && m[i].2 == TerrainRole::Center;
    lemma_first_entry_found(m, family, None, RoleWanted::Any, 0, i);
    assert(mask_role(mask_of(n, family)) == TerrainRole::Center);
}

/// Whether a foreign family in slots `0..k` outranks `t`.
pub open spec fn outranked_before(source: Seq<char>, n: NeighborsView, t: Seq<char>, k: int) -> bool {
    exists|j: int| 0 <= j < k && #[trigger] foreign_slot(n, source, j) && outranks(n, slots(n)[j]->0, t)
}

proof fn lemma_outranks_asymmetric(n: NeighborsView, a: Seq<char>, b: Seq<char>)
    ensures
        outranks(n, a, b) ==> !outranks(n, b, a),
{
    crate::text::lemma_lex_lt_asymmetric(a, b);
}

proof fn lemma_outranks_transitive(n: NeighborsView, a: Seq<char>, b: Seq<char>, c: Seq<char>)
    requires
        outranks(n, a, b),
        outranks(n, b, c),
    ensures
        outranks(n, a, c),
{
    if slot_count(n, a) == slot_count(n, b) && slot_count(n, b) == slot_count(n, c) {
        crate::text::lemma_lex_lt_transitive(a, b, c);
    }
}

proof fn lemma_dominant_from(source: Seq<char>, n: NeighborsView, k: int, best: Option<Seq<char>>)
    requires
        0 <= k <= 4,
        best matches Some(b) ==> b != source && (exists|j: int| 0 <= j < k && #[trigger] foreign_slot(n, source, j)
            && slots(n)[j]->0 == b) && !outranked_before(source, n, b, k),
        best is None ==> forall|j: int| 0 <= j < k ==> !#[trigger] foreign_slot(n, source, j),
    ensures
        dominant_from(source, n, k, best) matches Some(t) ==> t != source && (exists|j: int| 0 <= j < 4
            && #[trigger] foreign_slot(n, source, j) && slots(n)[j]->0 == t) && !outranked_before(source, n, t, 4),
        dominant_from(source, n, k, best) is None ==> forall|j: int| 0 <= j < 4 ==> !#[trigger] foreign_slot(n, source, j),
    decreases 4 - k,
{
    if k < 4 {
        let next = match slots(n)[k] {
            Some(f) => if f == source {
                best
            } else {
                match best {
                    None => Some(f),
                    Some(b) => if outranks(n, f, b) { Some(f) } else { Some(b) },
                }
            },
            None => best,
        };
        if let Some(f) = slots(n)[k] {
            if f != source {
                assert(foreign_slot(n, source, k));
                match best {
                    None => {
                        assert forall|j: int| 0 <= j < k + 1 && #[trigger] foreign_slot(n, source, j) implies !outranks(
                            n,
                            slots(n)[j]->0,
                            f,
                        ) by {
                            if j == k {
                                lemma_outranks_asymmetric(n, f, f);
                            }
                        }
                    },
                    Some(b) => {
                        if outranks(n, f, b) {
                            assert forall|j: int| 0 <= j < k + 1 && #[trigger] foreign_slot(n, source, j) implies !outranks(
                                n,
                                slots(n)[j]->0,
                                f,
                            ) by {
                                let g = slots(n)[j]->0;
                                if j == k {
                                    lemma_outranks_asymmetric(n, f, f);
                                } else if outranks(n, g, f) {
                                    lemma_outranks_transitive(n, g, f, b);
                                    assert(outranked_before(source, n, b, k));
                                }
                            }
                        } else {
                            assert forall|j: int| 0 <= j < k + 1 && #[trigger] foreign_slot(n, source, j) implies !outranks(
                                n,
                                slots(n)[j]->0,
                                b,
                            ) by {
                                if j < k {
                                    if outranks(n, slots(n)[j]->0, b) {
                                        assert(outranked_before(source, n, b, k));
                                    }
                                }
                            }
                        }
                    },
                }
            }
        }
        lemma_dominant_from(source, n, k + 1, next);
    }
}

/// The family a tile blends into is a neighbour family other than its own, and no
/// other such neighbour family outranks it: none lies on more sides, and of those on
/// as many sides none has an earlier name. There is none only when every neighbour is
/// absent or of the tile's own family.
pub proof fn lemma_dominant_target_outranks_others(source: Seq<char>, neighbors: NeighborsView)
    ensures
        dominant_target(source, neighbors) matches Some(t) ==> t != source && (exists|j: int| 0 <= j < 4
            && #[trigger] foreign_slot(neighbors, source, j) && slots(neighbors)[j]->0 == t)
            && forall|j: int| 0 <= j < 4 && #[trigger] foreign_slot(neighbors, source, j) ==> !outranks(
                neighbors,
                slots(neighbors)[j]->0,
                t,
            ),
        dominant_target(source, neighbors) is None ==> forall|j: int| 0 <= j < 4 ==> !#[trigger] foreign_slot(
            neighbors,
            source,
            j,
        ),
{
    lemma_dominant_from(source, neighbors, 0, None);
    if let Some(t) = dominant_target(source, neighbors) {
        assert forall|j: int| 0 <= j < 4 && #[trigger] foreign_slot(neighbors, source, j) implies !outranks(
            neighbors,
            slots(neighbors)[j]->0,
            t,
        ) by {
            if outranks(neighbors, slots(neighbors)[j]->0, t) {
                assert(outranked_before(source, neighbors, t, 4));
            }
        }
    }
}

/// Whether the mask has a same-family neighbour on side `d`.
pub open spec fn has_side(mask: TerrainMask, d: Direction) -> bool {
    match d {
        Direction::North => mask.north,
        Direction::East => mask.east,
        Direction::South => mask.south,
        Direction::West => mask.west,
    }
}

/// Exactly side `d` is missing from the mask.
pub open spec fn only_missing(mask: TerrainMask, d: Direction) -> bool {
    !has_side(mask, d) && forall|e: Direction| e != d ==> has_side(mask, e)
}

/// Exactly the two sides `a` and `b` are missing from the mask.
pub open spec fn only_missing_pair(mask: TerrainMask, a: Direction, b: Direction) -> bool {
    !has_side(mask, a) && !has_side(mask, b) && forall|e: Direction| e != a && e != b ==> has_side(mask, e)
}

/// The role a mask calls for names its missing sides: an edge faces the one missing side, a
/// corner lies between the two missing sides (which are adjacent), and any other mask (none,
/// two opposite, three or four sides missing) gives a centre.
pub proof fn lemma_mask_role_names_missing_sides(mask: TerrainMask)
    ensures
        forall|d: Direction| #[trigger] mask_role(mask) == TerrainRole::Edge(d) <==> only_missing(mask, d),
        forall|c: Corner| #[trigger] mask_role(mask) == TerrainRole::Corner(c) <==> only_missing_pair(
            mask,
            corner_sides(c).0,
            corner_sides(c).1,
        ),
        mask_role(mask) == TerrainRole::Center <==> (forall|d: Direction| !#[trigger] only_missing(mask, d))
            && (forall|c: Corner| !#[trigger] only_missing_pair(mask, corner_sides(c).0, corner_sides(c).1)),
{
    assert forall|d: Direction| #[trigger] mask_role(mask) == TerrainRole::Edge(d) <==> only_missing(mask, d) by {
        assert(has_side(mask, Direction::North) == mask.north);
        assert(has_side(mask, Direction::East) == mask.east);
        assert(has_side(mask, Direction::South) == mask.south);
        assert(has_side(mask, Direction::West) == mask.west);
        if only_missing(mask, d) {
            assert(d != Direction::North ==> has_side(mask, Direction::North));
            assert(d != Direction::East ==> has_side(mask, Direction::East));
            assert(d != Direction::South ==> has_side(mask, Direction::South));
            assert(d != Direction::West ==> has_side(mask, Direction::West));
        }
        if mask_role(mask) == TerrainRole::Edge(d) {
            assert forall|e: Direction| e != d implies has_side(mask, e) by {
                match e {
                    Direction::North => {},
                    Direction::East => {},
                    Direction::South => {},
                    Direction::West => {},
                }
            }
        }
    }
    assert forall|c: Corner| #[trigger] mask_role(mask) == TerrainRole::Corner(c) <==> only_missing_pair(
        mask,
        corner_sides(c).0,
        corner_sides(c).1,
    ) by {
        let (a, b) = corner_sides(c);
        if only_missing_pair(mask, a, b) {
            assert(a != Direction::North && b != Direction::North ==> has_side(mask, Direction::North));
            assert(a != Direction::East && b != Direction::East ==> has_side(mask, Direction::East));
            assert(a != Direction::South && b != Direction::South ==> has_side(mask, Direction::South));
            assert(a != Direction::West && b != Direction::West ==> has_side(mask, Direction::West));
        }
        if mask_role(mask) == TerrainRole::Corner(c) {
            assert forall|e: Direction| e != a && e != b implies has_side(mask, e) by {
                match e {
                    Direction::North => {},
                    Direction::East => {},
                    Direction::South => {},
                    Direction::West => {},
                }
            }
        }
    }
    if mask_role(mask) == TerrainRole::Center {
        assert forall|d: Direction| !#[trigger] only_missing(mask, d) by {
            if only_missing(mask, d) {
                assert(d != Direction::North ==> has_side(mask, Direction::North));
                assert(d != Direction::East ==> has_side(mask, Direction::East));
                assert(d != Direction::South ==> has_side(mask, Direction::South));
                assert(d != Direction::West ==> has_side(mask, Direction::West));
            }
        }
        assert forall|c: Corner| !#[trigger] only_missing_pair(mask, corner_sides(c).0, corner_sides(c).1) by {
            let (a, b) = corner_sides(c);
            if only_missing_pair(mask, a, b) {
                assert(a != Direction::North && b != Direction::North ==> has_side(mask, Direction::North));
                assert(a != Direction::East && b != Direction::East ==> has_side(mask, Direction::East));
                assert(a != Direction::South && b != Direction::South ==> has_side(mask, Direction::South));
                assert(a != Direction::West && b != Direction::West ==> has_side(mask, Direction::West));
            }
        }
    } else {
        match mask_role(mask) {
            TerrainRole::Edge(d) => {
                assert(mask_role(mask) == TerrainRole::Edge(d));
                assert(only_missing(mask, d));
            },
            TerrainRole::Corner(c) => {
                assert(mask_role(mask) == TerrainRole::Corner(c));
                assert(only_missing_pair(mask, corner_sides(c).0, corner_sides(c).1));
            },
            TerrainRole::Center => {},
        }
    }
}

} // verus!
