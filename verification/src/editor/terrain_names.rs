use vstd::prelude::*;

use crate::assets::AssetKind;
use crate::text::{
    ascii_lower, cat2, ends, replace_char, replaced, starts, str_eq, strip_all_prefix, strip_prefix, strip_suffix,
    to_ascii_lowercase, trim, trim_char, trim_matches, trim_start_matches, trimmed,
};

verus! {

/// A side of a tile.
#[derive(Clone, Copy, Debug, PartialEq, Eq, Structural)]
pub enum Direction {
    North,
    East,
    South,
    West,
}

/// A corner of a tile.
#[derive(Clone, Copy, Debug, PartialEq, Eq, Structural)]
pub enum Corner {
    NorthEast,
    SouthEast,
    SouthWest,
    NorthWest,
}

/// The part a tile plays in a terrain patch.
#[derive(Clone, Copy, Debug, PartialEq, Eq, Structural)]
pub enum TerrainRole {
    Center,
    Edge(Direction),
    Corner(Corner),
}

pub open spec fn direction_degrees(d: Direction) -> i32 {
    match d {
        Direction::North => 0,
        Direction::East => 90,
        Direction::South => 180,
        Direction::West => 270,
    }
}

pub open spec fn corner_degrees(c: Corner) -> i32 {
    match c {
        Corner::NorthEast => 0,
        Corner::SouthEast => 90,
        Corner::SouthWest => 180,
        Corner::NorthWest => 270,
    }
}

/// The two sides next to a corner, the vertical one first.
pub open spec fn corner_sides(c: Corner) -> (Direction, Direction) {
    match c {
        Corner::NorthEast => (Direction::North, Direction::East),
        Corner::SouthEast => (Direction::South, Direction::East),
        Corner::SouthWest => (Direction::South, Direction::West),
        Corner::NorthWest => (Direction::North, Direction::West),
    }
}

impl Direction {
    /// Clockwise angle from north.
    pub fn degrees(self) -> (r: i32)
        ensures
            r == direction_degrees(self),
    {
        match self {
            Direction::North => 0,
            Direction::East => 90,
            Direction::South => 180,
            Direction::West => 270,
        }
    }
}

impl Corner {
    /// Clockwise angle from the north-east corner.
    pub fn degrees(self) -> (r: i32)
        ensures
            r == corner_degrees(self),
    {
        match self {
            Corner::NorthEast => 0,
            Corner::SouthEast => 90,
            Corner::SouthWest => 180,
            Corner::NorthWest => 270,
        }
    }

    /// The sides whose edge tile may stand in for this corner, in the order tried.
    pub fn edge_fallbacks(self) -> (r: [Direction; 2])
        ensures
            r[0] == corner_sides(self).0,
            r[1] == corner_sides(self).1,
    {
        match self {
            Corner::NorthEast => [Direction::North, Direction::East],
            Corner::SouthEast => [Direction::South, Direction::East],
            Corner::SouthWest => [Direction::South, Direction::West],
            Corner::NorthWest => [Direction::North, Direction::West],
        }
    }
}

/// The role that a bare role word names.
pub open spec fn role_word(t: Seq<char>) -> Option<TerrainRole> {
    if t == "center"@ || t == "middle"@ || t == "ground"@ || t == "floor"@ || t == "base"@ {
        Some(TerrainRole::Center)
    } else if t == "n"@ || t == "north"@ || t == "top"@ {
        Some(TerrainRole::Edge(Direction::North))
    } else if t == "e"@ || t == "east"@ || t == "right"@ {
        Some(TerrainRole::Edge(Direction::East))
    } else if t == "s"@ || t == "south"@ || t == "bottom"@ {
        Some(TerrainRole::Edge(Direction::South))
    } else if t == "w"@ || t == "west"@ || t == "left"@ {
        Some(TerrainRole::Edge(Direction::West))
    } else if t == "ne"@ || t == "north_east"@ || t == "top_right"@ {
        Some(TerrainRole::Corner(Corner::NorthEast))
    } else if t == "se"@ || t == "south_east"@ || t == "bottom_right"@ {
        Some(TerrainRole::Corner(Corner::SouthEast))
    } else if t == "sw"@ || t == "south_west"@ || t == "bottom_left"@ {
        Some(TerrainRole::Corner(Corner::SouthWest))
    } else if t == "nw"@ || t == "north_west"@ || t == "top_left"@ {
        Some(TerrainRole::Corner(Corner::NorthWest))
    } else {
        None
    }
}

fn role_word_of(t: &str) -> (r: Option<TerrainRole>)
    ensures
        r == role_word(t@),
{
    if str_eq(t, "center") || str_eq(t, "middle") || str_eq(t, "ground") || str_eq(t, "floor") || str_eq(t, "base") {
        Some(TerrainRole::Center)
    } else if str_eq(t, "n") || str_eq(t, "north") || str_eq(t, "top") {
        Some(TerrainRole::Edge(Direction::North))
    } else if str_eq(t, "e") || str_eq(t, "east") || str_eq(t, "right") {
        Some(TerrainRole::Edge(Direction::East))
    } else if str_eq(t, "s") || str_eq(t, "south") || str_eq(t, "bottom") {
        Some(TerrainRole::Edge(Direction::South))
    } else if str_eq(t, "w") || str_eq(t, "west") || str_eq(t, "left") {
        Some(TerrainRole::Edge(Direction::West))
    } else if str_eq(t, "ne") || str_eq(t, "north_east") || str_eq(t, "top_right") {
        Some(TerrainRole::Corner(Corner::NorthEast))
    } else if str_eq(t, "se") || str_eq(t, "south_east") || str_eq(t, "bottom_right") {
        Some(TerrainRole::Corner(Corner::SouthEast))
    } else if str_eq(t, "sw") || str_eq(t, "south_west") || str_eq(t, "bottom_left") {
        Some(TerrainRole::Corner(Corner::SouthWest))
    } else if str_eq(t, "nw") || str_eq(t, "north_west") || str_eq(t, "top_left") {
        Some(TerrainRole::Corner(Corner::NorthWest))
    } else {
        None
    }
}

/// A token lower-cased and stripped of the decorations `outer_`, `inner_`, `edge_`,
/// `corner_`, `side_` and `cap_`, each removed as often as it repeats, in that order.
pub open spec fn bare_role_token(t: Seq<char>) -> Seq<char> {
    strip_all_prefix(
        strip_all_prefix(
            strip_all_prefix(
                strip_all_prefix(strip_all_prefix(strip_all_prefix(ascii_lower(t), "outer_"@), "inner_"@), "edge_"@),
                "corner_"@,
            ),
            "side_"@,
        ),
        "cap_"@,
    )
}

/// The role a name token stands for, if any.
pub open spec fn token_role(t: Seq<char>) -> Option<TerrainRole> {
    role_word(bare_role_token(t))
}

/// The role that a token of a tile name or of a role tag names.
pub fn role_from_token(token: &str) -> (r: Option<TerrainRole>)
    ensures
        r == token_role(token@),
{
    let lower = to_ascii_lowercase(token);
    proof {
        reveal_strlit("outer_");
        reveal_strlit("inner_");
        reveal_strlit("edge_");
        reveal_strlit("corner_");
        reveal_strlit("side_");
        reveal_strlit("cap_");
    }
    let t = trim_start_matches(lower.as_str(), "outer_");
    let t = trim_start_matches(t, "inner_");
    let t = trim_start_matches(t, "edge_");
    let t = trim_start_matches(t, "corner_");
    let t = trim_start_matches(t, "side_");
    let t = trim_start_matches(t, "cap_");
    role_word_of(t)
}

/// Name endings that give a tile's role, in the order they are tried.
pub open spec fn role_suffix_table() -> Seq<(&'static str, TerrainRole)> {
    seq![
        ("_edge_n", TerrainRole::Edge(Direction::North)),
        ("_edge_north", TerrainRole::Edge(Direction::North)),
        ("_edge_top", TerrainRole::Edge(Direction::North)),
        ("_side_n", TerrainRole::Edge(Direction::North)),
        ("_side_north", TerrainRole::Edge(Direction::North)),
        ("_top_edge", TerrainRole::Edge(Direction::North)),
        ("_edge_e", TerrainRole::Edge(Direction::East)),
        ("_edge_east", TerrainRole::Edge(Direction::East)),
        ("_edge_right", TerrainRole::Edge(Direction::East)),
        ("_side_e", TerrainRole::Edge(Direction::East)),
        ("_side_east", TerrainRole::Edge(Direction::East)),
        ("_right_edge", TerrainRole::Edge(Direction::East)),
        ("_edge_s", TerrainRole::Edge(Direction::South)),
        ("_edge_south", TerrainRole::Edge(Direction::South)),
        ("_edge_bottom", TerrainRole::Edge(Direction::South)),
        ("_side_s", TerrainRole::Edge(Direction::South)),
        ("_side_south", TerrainRole::Edge(Direction::South)),
        ("_bottom_edge", TerrainRole::Edge(Direction::South)),
        ("_edge_w", TerrainRole::Edge(Direction::West)),
        ("_edge_west", TerrainRole::Edge(Direction::West)),
        ("_edge_left", TerrainRole::Edge(Direction::West)),
        ("_side_w", TerrainRole::Edge(Direction::West)),
        ("_side_west", TerrainRole::Edge(Direction::West)),
        ("_left_edge", TerrainRole::Edge(Direction::West)),
        ("_corner_ne", TerrainRole::Corner(Corner::NorthEast)),
        ("_corner_north_east", TerrainRole::Corner(Corner::NorthEast)),
        ("_corner_top_right", TerrainRole::Corner(Corner::NorthEast)),
        ("_outer_ne", TerrainRole::Corner(Corner::NorthEast)),
        ("_inner_ne", TerrainRole::Corner(Corner::NorthEast)),
        ("_corner_se", TerrainRole::Corner(Corner::SouthEast)),
        ("_corner_south_east", TerrainRole::Corner(Corner::SouthEast)),
        ("_corner_bottom_right", TerrainRole::Corner(Corner::SouthEast)),
        ("_outer_se", TerrainRole::Corner(Corner::SouthEast)),
        ("_inner_se", TerrainRole::Corner(Corner::SouthEast)),
        ("_corner_sw", TerrainRole::Corner(Corner::SouthWest)),
        ("_corner_south_west", TerrainRole::Corner(Corner::SouthWest)),
        ("_corner_bottom_left", TerrainRole::Corner(Corner::SouthWest)),
        ("_outer_sw", TerrainRole::Corner(Corner::SouthWest)),
        ("_inner_sw", TerrainRole::Corner(Corner::SouthWest)),
        ("_corner_nw", TerrainRole::Corner(Corner::NorthWest)),
        ("_corner_north_west", TerrainRole::Corner(Corner::NorthWest)),
        ("_corner_top_left", TerrainRole::Corner(Corner::NorthWest)),
        ("_outer_nw", TerrainRole::Corner(Corner::NorthWest)),
        ("_inner_nw", TerrainRole::Corner(Corner::NorthWest)),
    ]
}

/// Name endings of a plain centre tile, in the order they are tried.
pub open spec fn center_suffix_table() -> Seq<(&'static str, TerrainRole)> {
    seq![
        ("_ground", TerrainRole::Center),
        ("_floor", TerrainRole::Center),
        ("_center", TerrainRole::Center),
        ("_middle", TerrainRole::Center),
        ("_base", TerrainRole::Center),
        ("_tile", TerrainRole::Center),
    ]
}

fn role_suffixes() -> (r: [(&'static str, TerrainRole); 44])
    ensures
        r@ == role_suffix_table(),
{
    let r = [
        ("_edge_n", TerrainRole::Edge(Direction::North)),
        ("_edge_north", TerrainRole::Edge(Direction::North)),
        ("_edge_top", TerrainRole::Edge(Direction::North)),
        ("_side_n", TerrainRole::Edge(Direction::North)),
        ("_side_north", TerrainRole::Edge(Direction::North)),
        ("_top_edge", TerrainRole::Edge(Direction::North)),
        ("_edge_e", TerrainRole::Edge(Direction::East)),
        ("_edge_east", TerrainRole::Edge(Direction::East)),
        ("_edge_right", TerrainRole::Edge(Direction::East)),
        ("_side_e", TerrainRole::Edge(Direction::East)),
        ("_side_east", TerrainRole::Edge(Direction::East)),
        ("_right_edge", TerrainRole::Edge(Direction::East)),
        ("_edge_s", TerrainRole::Edge(Direction::South)),
        ("_edge_south", TerrainRole::Edge(Direction::South)),
        ("_edge_bottom", TerrainRole::Edge(Direction::South)),
        ("_side_s", TerrainRole::Edge(Direction::South)),
        ("_side_south", TerrainRole::Edge(Direction::South)),
        ("_bottom_edge", TerrainRole::Edge(Direction::South)),
        ("_edge_w", TerrainRole::Edge(Direction::West)),
        ("_edge_west", TerrainRole::Edge(Direction::West)),
        ("_edge_left", TerrainRole::Edge(Direction::West)),
        ("_side_w", TerrainRole::Edge(Direction::West)),
        ("_side_west", TerrainRole::Edge(Direction::West)),
        ("_left_edge", TerrainRole::Edge(Direction::West)),
        ("_corner_ne", TerrainRole::Corner(Corner::NorthEast)),
        ("_corner_north_east", TerrainRole::Corner(Corner::NorthEast)),
        ("_corner_top_right", TerrainRole::Corner(Corner::NorthEast)),
        ("_outer_ne", TerrainRole::Corner(Corner::NorthEast)),
        ("_inner_ne", TerrainRole::Corner(Corner::NorthEast)),
        ("_corner_se", TerrainRole::Corner(Corner::SouthEast)),
        ("_corner_south_east", TerrainRole::Corner(Corner::SouthEast)),
        ("_corner_bottom_right", TerrainRole::Corner(Corner::SouthEast)),
        ("_outer_se", TerrainRole::Corner(Corner::SouthEast)),
        ("_inner_se", TerrainRole::Corner(Corner::SouthEast)),
        ("_corner_sw", TerrainRole::Corner(Corner::SouthWest)),
        ("_corner_south_west", TerrainRole::Corner(Corner::SouthWest)),
        ("_corner_bottom_left", TerrainRole::Corner(Corner::SouthWest)),
        ("_outer_sw", TerrainRole::Corner(Corner::SouthWest)),
        ("_inner_sw", TerrainRole::Corner(Corner::SouthWest)),
        ("_corner_nw", TerrainRole::Corner(Corner::NorthWest)),
        ("_corner_north_west", TerrainRole::Corner(Corner::NorthWest)),
        ("_corner_top_left", TerrainRole::Corner(Corner::NorthWest)),
        ("_outer_nw", TerrainRole::Corner(Corner::NorthWest)),
        ("_inner_nw", TerrainRole::Corner(Corner::NorthWest)),
    ];
    assert(r@ =~= role_suffix_table());
    r
}

fn center_suffixes() -> (r: [(&'static str, TerrainRole); 6])
    ensures
        r@ == center_suffix_table(),
{
    let r = [
        ("_ground", TerrainRole::Center),
        ("_floor", TerrainRole::Center),
        ("_center", TerrainRole::Center),
        ("_middle", TerrainRole::Center),
        ("_base", TerrainRole::Center),
        ("_tile", TerrainRole::Center),
    ];
    assert(r@ =~= center_suffix_table());
    r
}

/// The first ending of `table`, from entry `k` on, that `name` ends with: the name
/// without it, and the ending's role.
pub open spec fn suffix_match(name: Seq<char>, table: Seq<(&'static str, TerrainRole)>, k: int) -> Option<(Seq<char>, TerrainRole)>
    decreases table.len() - k,
{
    if k < 0 || k >= table.len() {
        None
    } else if ends(name, table[k].0@) {
        Some((name.subrange(0, name.len() - table[k].0@.len()), table[k].1))
    } else {
        suffix_match(name, table, k + 1)
    }
}

fn find_suffix<const N: usize>(name: &str, table: &[(&'static str, TerrainRole); N]) -> (r: Option<(String, TerrainRole)>)
    ensures
        match r {
            Some((f, role)) => suffix_match(name@, table@, 0) == Some((f@, role)),
            None => suffix_match(name@, table@, 0) is None,
        },
{
    let mut k: usize = 0;
    while k < N
        invariant
            k <= N,
            N == table@.len(),
            suffix_match(name@, table@, 0) == suffix_match(name@, table@, k as int),
        decreases N - k,
    {
        let (suffix, role) = table[k];
        match strip_suffix(name, suffix) {
            Some(family) => {
                return Some((family.to_owned(), role));
            },
            None => {},
        }
        k = k + 1;
    }
    None
}

/// Index of the first `_` at or after `i` (or `s.len()`).
pub open spec fn next_sep(s: Seq<char>, i: int) -> int
    decreases s.len() - i,
{
    if i < 0 || i >= s.len() {
        s.len() as int
    } else if s[i] == '_' {
        i
    } else {
        next_sep(s, i + 1)
    }
}

pub proof fn lemma_next_sep(s: Seq<char>, i: int)
    requires
        0 <= i <= s.len(),
    ensures
        i <= next_sep(s, i) <= s.len(),
    decreases s.len() - i,
{
    if i < s.len() && s[i] != '_' {
        lemma_next_sep(s, i + 1);
    }
}

/// The first `_`-separated token of `s`, from the token starting at `i` on, that names
/// a role: where it starts, and the role.
pub open spec fn token_role_from(s: Seq<char>, i: int) -> Option<(int, TerrainRole)>
    decreases s.len() - i,
{
    if i < 0 || i > s.len() {
        None
    } else {
        let e = next_sep(s, i);
        match token_role(s.subrange(i, e)) {
            Some(r) => Some((i, r)),
            None => if e >= s.len() {
                None
            } else {
                proof {
                    lemma_next_sep(s, i);
                }
                token_role_from(s, e + 1)
            },
        }
    }
}

/// The family and the role read off a tile name: a known role ending, else the
/// first token that names a role (the family being the tokens before it), else a
/// plain centre ending, else the whole name as a centre tile.
pub open spec fn infer_family_and_role(name: Seq<char>) -> (Seq<char>, TerrainRole) {
    let n = ascii_lower(name);
    match suffix_match(n, role_suffix_table(), 0) {
        Some(m) => m,
        None => match token_role_from(n, 0) {
            Some((i, r)) => (if i == 0 { Seq::empty() } else { n.subrange(0, i - 1) }, r),
            None => match suffix_match(n, center_suffix_table(), 0) {
                Some(m) => m,
                None => (n, TerrainRole::Center),
            },
        },
    }
}

fn first_role_token(s: &str) -> (r: Option<(usize, TerrainRole)>)
    ensures
        match r {
            Some((i, role)) => token_role_from(s@, 0) == Some((i as int, role)) && i <= s@.len(),
            None => token_role_from(s@, 0) is None,
        },
{
    let n = s.unicode_len();
    let mut i: usize = 0;
    while i <= n
        invariant
            n == s@.len(),
            i <= n + 1,
            token_role_from(s@, 0) == token_role_from(s@, i as int),
        decreases n + 1 - i,
    {
        let mut e: usize = i;
        while e < n && s.get_char(e) != '_'
            invariant
                n == s@.len(),
                i <= e <= n,
                next_sep(s@, i as int) == next_sep(s@, e as int),
            decreases n - e,
        {
            e = e + 1;
        }
        proof {
            lemma_next_sep(s@, i as int);
        }
        match role_from_token(s.substring_char(i, e)) {
            Some(role) => {
                return Some((i, role));
            },
            None => {},
        }
        if e >= n {
            return None;
        }
        i = e + 1;
    }
    None
}

/// Reads a family and a role off a tile name.
pub fn infer_family_and_role_of(name: &str) -> (r: (String, TerrainRole))
    ensures
        (r.0@, r.1) == infer_family_and_role(name@),
{
    let n = to_ascii_lowercase(name);
    let table = role_suffixes();
    match find_suffix(n.as_str(), &table) {
        Some(m) => {
            return m;
        },
        None => {},
    }
    match first_role_token(n.as_str()) {
        Some((i, role)) => {
            if i == 0 {
                return (String::new(), role);
            } else {
                return (n.as_str().substring_char(0, i - 1).to_owned(), role);
            }
        },
        None => {},
    }
    let centers = center_suffixes();
    match find_suffix(n.as_str(), &centers) {
        Some(m) => m,
        None => (n, TerrainRole::Center),
    }
}

/// A tile id without its `ow_tile_` and `tile_` prefixes, lower-cased.
pub open spec fn inferred_terrain_name(id: Seq<char>) -> Seq<char> {
    ascii_lower(strip_all_prefix(strip_all_prefix(id, "ow_tile_"@), "tile_"@))
}

fn inferred_terrain_name_of(id: &str) -> (r: String)
    ensures
        r@ == inferred_terrain_name(id@),
{
    proof {
        reveal_strlit("ow_tile_");
        reveal_strlit("tile_");
    }
    let t = trim_start_matches(id, "ow_tile_");
    let t = trim_start_matches(t, "tile_");
    to_ascii_lowercase(t)
}

/// A family id in canonical form: trimmed, without surrounding `_`, lower-cased,
/// `-` written as `_`, and without a leading `t32_` or `terrain32_`.
pub open spec fn normalized_family(value: Seq<char>) -> Seq<char> {
    let v = replaced(ascii_lower(trim_char(trimmed(value), '_')), '-', "_"@);
    if starts(v, "t32_"@) {
        v.skip("t32_"@.len() as int)
    } else if starts(v, "terrain32_"@) {
        v.skip("terrain32_"@.len() as int)
    } else {
        v
    }
}

/// Puts a family id in canonical form.
pub fn normalize_family_id(value: &str) -> (r: String)
    ensures
        r@ == normalized_family(value@),
{
    let t = trim(value);
    let t = trim_matches(t, '_');
    let lower = to_ascii_lowercase(t);
    let v = replace_char(lower.as_str(), '-', "_");
    match strip_prefix(v.as_str(), "t32_") {
        Some(rest) => rest.to_owned(),
        None => match strip_prefix(v.as_str(), "terrain32_") {
            Some(rest) => rest.to_owned(),
            None => v,
        },
    }
}

/// The value of a `key:value` or `key=value` tag, trimmed, when it is not blank.
pub open spec fn tag_value(tag: Seq<char>, key: Seq<char>) -> Option<Seq<char>> {
    let rest = if starts(tag, key + ":"@) {
        Some(tag.skip((key + ":"@).len() as int))
    } else if starts(tag, key + "="@) {
        Some(tag.skip((key + "="@).len() as int))
    } else {
        None
    };
    match rest {
        Some(r) => if trimmed(r).len() > 0 {
            Some(trimmed(r))
        } else {
            None
        },
        None => None,
    }
}

pub open spec fn str_opt_view(o: Option<&str>) -> Option<Seq<char>> {
    match o {
        Some(s) => Some(s@),
        None => None,
    }
}

/// The value that `tag` gives to `key`, if any.
pub fn terrain_tag_value<'a>(tag: &'a str, key: &str) -> (r: Option<&'a str>)
    ensures
        str_opt_view(r) == tag_value(tag@, key@),
{
    let colon = cat2(key, ":");
    let equals = cat2(key, "=");
    let rest = match strip_prefix(tag, colon.as_str()) {
        Some(r) => Some(r),
        None => strip_prefix(tag, equals.as_str()),
    };
    match rest {
        Some(r) => {
            let t = trim(r);
            if t.unicode_len() > 0 {
                Some(t)
            } else {
                None
            }
        },
        None => None,
    }
}

/// The role a `terrain_role:` (or else `role:`) tag gives.
pub open spec fn role_tag(tag: Seq<char>) -> Option<TerrainRole> {
    match tag_value(tag, "terrain_role"@) {
        Some(v) => token_role(v),
        None => match tag_value(tag, "role"@) {
            Some(v) => token_role(v),
            None => None,
        },
    }
}

/// The role that a role tag gives, if it is one.
pub fn terrain_role_tag(tag: &str) -> (r: Option<TerrainRole>)
    ensures
        r == role_tag(tag@),
{
    let value = match terrain_tag_value(tag, "terrain_role") {
        Some(v) => v,
        None => match terrain_tag_value(tag, "role") {
            Some(v) => v,
            None => {
                return None;
            },
        },
    };
    role_from_token(value)
}

pub open spec fn tag_views(tags: Seq<String>) -> Seq<Seq<char>> {
    tags.map_values(|t: String| t@)
}

/// The value of the first tag, from `k` on, that gives `key` a value.
pub open spec fn first_tag_value(tags: Seq<Seq<char>>, key: Seq<char>, k: int) -> Option<Seq<char>>
    decreases tags.len() - k,
{
    if k < 0 || k >= tags.len() {
        None
    } else {
        match tag_value(tags[k], key) {
            Some(v) => Some(v),
            None => first_tag_value(tags, key, k + 1),
        }
    }
}

/// The role of the first tag, from `k` on, that is a role tag.
pub open spec fn first_role_tag(tags: Seq<Seq<char>>, k: int) -> Option<TerrainRole>
    decreases tags.len() - k,
{
    if k < 0 || k >= tags.len() {
        None
    } else {
        match role_tag(tags[k]) {
            Some(r) => Some(r),
            None => first_role_tag(tags, k + 1),
        }
    }
}

fn find_tag_value<'a>(tags: &'a Vec<String>, key: &str) -> (r: Option<&'a str>)
    ensures
        str_opt_view(r) == first_tag_value(tag_views(tags@), key@, 0),
{
    let ghost views = tag_views(tags@);
    let mut k: usize = 0;
    while k < tags.len()
        invariant
            views == tag_views(tags@),
            k <= tags@.len(),
            first_tag_value(views, key@, 0) == first_tag_value(views, key@, k as int),
        decreases tags@.len() - k,
    {
        match terrain_tag_value(tags[k].as_str(), key) {
            Some(v) => {
                return Some(v);
            },
            None => {},
        }
        k = k + 1;
    }
    None
}

fn find_role_tag(tags: &Vec<String>) -> (r: Option<TerrainRole>)
    ensures
        r == first_role_tag(tag_views(tags@), 0),
{
    let ghost views = tag_views(tags@);
    let mut k: usize = 0;
    while k < tags.len()
        invariant
            views == tag_views(tags@),
            k <= tags@.len(),
            first_role_tag(views, 0) == first_role_tag(views, k as int),
        decreases tags@.len() - k,
    {
        match terrain_role_tag(tags[k].as_str()) {
            Some(r) => {
                return Some(r);
            },
            None => {},
        }
        k = k + 1;
    }
    None
}

/// A tile asset, as terrain painting reads it.
#[derive(Clone, Debug)]
pub struct TerrainAsset {
    pub id: String,
    pub kind: AssetKind,
    pub tags: Vec<String>,
}

/// How a tile asset takes part in terrain painting: its family, its role, and the
/// family it blends into when it is a transition tile.
#[derive(Clone, Debug)]
pub struct TerrainClassification {
    pub family: String,
    pub role: TerrainRole,
    pub transition_to: Option<String>,
}

pub open spec fn string_opt_view(o: Option<String>) -> Option<Seq<char>> {
    match o {
        Some(s) => Some(s@),
        None => None,
    }
}

impl View for TerrainClassification {
    type V = (Seq<char>, TerrainRole, Option<Seq<char>>);

    open spec fn view(&self) -> (Seq<char>, TerrainRole, Option<Seq<char>>) {
        (self.family@, self.role, string_opt_view(self.transition_to))
    }
}

/// How a tile takes part in terrain painting, if it does. The family comes from the
/// first `transition_from:` tag, else `material:`, else `terrain:`, else the tile's
/// name; the role from the first role tag, else the name; assets other than tiles,
/// and tiles whose family comes out empty, take no part.
pub open spec fn classify(id: Seq<char>, kind: AssetKind, tags: Seq<Seq<char>>) -> Option<(Seq<char>, TerrainRole, Option<Seq<char>>)> {
    if kind != AssetKind::Tile {
        None
    } else {
        let material = first_tag_value(tags, "material"@, 0);
        let explicit = first_tag_value(tags, "terrain"@, 0);
        let from = first_tag_value(tags, "transition_from"@, 0);
        let to = first_tag_value(tags, "transition_to"@, 0);
        let inferred = infer_family_and_role(inferred_terrain_name(id));
        let raw = match from {
            Some(f) => f,
            None => match material {
                Some(m) => m,
                None => match explicit {
                    Some(e) => e,
                    None => inferred.0,
                },
            },
        };
        let family = normalized_family(trim_char(raw, '_'));
        if family.len() == 0 {
            None
        } else {
            Some((
                family,
                match first_role_tag(tags, 0) {
                    Some(r) => r,
                    None => inferred.1,
                },
                match to {
                    Some(t) => Some(normalized_family(t)),
                    None => None,
                },
            ))
        }
    }
}

/// Classifies a tile asset for terrain painting.
pub fn classify_asset(asset: &TerrainAsset) -> (r: Option<TerrainClassification>)
    ensures
        match r {
            Some(c) => classify(asset.id@, asset.kind, tag_views(asset.tags@)) == Some(c@),
            None => classify(asset.id@, asset.kind, tag_views(asset.tags@)) is None,
        },
{
    match asset.kind {
        AssetKind::Tile => {},
        _ => {
            return None;
        },
    }
    let material = find_tag_value(&asset.tags, "material");
    let explicit = find_tag_value(&asset.tags, "terrain");
    let from = find_tag_value(&asset.tags, "transition_from");
    let to = find_tag_value(&asset.tags, "transition_to");
    let explicit_role = find_role_tag(&asset.tags);
    let name = inferred_terrain_name_of(asset.id.as_str());
    let (inferred_family, inferred_role) = infer_family_and_role_of(name.as_str());
    let raw: &str = match from {
        Some(f) => f,
        None => match material {
            Some(m) => m,
            None => match explicit {
                Some(e) => e,
                None => inferred_family.as_str(),
            },
        },
    };
    let family = normalize_family_id(trim_matches(raw, '_'));
    if family.unicode_len() == 0 {
        return None;
    }
    let role = match explicit_role {
        Some(r) => r,
        None => inferred_role,
    };
    let transition_to = match to {
        Some(t) => Some(normalize_family_id(t)),
        None => None,
    };
    Some(TerrainClassification { family, role, transition_to })
}

} // verus!
