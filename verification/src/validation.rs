use vstd::prelude::*;

use crate::assets::{AssetDatabase, AssetDefinition, AssetKind};
use crate::codex::CodexDatabase;
use crate::map::{layer_label, LayerKind, TileInstance, TransitionTarget, UnlockRule};
use crate::text::{
    blank, cat2, cat3, cat4, cat5, contains_whitespace, ends, ends_with, eq_ascii_ci, eq_ignore_ascii_case,
    has_ws, is_blank, list_contains, signed_dec, signed_decimal, str_eq, trim, trimmed,
};

verus! {

#[derive(Clone, Copy, Debug, PartialEq, Eq)]
pub enum MapValidationSeverity {
    Error,
    Warning,
}

/// A problem found in a map.
#[derive(Clone, Debug, PartialEq, Eq)]
pub struct MapValidationIssue {
    pub severity: MapValidationSeverity,
    pub message: String,
}

impl View for MapValidationIssue {
    type V = (MapValidationSeverity, Seq<char>);

    open spec fn view(&self) -> (MapValidationSeverity, Seq<char>) {
        (self.severity, self.message@)
    }
}

impl MapValidationIssue {
    fn error(message: String) -> (r: Self)
        ensures
            r@ == (MapValidationSeverity::Error, message@),
    {
        MapValidationIssue { severity: MapValidationSeverity::Error, message }
    }

    fn warning(message: String) -> (r: Self)
        ensures
            r@ == (MapValidationSeverity::Warning, message@),
    {
        MapValidationIssue { severity: MapValidationSeverity::Warning, message }
    }
}

pub open spec fn views(s: Seq<MapValidationIssue>) -> Seq<(MapValidationSeverity, Seq<char>)> {
    s.map_values(|i: MapValidationIssue| i@)
}

pub open spec fn merr(m: Seq<char>) -> Seq<(MapValidationSeverity, Seq<char>)> {
    seq![(MapValidationSeverity::Error, m)]
}

pub open spec fn mwarn(m: Seq<char>) -> Seq<(MapValidationSeverity, Seq<char>)> {
    seq![(MapValidationSeverity::Warning, m)]
}

pub open spec fn mnone() -> Seq<(MapValidationSeverity, Seq<char>)> {
    Seq::empty()
}

fn push(issues: &mut Vec<MapValidationIssue>, issue: MapValidationIssue)
    ensures
        views(final(issues)@) == views(old(issues)@) + seq![issue@],
{
    issues.push(issue);
    assert(views(issues@) =~= views(old(issues)@) + seq![issue@]);
}

/// The text of an optional field, trimmed, when it is present and not blank.
pub open spec fn present(o: Option<String>) -> Option<Seq<char>> {
    match o {
        Some(v) => if blank(v@) {
            None
        } else {
            Some(trimmed(v@))
        },
        None => None,
    }
}

fn present_exec(o: &Option<String>) -> (r: Option<&str>)
    ensures
        (match r {
            Some(s) => Some(s@),
            None => None,
        }) == present(*o),
{
    match o {
        Some(v) => {
            if is_blank(v.as_str()) {
                None
            } else {
                Some(trim(v.as_str()))
            }
        },
        None => None,
    }
}

/// Issues of a reference to codex entry `codex_id`.
pub open spec fn codex_ref_issues(codex_id: Seq<char>, codex: Option<&CodexDatabase>) -> Seq<(MapValidationSeverity, Seq<char>)> {
    match codex {
        None => mnone(),
        Some(db) => match db.get_index(codex_id) {
            None => mwarn("codex_id "@ + codex_id + " is not defined in codex database"@),
            Some(i) => (if blank(db.entries@[i].title@) {
                mwarn("codex entry "@ + codex_id + " has empty title"@)
            } else {
                mnone()
            }) + (if blank(db.entries@[i].category@) {
                mwarn("codex entry "@ + codex_id + " has empty category"@)
            } else {
                mnone()
            }) + (if blank(db.entries@[i].description@) {
                mwarn("codex entry "@ + codex_id + " has empty description"@)
            } else {
                mnone()
            }),
        },
    }
}

fn validate_codex_reference(codex_id: &str, codex: Option<&CodexDatabase>, issues: &mut Vec<MapValidationIssue>)
    ensures
        views(final(issues)@) == views(old(issues)@) + codex_ref_issues(codex_id@, codex),
{
    let db = match codex {
        Some(db) => db,
        None => {
            assert(views(issues@) =~= views(old(issues)@) + mnone());
            return;
        },
    };
    let entry = match db.get(codex_id) {
        Some(e) => e,
        None => {
            push(issues, MapValidationIssue::warning(cat3("codex_id ", codex_id, " is not defined in codex database")));
            return;
        },
    };
    let ghost start = views(issues@);
    if is_blank(entry.title.as_str()) {
        push(issues, MapValidationIssue::warning(cat3("codex entry ", codex_id, " has empty title")));
    }
    let ghost a = views(issues@);
    if is_blank(entry.category.as_str()) {
        push(issues, MapValidationIssue::warning(cat3("codex entry ", codex_id, " has empty category")));
    }
    let ghost b = views(issues@);
    if is_blank(entry.description.as_str()) {
        push(issues, MapValidationIssue::warning(cat3("codex entry ", codex_id, " has empty description")));
    }
    proof {
        let t = if blank(entry.title@) { mwarn("codex entry "@ + codex_id@ + " has empty title"@) } else { mnone() };
        let c = if blank(entry.category@) { mwarn("codex entry "@ + codex_id@ + " has empty category"@) } else { mnone() };
        let d = if blank(entry.description@) { mwarn("codex entry "@ + codex_id@ + " has empty description"@) } else { mnone() };
        assert(a =~= start + t);
        assert(b =~= start + t + c);
        assert(views(issues@) =~= start + (t + c + d));
    }
}

/// Issues of an unlock rule on `owner` `id`.
pub open spec fn unlock_issues(
    owner: Seq<char>,
    id: Seq<char>,
    unlock: UnlockRule,
    codex: Option<&CodexDatabase>,
) -> Seq<(MapValidationSeverity, Seq<char>)> {
    let codex_id = present(unlock.requires_codex_id);
    let item_id = present(unlock.requires_item_id);
    (if codex_id is None && item_id is None {
        mwarn(owner + " "@ + id + " has unlock data but no requires_codex_id or requires_item_id"@)
    } else {
        mnone()
    }) + (match codex_id {
        Some(c) => codex_ref_issues(c, codex),
        None => mnone(),
    }) + (match item_id {
        Some(t) => if has_ws(t) {
            mwarn(owner + " "@ + id + " unlock requires_item_id "@ + t + " contains whitespace"@)
        } else {
            mnone()
        },
        None => mnone(),
    }) + locked_message_issues(owner, id, unlock)
}

pub open spec fn locked_message_issues(owner: Seq<char>, id: Seq<char>, unlock: UnlockRule) -> Seq<(MapValidationSeverity, Seq<char>)> {
    match unlock.locked_message {
        Some(m) => if blank(m@) {
            mwarn(owner + " "@ + id + " unlock locked_message is empty"@)
        } else {
            mnone()
        },
        None => mnone(),
    }
}

fn validate_unlock_rule(
    owner: &str,
    id: &str,
    unlock: &UnlockRule,
    codex: Option<&CodexDatabase>,
    issues: &mut Vec<MapValidationIssue>,
)
    ensures
        views(final(issues)@) == views(old(issues)@) + unlock_issues(owner@, id@, *unlock, codex),
{
    let ghost start = views(issues@);
    let codex_id = present_exec(&unlock.requires_codex_id);
    let item_id = present_exec(&unlock.requires_item_id);
    if codex_id.is_none() && item_id.is_none() {
        let head = cat3(owner, " ", id);
        push(issues, MapValidationIssue::warning(cat2(head.as_str(), " has unlock data but no requires_codex_id or requires_item_id")));
    }
    let ghost s1 = views(issues@);
    match codex_id {
        Some(c) => validate_codex_reference(c, codex, issues),
        None => {},
    }
    let ghost s2 = views(issues@);
    match item_id {
        Some(t) => {
            if contains_whitespace(t) {
                let head = cat3(owner, " ", id);
                push(issues, MapValidationIssue::warning(cat4(head.as_str(), " unlock requires_item_id ", t, " contains whitespace")));
            }
        },
        None => {},
    }
    let ghost s3 = views(issues@);
    let empty_message = match &unlock.locked_message {
        Some(m) => is_blank(m.as_str()),
        None => false,
    };
    if empty_message {
        let head = cat3(owner, " ", id);
        push(issues, MapValidationIssue::warning(cat2(head.as_str(), " unlock locked_message is empty")));
    }
    proof {
        let cid = present(unlock.requires_codex_id);
        let iid = present(unlock.requires_item_id);
        let p1 = if cid is None && iid is None {
            mwarn(owner@ + " "@ + id@ + " has unlock data but no requires_codex_id or requires_item_id"@)
        } else {
            mnone()
        };
        let p2 = match cid {
            Some(c) => codex_ref_issues(c, codex),
            None => mnone(),
        };
        let p3 = match iid {
            Some(t) => if has_ws(t) {
                mwarn(owner@ + " "@ + id@ + " unlock requires_item_id "@ + t + " contains whitespace"@)
            } else {
                mnone()
            },
            None => mnone(),
        };
        let p4 = locked_message_issues(owner@, id@, *unlock);
        assert(s1 =~= start + p1);
        assert(s2 =~= start + p1 + p2);
        assert(s3 =~= start + p1 + p2 + p3);
        assert(views(issues@) =~= start + (p1 + p2 + p3 + p4));
    }
}

/// The scene names a transition may name, compared after ASCII lower-casing.
pub open spec fn known_scene_name(s: Seq<char>) -> bool {
    eq_ascii_ci(s, "overworld"@) || eq_ascii_ci(s, "world"@) || eq_ascii_ci(s, "facility"@)
        || eq_ascii_ci(s, "mainmenu"@) || eq_ascii_ci(s, "main_menu"@) || eq_ascii_ci(s, "main-menu"@)
}

/// Issues of a transition target on `owner` `id`.
pub open spec fn transition_issues(owner: Seq<char>, id: Seq<char>, t: TransitionTarget) -> Seq<(MapValidationSeverity, Seq<char>)> {
    let scene = present(t.scene);
    let map_path = present(t.map_path);
    let spawn_id = present(t.spawn_id);
    (if scene is None && map_path is None && spawn_id is None {
        mwarn(owner + " "@ + id + " has transition data but no scene, map_path, or spawn_id"@)
    } else {
        mnone()
    }) + (match scene {
        Some(s) => if known_scene_name(s) {
            mnone()
        } else {
            mwarn(owner + " "@ + id + " transition scene "@ + s + " is not a known runtime scene"@)
        },
        None => mnone(),
    }) + (match map_path {
        Some(p) => if ends(p, ".ron"@) {
            mnone()
        } else {
            mwarn(owner + " "@ + id + " transition map_path "@ + p + " does not point to a RON map"@)
        },
        None => mnone(),
    }) + (match spawn_id {
        Some(s) => if has_ws(s) {
            mwarn(owner + " "@ + id + " transition spawn_id "@ + s + " contains whitespace"@)
        } else {
            mnone()
        },
        None => mnone(),
    })
}

fn is_known_scene_name(s: &str) -> (r: bool)
    ensures
        r == known_scene_name(s@),
{
    eq_ignore_ascii_case(s, "overworld") || eq_ignore_ascii_case(s, "world") || eq_ignore_ascii_case(s, "facility")
        || eq_ignore_ascii_case(s, "mainmenu") || eq_ignore_ascii_case(s, "main_menu")
        || eq_ignore_ascii_case(s, "main-menu")
}

fn validate_transition_target(owner: &str, id: &str, transition: &TransitionTarget, issues: &mut Vec<MapValidationIssue>)
    ensures
        views(final(issues)@) == views(old(issues)@) + transition_issues(owner@, id@, *transition),
{
    let ghost start = views(issues@);
    let scene = present_exec(&transition.scene);
    let map_path = present_exec(&transition.map_path);
    let spawn_id = present_exec(&transition.spawn_id);
    if scene.is_none() && map_path.is_none() && spawn_id.is_none() {
        let head = cat3(owner, " ", id);
        push(issues, MapValidationIssue::warning(cat2(head.as_str(), " has transition data but no scene, map_path, or spawn_id")));
    }
    let ghost s1 = views(issues@);
    match scene {
        Some(s) => {
            if !is_known_scene_name(s) {
                let head = cat3(owner, " ", id);
                push(issues, MapValidationIssue::warning(cat4(head.as_str(), " transition scene ", s, " is not a known runtime scene")));
            }
        },
        None => {},
    }
    let ghost s2 = views(issues@);
    match map_path {
        Some(p) => {
            if !ends_with(p, ".ron") {
                let head = cat3(owner, " ", id);
                push(issues, MapValidationIssue::warning(cat4(head.as_str(), " transition map_path ", p, " does not point to a RON map")));
            }
        },
        None => {},
    }
    let ghost s3 = views(issues@);
    match spawn_id {
        Some(s) => {
            if contains_whitespace(s) {
                let head = cat3(owner, " ", id);
                push(issues, MapValidationIssue::warning(cat4(head.as_str(), " transition spawn_id ", s, " contains whitespace")));
            }
        },
        None => {},
    }
    proof {
        let sc = present(transition.scene);
        let mp = present(transition.map_path);
        let sp = present(transition.spawn_id);
        let p1 = if sc is None && mp is None && sp is None {
            mwarn(owner@ + " "@ + id@ + " has transition data but no scene, map_path, or spawn_id"@)
        } else {
            mnone()
        };
        let p2 = match sc {
            Some(s) => if known_scene_name(s) {
                mnone()
            } else {
                mwarn(owner@ + " "@ + id@ + " transition scene "@ + s + " is not a known runtime scene"@)
            },
            None => mnone(),
        };
        let p3 = match mp {
            Some(p) => if ends(p, ".ron"@) {
                mnone()
            } else {
                mwarn(owner@ + " "@ + id@ + " transition map_path "@ + p + " does not point to a RON map"@)
            },
            None => mnone(),
        };
        let p4 = match sp {
            Some(s) => if has_ws(s) {
                mwarn(owner@ + " "@ + id@ + " transition spawn_id "@ + s + " contains whitespace"@)
            } else {
                mnone()
            },
            None => mnone(),
        };
        assert(s1 =~= start + p1);
        assert(s2 =~= start + p1 + p2);
        assert(s3 =~= start + p1 + p2 + p3);
        assert(views(issues@) =~= start + (p1 + p2 + p3 + p4));
    }
}

/// `earlier` followed by the non-blank ids of `ids`, in order.
pub open spec fn claimed(earlier: Seq<Seq<char>>, ids: Seq<Seq<char>>) -> Seq<Seq<char>>
    decreases ids.len(),
{
    if ids.len() == 0 {
        earlier
    } else if blank(ids.last()) {
        claimed(earlier, ids.drop_last())
    } else {
        claimed(earlier, ids.drop_last()).push(ids.last())
    }
}

/// Issues of the id `id` of a `kind`, given the ids claimed before it.
pub open spec fn id_issues(kind: Seq<char>, id: Seq<char>, earlier: Seq<Seq<char>>) -> Seq<(MapValidationSeverity, Seq<char>)> {
    if blank(id) {
        merr(kind + " id is empty"@)
    } else if earlier.contains(id) {
        merr("duplicate id "@ + id)
    } else {
        mnone()
    }
}

pub open spec fn string_views(v: Seq<String>) -> Seq<Seq<char>> {
    v.map_values(|s: String| s@)
}

fn validate_id(kind: &str, id: &str, ids: &mut Vec<String>, issues: &mut Vec<MapValidationIssue>)
    ensures
        views(final(issues)@) == views(old(issues)@) + id_issues(kind@, id@, string_views(old(ids)@)),
        string_views(final(ids)@) == (if blank(id@) {
            string_views(old(ids)@)
        } else {
            string_views(old(ids)@).push(id@)
        }),
{
    if is_blank(id) {
        push(issues, MapValidationIssue::error(cat2(kind, " id is empty")));
        return;
    }
    if list_contains(ids, id) {
        push(issues, MapValidationIssue::error(cat2("duplicate id ", id)));
    } else {
        assert(views(issues@) =~= views(old(issues)@) + mnone());
    }
    ids.push(id.to_owned());
    assert(string_views(ids@) =~= string_views(old(ids)@).push(id@));
}

/// The name `{:?}` gives an asset kind.
pub open spec fn kind_name(k: AssetKind) -> Seq<char> {
    match k {
        AssetKind::Tile => "Tile"@,
        AssetKind::Decal => "Decal"@,
        AssetKind::Object => "Object"@,
        AssetKind::Entity => "Entity"@,
        AssetKind::Zone => "Zone"@,
    }
}

fn kind_name_exec(k: AssetKind) -> (r: &'static str)
    ensures
        r@ == kind_name(k),
{
    match k {
        AssetKind::Tile => "Tile",
        AssetKind::Decal => "Decal",
        AssetKind::Object => "Object",
        AssetKind::Entity => "Entity",
        AssetKind::Zone => "Zone",
    }
}

/// Issues of a reference from `owner` to asset `asset_id`, expected of `kind` on `layer`.
pub open spec fn asset_issues(
    owner: Seq<char>,
    asset_id: Seq<char>,
    kind: AssetKind,
    layer: LayerKind,
    assets: &AssetDatabase,
) -> Seq<(MapValidationSeverity, Seq<char>)> {
    match assets.get_index(asset_id) {
        None => merr(owner + " references unknown asset "@ + asset_id),
        Some(i) => (if assets.assets@[i].kind != kind {
            mwarn(owner + " asset "@ + asset_id + " is "@ + kind_name(assets.assets@[i].kind) + ", expected "@ + kind_name(kind))
        } else {
            mnone()
        }) + (if assets.assets@[i].default_layer != layer {
            mwarn(owner + " asset "@ + asset_id + " defaults to "@ + layer_label(assets.assets@[i].default_layer)@
                + ", placed in "@ + layer_label(layer)@)
        } else {
            mnone()
        }),
    }
}

fn validate_asset(
    owner: &str,
    asset_id: &str,
    kind: AssetKind,
    layer: LayerKind,
    assets: &AssetDatabase,
    issues: &mut Vec<MapValidationIssue>,
)
    ensures
        views(final(issues)@) == views(old(issues)@) + asset_issues(owner@, asset_id@, kind, layer, assets),
{
    let asset = match assets.get(asset_id) {
        Some(a) => a,
        None => {
            push(issues, MapValidationIssue::error(cat3(owner, " references unknown asset ", asset_id)));
            return;
        },
    };
    let ghost start = views(issues@);
    if asset.kind != kind {
        let mut m = cat4(owner, " asset ", asset_id, " is ");
        m.append(kind_name_exec(asset.kind));
        m.append(", expected ");
        m.append(kind_name_exec(kind));
        push(issues, MapValidationIssue::warning(m));
    }
    let ghost mid = views(issues@);
    if asset.default_layer != layer {
        let mut m = cat4(owner, " asset ", asset_id, " defaults to ");
        m.append(asset.default_layer.label());
        m.append(", placed in ");
        m.append(layer.label());
        push(issues, MapValidationIssue::warning(m));
    }
    proof {
        let i = assets.get_index(asset_id@)->0;
        let a = if assets.assets@[i].kind != kind {
            mwarn(owner@ + " asset "@ + asset_id@ + " is "@ + kind_name(assets.assets@[i].kind) + ", expected "@ + kind_name(kind))
        } else {
            mnone()
        };
        let b = if assets.assets@[i].default_layer != layer {
            mwarn(owner@ + " asset "@ + asset_id@ + " defaults to "@ + layer_label(assets.assets@[i].default_layer)@
                + ", placed in "@ + layer_label(layer)@)
        } else {
            mnone()
        };
        assert(mid =~= start + a);
        assert(views(issues@) =~= start + (a + b));
    }
}

/// Issues of a position that lies outside the map (`position` is its text, two decimals).
pub open spec fn point_issues(kind: Seq<char>, id: Seq<char>, in_bounds: bool, position: Seq<char>) -> Seq<(MapValidationSeverity, Seq<char>)> {
    if in_bounds {
        mnone()
    } else {
        merr(kind + " "@ + id + " at "@ + position + " is outside map bounds"@)
    }
}

fn validate_point(kind: &str, id: &str, in_bounds: bool, position: &str, issues: &mut Vec<MapValidationIssue>)
    ensures
        views(final(issues)@) == views(old(issues)@) + point_issues(kind@, id@, in_bounds, position@),
{
    if !in_bounds {
        let mut m = cat5(kind, " ", id, " at ", position);
        m.append(" is outside map bounds");
        push(issues, MapValidationIssue::error(m));
    } else {
        assert(views(issues@) =~= views(old(issues)@) + mnone());
    }
}

/// Issues of a scale that is not positive (`scale` is its text, two decimals per axis).
pub open spec fn scale_issues(kind: Seq<char>, id: Seq<char>, valid: bool, scale: Seq<char>) -> Seq<(MapValidationSeverity, Seq<char>)> {
    if valid {
        mnone()
    } else {
        merr(kind + " "@ + id + " has invalid scale "@ + scale)
    }
}

fn validate_scale(kind: &str, id: &str, valid: bool, scale: &str, issues: &mut Vec<MapValidationIssue>)
    ensures
        views(final(issues)@) == views(old(issues)@) + scale_issues(kind@, id@, valid, scale@),
{
    if !valid {
        let m = cat5(kind, " ", id, " has invalid scale ", scale);
        push(issues, MapValidationIssue::error(m));
    } else {
        assert(views(issues@) =~= views(old(issues)@) + mnone());
    }
}

/// A spawn point as validation reads it: its id, the cell its position floors to, whether the
/// position lies inside the map, and the position written with two decimals (`x,y`).
#[derive(Clone, Debug, PartialEq, Eq)]
pub struct SpawnFacts {
    pub id: String,
    pub cell_x: i32,
    pub cell_y: i32,
    pub in_bounds: bool,
    pub position_text: String,
}

/// A placed decal or object as validation reads it: ids, whether its position lies inside the
/// map and its scale is positive, and both written with two decimals (`x,y` and `sx x sy`).
#[derive(Clone, Debug, PartialEq, Eq)]
pub struct PlacementFacts {
    pub id: String,
    pub asset: String,
    pub in_bounds: bool,
    pub position_text: String,
    pub scale_valid: bool,
    pub scale_text: String,
}

/// A placed entity as validation reads it.
#[derive(Clone, Debug, PartialEq, Eq)]
pub struct EntityFacts {
    pub placement: PlacementFacts,
    pub entity_type: String,
    pub has_interaction_rect: bool,
    pub unlock: Option<UnlockRule>,
    pub transition: Option<TransitionTarget>,
}

/// A ground tile, with the footprint its asset's default size gives at the map's tile size
/// (used when the asset declares no footprint).
#[derive(Clone, Debug, PartialEq, Eq)]
pub struct GroundFacts {
    pub tile: TileInstance,
    pub inferred_footprint: Option<[i32; 2]>,
}

/// A collision cell as validation reads it.
#[derive(Clone, Copy, Debug, PartialEq, Eq)]
pub struct CollisionFacts {
    pub x: i32,
    pub y: i32,
    pub solid: bool,
}

/// A zone as validation reads it.
#[derive(Clone, Debug, PartialEq, Eq)]
pub struct ZoneFacts {
    pub id: String,
    pub zone_type: String,
    pub point_count: usize,
    pub unlock: Option<UnlockRule>,
    pub transition: Option<TransitionTarget>,
}

/// What map validation reads of a map document, layer by layer.
#[derive(Clone, Debug, PartialEq, Eq)]
pub struct MapFacts {
    pub id: String,
    pub tile_size: u32,
    pub width: u32,
    pub height: u32,
    pub spawns: Vec<SpawnFacts>,
    pub ground: Vec<GroundFacts>,
    pub decals: Vec<PlacementFacts>,
    pub objects: Vec<PlacementFacts>,
    pub entities: Vec<EntityFacts>,
    pub collision: Vec<CollisionFacts>,
    pub zones: Vec<ZoneFacts>,
}

pub open spec fn header_issues(m: MapFacts) -> Seq<(MapValidationSeverity, Seq<char>)> {
    (if blank(m.id@) {
        merr("map id is empty"@)
    } else {
        mnone()
    }) + (if m.tile_size == 0 {
        merr("tile_size must be greater than zero"@)
    } else {
        mnone()
    }) + (if m.width == 0 || m.height == 0 {
        merr("map width and height must be greater than zero"@)
    } else {
        mnone()
    }) + (if m.spawns@.len() == 0 {
        merr("map has no spawn points"@)
    } else {
        mnone()
    })
}

pub open spec fn solid_at(cells: Seq<CollisionFacts>, x: i32, y: i32) -> bool {
    exists|i: int| 0 <= i < cells.len() && (#[trigger] cells[i]).solid && cells[i].x == x && cells[i].y == y
}

pub open spec fn spawn_issues(s: SpawnFacts, earlier: Seq<Seq<char>>, cells: Seq<CollisionFacts>) -> Seq<(MapValidationSeverity, Seq<char>)> {
    id_issues("spawn"@, s.id@, earlier) + point_issues("spawn"@, s.id@, s.in_bounds, s.position_text@) + (if solid_at(
        cells,
        s.cell_x,
        s.cell_y,
    ) {
        merr("spawn "@ + s.id@ + " overlaps solid collision cell "@ + signed_dec(s.cell_x as int) + ","@ + signed_dec(s.cell_y as int))
    } else {
        mnone()
    })
}

pub open spec fn spawn_ids(s: Seq<SpawnFacts>) -> Seq<Seq<char>> {
    s.map_values(|x: SpawnFacts| x.id@)
}

pub open spec fn spawns_issues(spawns: Seq<SpawnFacts>, earlier: Seq<Seq<char>>, cells: Seq<CollisionFacts>) -> Seq<(MapValidationSeverity, Seq<char>)>
    decreases spawns.len(),
{
    if spawns.len() == 0 {
        mnone()
    } else {
        spawns_issues(spawns.drop_last(), earlier, cells) + spawn_issues(
            spawns.last(),
            claimed(earlier, spawn_ids(spawns.drop_last())),
            cells,
        )
    }
}

fn solid_cell_at(cells: &Vec<CollisionFacts>, x: i32, y: i32) -> (r: bool)
    ensures
        r == solid_at(cells@, x, y),
{
    let mut i: usize = 0;
    while i < cells.len()
        invariant
            i <= cells@.len(),
            forall|j: int| 0 <= j < i ==> !((#[trigger] cells@[j]).solid && cells@[j].x == x && cells@[j].y == y),
        decreases cells@.len() - i,
    {
        if cells[i].solid && cells[i].x == x && cells[i].y == y {
            return true;
        }
        i = i + 1;
    }
    false
}

fn validate_spawns(
    spawns: &Vec<SpawnFacts>,
    cells: &Vec<CollisionFacts>,
    ids: &mut Vec<String>,
    issues: &mut Vec<MapValidationIssue>,
)
    ensures
        views(final(issues)@) == views(old(issues)@) + spawns_issues(spawns@, string_views(old(ids)@), cells@),
        string_views(final(ids)@) == claimed(string_views(old(ids)@), spawn_ids(spawns@)),
{
    let ghost earlier = string_views(ids@);
    let mut i: usize = 0;
    assert(spawn_ids(spawns@.subrange(0, 0)) =~= Seq::<Seq<char>>::empty());
    assert(views(issues@) =~= views(old(issues)@) + mnone());
    while i < spawns.len()
        invariant
            i <= spawns@.len(),
            earlier == string_views(old(ids)@),
            views(issues@) == views(old(issues)@) + spawns_issues(spawns@.subrange(0, i as int), earlier, cells@),
            string_views(ids@) == claimed(earlier, spawn_ids(spawns@.subrange(0, i as int))),
        decreases spawns@.len() - i,
    {
        let ghost pre = spawns@.subrange(0, i + 1);
        let ghost start = views(issues@);
        let ghost claims = string_views(ids@);
        assert(pre.drop_last() =~= spawns@.subrange(0, i as int));
        assert(spawn_ids(pre).drop_last() =~= spawn_ids(spawns@.subrange(0, i as int)));
        let spawn = &spawns[i];
        validate_id("spawn", spawn.id.as_str(), ids, issues);
        let ghost s1 = views(issues@);
        validate_point("spawn", spawn.id.as_str(), spawn.in_bounds, spawn.position_text.as_str(), issues);
        let ghost s2 = views(issues@);
        if solid_cell_at(cells, spawn.cell_x, spawn.cell_y) {
            let mut m = cat3("spawn ", spawn.id.as_str(), " overlaps solid collision cell ");
            let cx = signed_decimal(spawn.cell_x as i64);
            let cy = signed_decimal(spawn.cell_y as i64);
            m.append(cx.as_str());
            m.append(",");
            m.append(cy.as_str());
            push(issues, MapValidationIssue::error(m));
        }
        proof {
            let a = id_issues("spawn"@, spawn.id@, claims);
            let b = point_issues("spawn"@, spawn.id@, spawn.in_bounds, spawn.position_text@);
            let c = if solid_at(cells@, spawn.cell_x, spawn.cell_y) {
                merr("spawn "@ + spawn.id@ + " overlaps solid collision cell "@ + signed_dec(spawn.cell_x as int) + ","@
                    + signed_dec(spawn.cell_y as int))
            } else {
                mnone()
            };
            assert(s2 =~= start + a + b);
            assert(views(issues@) =~= start + (a + b + c));
            assert(spawn_ids(pre).last() == spawn.id@);
        }
        i = i + 1;
    }
    assert(spawns@.subrange(0, i as int) =~= spawns@);
}

/// The footprint a ground tile is checked against: the asset's own, else the inferred one.
pub open spec fn footprint_for(g: GroundFacts, assets: &AssetDatabase) -> Option<[i32; 2]> {
    match assets.get_index(g.tile.asset@) {
        Some(i) => match assets.assets@[i].footprint {
            Some(f) => Some(f),
            None => g.inferred_footprint,
        },
        None => None,
    }
}

pub open spec fn ground_issue(g: GroundFacts, m: MapFacts, assets: &AssetDatabase) -> Seq<(MapValidationSeverity, Seq<char>)> {
    let t = g.tile;
    let at = t.asset@ + " at "@ + signed_dec(t.x as int) + ","@ + signed_dec(t.y as int);
    asset_issues("ground"@, t.asset@, AssetKind::Tile, LayerKind::Ground, assets) + (if t.w <= 0 || t.h <= 0 {
        merr("ground "@ + at + " has invalid size "@ + signed_dec(t.w as int) + "x"@ + signed_dec(t.h as int))
    } else {
        mnone()
    }) + (if t.x < 0 || t.y < 0 || t.x + crate::map::extent(t.w) > m.width || t.y + crate::map::extent(t.h) > m.height {
        merr("ground "@ + at + " is outside map bounds"@)
    } else {
        mnone()
    }) + (match footprint_for(g, assets) {
        Some(f) => if t.w != f[0] || t.h != f[1] {
            mwarn("ground "@ + at + " is "@ + signed_dec(t.w as int) + "x"@ + signed_dec(t.h as int) + ", asset footprint is "@
                + signed_dec(f[0] as int) + "x"@ + signed_dec(f[1] as int))
        } else {
            mnone()
        },
        None => mnone(),
    })
}

pub open spec fn ground_issues(ground: Seq<GroundFacts>, m: MapFacts, assets: &AssetDatabase) -> Seq<(MapValidationSeverity, Seq<char>)>
    decreases ground.len(),
{
    if ground.len() == 0 {
        mnone()
    } else {
        ground_issues(ground.drop_last(), m, assets) + ground_issue(ground.last(), m, assets)
    }
}

/// `a` followed by `x,y`.
fn with_cell(a: &str, x: i32, y: i32) -> (r: String)
    ensures
        r@ == a@ + signed_dec(x as int) + ","@ + signed_dec(y as int),
{
    let sx = signed_decimal(x as i64);
    let sy = signed_decimal(y as i64);
    let mut r = cat2(a, sx.as_str());
    r.append(",");
    r.append(sy.as_str());
    r
}

fn validate_ground_tile(g: &GroundFacts, m: &MapFacts, assets: &AssetDatabase, issues: &mut Vec<MapValidationIssue>)
    ensures
        views(final(issues)@) == views(old(issues)@) + ground_issue(*g, *m, assets),
{
    let t = &g.tile;
    let ghost start = views(issues@);
    validate_asset("ground", t.asset.as_str(), AssetKind::Tile, LayerKind::Ground, assets, issues);
    let ghost s1 = views(issues@);
    let head = cat3("ground ", t.asset.as_str(), " at ");
    let at = with_cell(head.as_str(), t.x, t.y);
    if t.w <= 0 || t.h <= 0 {
        let mut msg = cat2(at.as_str(), " has invalid size ");
        let w = signed_decimal(t.w as i64);
        let h = signed_decimal(t.h as i64);
        msg.append(w.as_str());
        msg.append("x");
        msg.append(h.as_str());
        push(issues, MapValidationIssue::error(msg));
    }
    let ghost s2 = views(issues@);
    let ew: i64 = if t.w < 1 { 1 } else { t.w as i64 };
    let eh: i64 = if t.h < 1 { 1 } else { t.h as i64 };
    if t.x < 0 || t.y < 0 || (t.x as i64) + ew > (m.width as i64) || (t.y as i64) + eh > (m.height as i64) {
        push(issues, MapValidationIssue::error(cat2(at.as_str(), " is outside map bounds")));
    }
    let ghost s3 = views(issues@);
    let footprint = match assets.get(t.asset.as_str()) {
        Some(a) => match a.footprint {
            Some(f) => Some(f),
            None => g.inferred_footprint,
        },
        None => None,
    };
    match footprint {
        Some(f) => {
            if t.w != f[0] || t.h != f[1] {
                let mut msg = cat2(at.as_str(), " is ");
                let w = signed_decimal(t.w as i64);
                let h = signed_decimal(t.h as i64);
                let fw = signed_decimal(f[0] as i64);
                let fh = signed_decimal(f[1] as i64);
                msg.append(w.as_str());
                msg.append("x");
                msg.append(h.as_str());
                msg.append(", asset footprint is ");
                msg.append(fw.as_str());
                msg.append("x");
                msg.append(fh.as_str());
                push(issues, MapValidationIssue::warning(msg));
            }
        },
        None => {},
    }
    proof {
        let at_s = t.asset@ + " at "@ + signed_dec(t.x as int) + ","@ + signed_dec(t.y as int);
        assert(at@ =~= "ground "@ + at_s);
        let a = asset_issues("ground"@, t.asset@, AssetKind::Tile, LayerKind::Ground, assets);
        let b = if t.w <= 0 || t.h <= 0 {
            merr("ground "@ + at_s + " has invalid size "@ + signed_dec(t.w as int) + "x"@ + signed_dec(t.h as int))
        } else {
            mnone()
        };
        let c = if t.x < 0 || t.y < 0 || t.x + crate::map::extent(t.w) > m.width || t.y + crate::map::extent(t.h) > m.height {
            merr("ground "@ + at_s + " is outside map bounds"@)
        } else {
            mnone()
        };
        let d = match footprint_for(*g, assets) {
            Some(f) => if t.w != f[0] || t.h != f[1] {
                mwarn("ground "@ + at_s + " is "@ + signed_dec(t.w as int) + "x"@ + signed_dec(t.h as int) + ", asset footprint is "@
                    + signed_dec(f[0] as int) + "x"@ + signed_dec(f[1] as int))
            } else {
                mnone()
            },
            None => mnone(),
        };
        assert(s1 =~= start + a);
        assert(s2 =~= start + a + b);
        assert(s3 =~= start + a + b + c);
        assert(views(issues@) =~= start + (a + b + c + d));
    }
}

fn validate_ground(m: &MapFacts, assets: &AssetDatabase, issues: &mut Vec<MapValidationIssue>)
    ensures
        views(final(issues)@) == views(old(issues)@) + ground_issues(m.ground@, *m, assets),
{
    let mut i: usize = 0;
    assert(views(issues@) =~= views(old(issues)@) + mnone());
    while i < m.ground.len()
        invariant
            i <= m.ground@.len(),
            views(issues@) == views(old(issues)@) + ground_issues(m.ground@.subrange(0, i as int), *m, assets),
        decreases m.ground@.len() - i,
    {
        let ghost pre = m.ground@.subrange(0, i + 1);
        assert(pre.drop_last() =~= m.ground@.subrange(0, i as int));
        validate_ground_tile(&m.ground[i], m, assets, issues);
        assert(views(issues@) =~= views(old(issues)@) + ground_issues(pre, *m, assets));
        i = i + 1;
    }
    assert(m.ground@.subrange(0, i as int) =~= m.ground@);
}

pub open spec fn collision_issues(cells: Seq<CollisionFacts>, width: u32, height: u32) -> Seq<(MapValidationSeverity, Seq<char>)>
    decreases cells.len(),
{
    if cells.len() == 0 {
        mnone()
    } else {
        let c = cells.last();
        collision_issues(cells.drop_last(), width, height) + (if c.x < 0 || c.y < 0 || c.x >= width || c.y >= height {
            merr("collision cell "@ + signed_dec(c.x as int) + ","@ + signed_dec(c.y as int) + " is outside map bounds"@)
        } else {
            mnone()
        })
    }
}

fn validate_collision(m: &MapFacts, issues: &mut Vec<MapValidationIssue>)
    ensures
        views(final(issues)@) == views(old(issues)@) + collision_issues(m.collision@, m.width, m.height),
{
    let mut i: usize = 0;
    assert(views(issues@) =~= views(old(issues)@) + mnone());
    while i < m.collision.len()
        invariant
            i <= m.collision@.len(),
            views(issues@) == views(old(issues)@) + collision_issues(m.collision@.subrange(0, i as int), m.width, m.height),
        decreases m.collision@.len() - i,
    {
        let ghost pre = m.collision@.subrange(0, i + 1);
        assert(pre.drop_last() =~= m.collision@.subrange(0, i as int));
        let c = m.collision[i];
        if c.x < 0 || c.y < 0 || (c.x as i64) >= (m.width as i64) || (c.y as i64) >= (m.height as i64) {
            let mut msg = with_cell("collision cell ", c.x, c.y);
            msg.append(" is outside map bounds");
            push(issues, MapValidationIssue::error(msg));
        }
        assert(views(issues@) =~= views(old(issues)@) + collision_issues(pre, m.width, m.height));
        i = i + 1;
    }
    assert(m.collision@.subrange(0, i as int) =~= m.collision@);
}

pub open spec fn placement_ids(s: Seq<PlacementFacts>) -> Seq<Seq<char>> {
    s.map_values(|x: PlacementFacts| x.id@)
}

/// The codex id of the asset that `asset_id` names, when the asset is known and has one.
pub open spec fn asset_codex(asset_id: Seq<char>, assets: &AssetDatabase) -> Option<Seq<char>> {
    match assets.get_index(asset_id) {
        Some(i) => match assets.assets@[i].codex_id {
            Some(c) => Some(c@),
            None => None,
        },
        None => None,
    }
}

fn asset_codex_exec<'a>(asset_id: &str, assets: &'a AssetDatabase) -> (r: Option<&'a str>)
    ensures
        (match r {
            Some(s) => Some(s@),
            None => None,
        }) == asset_codex(asset_id@, assets),
{
    match assets.get(asset_id) {
        Some(a) => match &a.codex_id {
            Some(c) => Some(c.as_str()),
            None => None,
        },
        None => None,
    }
}

pub open spec fn placement_issues(
    kind: Seq<char>,
    p: PlacementFacts,
    asset_kind: AssetKind,
    layer: LayerKind,
    earlier: Seq<Seq<char>>,
    assets: &AssetDatabase,
) -> Seq<(MapValidationSeverity, Seq<char>)> {
    id_issues(kind, p.id@, earlier) + asset_issues(kind, p.asset@, asset_kind, layer, assets) + scale_issues(
        kind,
        p.id@,
        p.scale_valid,
        p.scale_text@,
    ) + point_issues(kind, p.id@, p.in_bounds, p.position_text@)
}

fn validate_placement(
    kind: &str,
    p: &PlacementFacts,
    asset_kind: AssetKind,
    layer: LayerKind,
    assets: &AssetDatabase,
    ids: &mut Vec<String>,
    issues: &mut Vec<MapValidationIssue>,
)
    ensures
        views(final(issues)@) == views(old(issues)@) + placement_issues(kind@, *p, asset_kind, layer, string_views(old(ids)@), assets),
        string_views(final(ids)@) == (if blank(p.id@) {
            string_views(old(ids)@)
        } else {
            string_views(old(ids)@).push(p.id@)
        }),
{
    let ghost start = views(issues@);
    validate_id(kind, p.id.as_str(), ids, issues);
    let ghost s1 = views(issues@);
    validate_asset(kind, p.asset.as_str(), asset_kind, layer, assets, issues);
    let ghost s2 = views(issues@);
    validate_scale(kind, p.id.as_str(), p.scale_valid, p.scale_text.as_str(), issues);
    let ghost s3 = views(issues@);
    validate_point(kind, p.id.as_str(), p.in_bounds, p.position_text.as_str(), issues);
    proof {
        let a = id_issues(kind@, p.id@, string_views(old(ids)@));
        let b = asset_issues(kind@, p.asset@, asset_kind, layer, assets);
        let c = scale_issues(kind@, p.id@, p.scale_valid, p.scale_text@);
        let d = point_issues(kind@, p.id@, p.in_bounds, p.position_text@);
        assert(s2 =~= start + a + b);
        assert(s3 =~= start + a + b + c);
        assert(views(issues@) =~= start + (a + b + c + d));
    }
}

pub open spec fn decals_issues(decals: Seq<PlacementFacts>, earlier: Seq<Seq<char>>, assets: &AssetDatabase) -> Seq<(MapValidationSeverity, Seq<char>)>
    decreases decals.len(),
{
    if decals.len() == 0 {
        mnone()
    } else {
        decals_issues(decals.drop_last(), earlier, assets) + placement_issues(
            "decal"@,
            decals.last(),
            AssetKind::Decal,
            LayerKind::Decals,
            claimed(earlier, placement_ids(decals.drop_last())),
            assets,
        )
    }
}

fn validate_decals(
    decals: &Vec<PlacementFacts>,
    assets: &AssetDatabase,
    ids: &mut Vec<String>,
    issues: &mut Vec<MapValidationIssue>,
)
    ensures
        views(final(issues)@) == views(old(issues)@) + decals_issues(decals@, string_views(old(ids)@), assets),
        string_views(final(ids)@) == claimed(string_views(old(ids)@), placement_ids(decals@)),
{
    let ghost earlier = string_views(ids@);
    let mut i: usize = 0;
    assert(placement_ids(decals@.subrange(0, 0)) =~= Seq::<Seq<char>>::empty());
    assert(views(issues@) =~= views(old(issues)@) + mnone());
    while i < decals.len()
        invariant
            i <= decals@.len(),
            earlier == string_views(old(ids)@),
            views(issues@) == views(old(issues)@) + decals_issues(decals@.subrange(0, i as int), earlier, assets),
            string_views(ids@) == claimed(earlier, placement_ids(decals@.subrange(0, i as int))),
        decreases decals@.len() - i,
    {
        let ghost pre = decals@.subrange(0, i + 1);
        assert(pre.drop_last() =~= decals@.subrange(0, i as int));
        assert(placement_ids(pre).drop_last() =~= placement_ids(decals@.subrange(0, i as int)));
        assert(placement_ids(pre).last() == decals@[i as int].id@);
        validate_placement("decal", &decals[i], AssetKind::Decal, LayerKind::Decals, assets, ids, issues);
        i = i + 1;
    }
    assert(decals@.subrange(0, i as int) =~= decals@);
}

pub open spec fn object_issues(
    p: PlacementFacts,
    earlier: Seq<Seq<char>>,
    assets: &AssetDatabase,
    codex: Option<&CodexDatabase>,
) -> Seq<(MapValidationSeverity, Seq<char>)> {
    placement_issues("object"@, p, AssetKind::Object, LayerKind::Objects, earlier, assets) + (match asset_codex(p.asset@, assets) {
        Some(c) => mwarn("object "@ + p.id@ + " uses codex asset "@ + p.asset@ + ", but the current runtime only scans entities"@)
            + codex_ref_issues(c, codex),
        None => mnone(),
    })
}

pub open spec fn objects_issues(
    objects: Seq<PlacementFacts>,
    earlier: Seq<Seq<char>>,
    assets: &AssetDatabase,
    codex: Option<&CodexDatabase>,
) -> Seq<(MapValidationSeverity, Seq<char>)>
    decreases objects.len(),
{
    if objects.len() == 0 {
        mnone()
    } else {
        objects_issues(objects.drop_last(), earlier, assets, codex) + object_issues(
            objects.last(),
            claimed(earlier, placement_ids(objects.drop_last())),
            assets,
            codex,
        )
    }
}

fn validate_objects(
    objects: &Vec<PlacementFacts>,
    assets: &AssetDatabase,
    codex: Option<&CodexDatabase>,
    ids: &mut Vec<String>,
    issues: &mut Vec<MapValidationIssue>,
)
    ensures
        views(final(issues)@) == views(old(issues)@) + objects_issues(objects@, string_views(old(ids)@), assets, codex),
        string_views(final(ids)@) == claimed(string_views(old(ids)@), placement_ids(objects@)),
{
    let ghost earlier = string_views(ids@);
    let mut i: usize = 0;
    assert(placement_ids(objects@.subrange(0, 0)) =~= Seq::<Seq<char>>::empty());
    assert(views(issues@) =~= views(old(issues)@) + mnone());
    while i < objects.len()
        invariant
            i <= objects@.len(),
            earlier == string_views(old(ids)@),
            views(issues@) == views(old(issues)@) + objects_issues(objects@.subrange(0, i as int), earlier, assets, codex),
            string_views(ids@) == claimed(earlier, placement_ids(objects@.subrange(0, i as int))),
        decreases objects@.len() - i,
    {
        let ghost pre = objects@.subrange(0, i + 1);
        let ghost start = views(issues@);
        let ghost claims = string_views(ids@);
        assert(pre.drop_last() =~= objects@.subrange(0, i as int));
        assert(placement_ids(pre).drop_last() =~= placement_ids(objects@.subrange(0, i as int)));
        assert(placement_ids(pre).last() == objects@[i as int].id@);
        let object = &objects[i];
        validate_placement("object", object, AssetKind::Object, LayerKind::Objects, assets, ids, issues);
        let ghost s1 = views(issues@);
        match asset_codex_exec(object.asset.as_str(), assets) {
            Some(c) => {
                let mut msg = cat4("object ", object.id.as_str(), " uses codex asset ", object.asset.as_str());
                msg.append(", but the current runtime only scans entities");
                push(issues, MapValidationIssue::warning(msg));
                validate_codex_reference(c, codex, issues);
            },
            None => {},
        }
        proof {
            let a = placement_issues("object"@, *object, AssetKind::Object, LayerKind::Objects, claims, assets);
            let b = match asset_codex(object.asset@, assets) {
                Some(c) => mwarn("object "@ + object.id@ + " uses codex asset "@ + object.asset@
                    + ", but the current runtime only scans entities"@) + codex_ref_issues(c, codex),
                None => mnone(),
            };
            assert(s1 =~= start + a);
            assert(views(issues@) =~= start + (a + b));
        }
        i = i + 1;
    }
    assert(objects@.subrange(0, i as int) =~= objects@);
}

/// Entity types that, without an unlock rule, still unlock from their asset's codex id.
pub open spec fn legacy_unlock_type(t: Seq<char>) -> bool {
    t == "FacilityEntrance"@ || t == "Entrance"@ || t == "Door"@
}

fn entity_uses_implicit_legacy_unlock(entity_type: &str) -> (r: bool)
    ensures
        r == legacy_unlock_type(entity_type@),
{
    str_eq(entity_type, "FacilityEntrance") || str_eq(entity_type, "Entrance") || str_eq(entity_type, "Door")
}

pub open spec fn entity_ids(s: Seq<EntityFacts>) -> Seq<Seq<char>> {
    s.map_values(|x: EntityFacts| x.placement.id@)
}

/// The codex ids of the assets of `entities`, in order (entities without one add nothing).
pub open spec fn entity_codexes(entities: Seq<EntityFacts>, assets: &AssetDatabase) -> Seq<Seq<char>>
    decreases entities.len(),
{
    if entities.len() == 0 {
        Seq::empty()
    } else {
        match asset_codex(entities.last().placement.asset@, assets) {
            Some(c) => entity_codexes(entities.drop_last(), assets).push(c),
            None => entity_codexes(entities.drop_last(), assets),
        }
    }
}

pub open spec fn entity_codex_issues(
    e: EntityFacts,
    seen: Seq<Seq<char>>,
    assets: &AssetDatabase,
    codex: Option<&CodexDatabase>,
) -> Seq<(MapValidationSeverity, Seq<char>)> {
    let id = e.placement.id@;
    match asset_codex(e.placement.asset@, assets) {
        Some(c) => codex_ref_issues(c, codex) + (if seen.contains(c) {
            mwarn("codex_id "@ + c + " appears on multiple entities in this map"@)
        } else {
            mnone()
        }) + (if !e.has_interaction_rect {
            mwarn("entity "@ + id + " uses codex_id "@ + c
                + " but has no interaction_rect; runtime will use a 1x1 default scan area"@)
        } else {
            mnone()
        }),
        None => mnone(),
    }
}

pub open spec fn entity_unlock_issues(e: EntityFacts, assets: &AssetDatabase, codex: Option<&CodexDatabase>) -> Seq<(MapValidationSeverity, Seq<char>)> {
    let id = e.placement.id@;
    match e.unlock {
        Some(u) => unlock_issues("entity"@, id, u, codex),
        None => if legacy_unlock_type(e.entity_type@) && asset_codex(e.placement.asset@, assets) is Some {
            mwarn("entity "@ + id + " relies on asset codex_id for legacy door unlock; set unlock.requires_codex_id explicitly"@)
        } else {
            mnone()
        },
    }
}

pub open spec fn entity_transition_issues(e: EntityFacts) -> Seq<(MapValidationSeverity, Seq<char>)> {
    match e.transition {
        Some(t) => transition_issues("entity"@, e.placement.id@, t),
        None => mnone(),
    }
}

pub open spec fn entity_link_issues(e: EntityFacts, assets: &AssetDatabase, codex: Option<&CodexDatabase>) -> Seq<(MapValidationSeverity, Seq<char>)> {
    entity_unlock_issues(e, assets, codex) + entity_transition_issues(e)
}

pub open spec fn entity_issue(
    e: EntityFacts,
    earlier: Seq<Seq<char>>,
    seen: Seq<Seq<char>>,
    assets: &AssetDatabase,
    codex: Option<&CodexDatabase>,
) -> Seq<(MapValidationSeverity, Seq<char>)> {
    let p = e.placement;
    id_issues("entity"@, p.id@, earlier) + asset_issues("entity"@, p.asset@, AssetKind::Entity, LayerKind::Entities, assets)
        + (if blank(e.entity_type@) {
        merr("entity "@ + p.id@ + " has empty entity_type"@)
    } else {
        mnone()
    }) + scale_issues("entity"@, p.id@, p.scale_valid, p.scale_text@) + point_issues("entity"@, p.id@, p.in_bounds, p.position_text@)
        + entity_codex_issues(e, seen, assets, codex) + entity_link_issues(e, assets, codex)
}

pub open spec fn entities_issues(
    entities: Seq<EntityFacts>,
    earlier: Seq<Seq<char>>,
    assets: &AssetDatabase,
    codex: Option<&CodexDatabase>,
) -> Seq<(MapValidationSeverity, Seq<char>)>
    decreases entities.len(),
{
    if entities.len() == 0 {
        mnone()
    } else {
        entities_issues(entities.drop_last(), earlier, assets, codex) + entity_issue(
            entities.last(),
            claimed(earlier, entity_ids(entities.drop_last())),
            entity_codexes(entities.drop_last(), assets),
            assets,
            codex,
        )
    }
}

fn validate_entity_codex(
    e: &EntityFacts,
    seen: &mut Vec<String>,
    assets: &AssetDatabase,
    codex: Option<&CodexDatabase>,
    issues: &mut Vec<MapValidationIssue>,
)
    ensures
        views(final(issues)@) == views(old(issues)@) + entity_codex_issues(*e, string_views(old(seen)@), assets, codex),
        string_views(final(seen)@) == (match asset_codex(e.placement.asset@, assets) {
            Some(c) => string_views(old(seen)@).push(c),
            None => string_views(old(seen)@),
        }),
{
    let c = match asset_codex_exec(e.placement.asset.as_str(), assets) {
        Some(c) => c,
        None => {
            assert(views(issues@) =~= views(old(issues)@) + mnone());
            return;
        },
    };
    let ghost start = views(issues@);
    validate_codex_reference(c, codex, issues);
    let ghost s1 = views(issues@);
    let duplicate = list_contains(seen, c);
    if duplicate {
        push(issues, MapValidationIssue::warning(cat3("codex_id ", c, " appears on multiple entities in this map")));
    }
    let ghost s2 = views(issues@);
    let ghost before = string_views(seen@);
    seen.push(c.to_owned());
    assert(string_views(seen@) =~= before.push(c@));
    if !e.has_interaction_rect {
        let mut msg = cat4("entity ", e.placement.id.as_str(), " uses codex_id ", c);
        msg.append(" but has no interaction_rect; runtime will use a 1x1 default scan area");
        push(issues, MapValidationIssue::warning(msg));
    }
    proof {
        let a = codex_ref_issues(c@, codex);
        let b = if before.contains(c@) {
            mwarn("codex_id "@ + c@ + " appears on multiple entities in this map"@)
        } else {
            mnone()
        };
        let d = if !e.has_interaction_rect {
            mwarn("entity "@ + e.placement.id@ + " uses codex_id "@ + c@
                + " but has no interaction_rect; runtime will use a 1x1 default scan area"@)
        } else {
            mnone()
        };
        assert(s2 =~= start + a + b);
        assert(views(issues@) =~= start + (a + b + d));
    }
}

fn validate_entity_links(e: &EntityFacts, assets: &AssetDatabase, codex: Option<&CodexDatabase>, issues: &mut Vec<MapValidationIssue>)
    ensures
        views(final(issues)@) == views(old(issues)@) + entity_link_issues(*e, assets, codex),
{
    let ghost start = views(issues@);
    let id = e.placement.id.as_str();
    match &e.unlock {
        Some(u) => validate_unlock_rule("entity", id, u, codex, issues),
        None => {
            if entity_uses_implicit_legacy_unlock(e.entity_type.as_str())
                && asset_codex_exec(e.placement.asset.as_str(), assets).is_some() {
                let msg = cat3("entity ", id, " relies on asset codex_id for legacy door unlock; set unlock.requires_codex_id explicitly");
                push(issues, MapValidationIssue::warning(msg));
            } else {
                assert(views(issues@) =~= views(old(issues)@) + mnone());
            }
        },
    }
    let ghost s1 = views(issues@);
    match &e.transition {
        Some(t) => validate_transition_target("entity", id, t, issues),
        None => {},
    }
    proof {
        let a = entity_unlock_issues(*e, assets, codex);
        let b = entity_transition_issues(*e);
        assert(s1 =~= start + a);
        assert(views(issues@) =~= start + (a + b));
    }
}

#[verifier::rlimit(60)]
fn validate_entity(
    e: &EntityFacts,
    assets: &AssetDatabase,
    codex: Option<&CodexDatabase>,
    ids: &mut Vec<String>,
    seen: &mut Vec<String>,
    issues: &mut Vec<MapValidationIssue>,
)
    ensures
        views(final(issues)@) == views(old(issues)@) + entity_issue(*e, string_views(old(ids)@), string_views(old(seen)@), assets, codex),
        string_views(final(ids)@) == (if blank(e.placement.id@) {
            string_views(old(ids)@)
        } else {
            string_views(old(ids)@).push(e.placement.id@)
        }),
        string_views(final(seen)@) == (match asset_codex(e.placement.asset@, assets) {
            Some(c) => string_views(old(seen)@).push(c),
            None => string_views(old(seen)@),
        }),
{
    let p = &e.placement;
    let ghost start = views(issues@);
    validate_id("entity", p.id.as_str(), ids, issues);
    let ghost s1 = views(issues@);
    validate_asset("entity", p.asset.as_str(), AssetKind::Entity, LayerKind::Entities, assets, issues);
    let ghost s2 = views(issues@);
    if is_blank(e.entity_type.as_str()) {
        push(issues, MapValidationIssue::error(cat3("entity ", p.id.as_str(), " has empty entity_type")));
    }
    let ghost s3 = views(issues@);
    validate_scale("entity", p.id.as_str(), p.scale_valid, p.scale_text.as_str(), issues);
    let ghost s4 = views(issues@);
    validate_point("entity", p.id.as_str(), p.in_bounds, p.position_text.as_str(), issues);
    let ghost s5 = views(issues@);
    validate_entity_codex(e, seen, assets, codex, issues);
    let ghost s6 = views(issues@);
    validate_entity_links(e, assets, codex, issues);
    proof {
        let a = id_issues("entity"@, p.id@, string_views(old(ids)@));
        let b = asset_issues("entity"@, p.asset@, AssetKind::Entity, LayerKind::Entities, assets);
        let c = if blank(e.entity_type@) {
            merr("entity "@ + p.id@ + " has empty entity_type"@)
        } else {
            mnone()
        };
        let d = scale_issues("entity"@, p.id@, p.scale_valid, p.scale_text@);
        let f = point_issues("entity"@, p.id@, p.in_bounds, p.position_text@);
        let g = entity_codex_issues(*e, string_views(old(seen)@), assets, codex);
        let h = entity_link_issues(*e, assets, codex);
        assert(s2 =~= start + a + b);
        assert(s3 =~= start + a + b + c);
        assert(s4 =~= start + a + b + c + d);
        assert(s5 =~= start + a + b + c + d + f);
        assert(s6 =~= start + a + b + c + d + f + g);
        assert(views(issues@) =~= start + (a + b + c + d + f + g + h));
    }
}

fn validate_entities(
    entities: &Vec<EntityFacts>,
    assets: &AssetDatabase,
    codex: Option<&CodexDatabase>,
    ids: &mut Vec<String>,
    issues: &mut Vec<MapValidationIssue>,
)
    ensures
        views(final(issues)@) == views(old(issues)@) + entities_issues(entities@, string_views(old(ids)@), assets, codex),
        string_views(final(ids)@) == claimed(string_views(old(ids)@), entity_ids(entities@)),
{
    let ghost earlier = string_views(ids@);
    let mut seen: Vec<String> = Vec::new();
    let mut i: usize = 0;
    assert(entity_ids(entities@.subrange(0, 0)) =~= Seq::<Seq<char>>::empty());
    assert(views(issues@) =~= views(old(issues)@) + mnone());
    assert(string_views(seen@) =~= entity_codexes(entities@.subrange(0, 0), assets));
    while i < entities.len()
        invariant
            i <= entities@.len(),
            earlier == string_views(old(ids)@),
            views(issues@) == views(old(issues)@) + entities_issues(entities@.subrange(0, i as int), earlier, assets, codex),
            string_views(ids@) == claimed(earlier, entity_ids(entities@.subrange(0, i as int))),
            string_views(seen@) == entity_codexes(entities@.subrange(0, i as int), assets),
        decreases entities@.len() - i,
    {
        let ghost pre = entities@.subrange(0, i + 1);
        assert(pre.drop_last() =~= entities@.subrange(0, i as int));
        assert(entity_ids(pre).drop_last() =~= entity_ids(entities@.subrange(0, i as int)));
        assert(entity_ids(pre).last() == entities@[i as int].placement.id@);
        validate_entity(&entities[i], assets, codex, ids, &mut seen, issues);
        i = i + 1;
    }
    assert(entities@.subrange(0, i as int) =~= entities@);
}

/// The zone types map validation knows.
pub open spec fn validation_zone_type(t: Seq<char>) -> bool {
    t == "ScanArea"@ || t == "MapTransition"@ || t == "NoSpawn"@ || t == "CameraBounds"@
}

pub open spec fn zone_transition_issues(z: ZoneFacts) -> Seq<(MapValidationSeverity, Seq<char>)> {
    match z.transition {
        Some(t) => transition_issues("zone"@, z.id@, t),
        None => if z.zone_type@ == "MapTransition"@ {
            mwarn("zone "@ + z.id@ + " is MapTransition but has no transition target"@)
        } else {
            mnone()
        },
    }
}

pub open spec fn zone_issue(z: ZoneFacts, earlier: Seq<Seq<char>>, codex: Option<&CodexDatabase>) -> Seq<(MapValidationSeverity, Seq<char>)> {
    id_issues("zone"@, z.id@, earlier) + zone_type_issues(z) + zone_shape_issues(z) + zone_unlock_issues(z, codex)
        + zone_transition_issues(z)
}

pub open spec fn zone_unlock_issues(z: ZoneFacts, codex: Option<&CodexDatabase>) -> Seq<(MapValidationSeverity, Seq<char>)> {
    match z.unlock {
        Some(u) => unlock_issues("zone"@, z.id@, u, codex),
        None => mnone(),
    }
}

pub open spec fn zone_ids(s: Seq<ZoneFacts>) -> Seq<Seq<char>> {
    s.map_values(|x: ZoneFacts| x.id@)
}

pub open spec fn zones_issues(zones: Seq<ZoneFacts>, earlier: Seq<Seq<char>>, codex: Option<&CodexDatabase>) -> Seq<(MapValidationSeverity, Seq<char>)>
    decreases zones.len(),
{
    if zones.len() == 0 {
        mnone()
    } else {
        zones_issues(zones.drop_last(), earlier, codex) + zone_issue(
            zones.last(),
            claimed(earlier, zone_ids(zones.drop_last())),
            codex,
        )
    }
}

pub open spec fn zone_type_issues(z: ZoneFacts) -> Seq<(MapValidationSeverity, Seq<char>)> {
    if blank(z.zone_type@) {
        merr("zone "@ + z.id@ + " has empty zone_type"@)
    } else if !validation_zone_type(z.zone_type@) {
        mwarn("zone "@ + z.id@ + " uses unknown zone_type "@ + z.zone_type@)
    } else {
        mnone()
    }
}

pub open spec fn zone_shape_issues(z: ZoneFacts) -> Seq<(MapValidationSeverity, Seq<char>)> {
    if z.point_count < 3 {
        mwarn("zone "@ + z.id@ + " has fewer than three points"@)
    } else {
        mnone()
    }
}

fn validate_zone_type(z: &ZoneFacts, issues: &mut Vec<MapValidationIssue>)
    ensures
        views(final(issues)@) == views(old(issues)@) + zone_type_issues(*z),
{
    let id = z.id.as_str();
    let zt = z.zone_type.as_str();
    if is_blank(zt) {
        push(issues, MapValidationIssue::error(cat3("zone ", id, " has empty zone_type")));
    } else if !(str_eq(zt, "ScanArea") || str_eq(zt, "MapTransition") || str_eq(zt, "NoSpawn") || str_eq(zt, "CameraBounds")) {
        push(issues, MapValidationIssue::warning(cat4("zone ", id, " uses unknown zone_type ", zt)));
    } else {
        assert(views(issues@) =~= views(old(issues)@) + mnone());
    }
}

fn validate_zone_shape(z: &ZoneFacts, issues: &mut Vec<MapValidationIssue>)
    ensures
        views(final(issues)@) == views(old(issues)@) + zone_shape_issues(*z),
{
    if z.point_count < 3 {
        push(issues, MapValidationIssue::warning(cat3("zone ", z.id.as_str(), " has fewer than three points")));
    } else {
        assert(views(issues@) =~= views(old(issues)@) + mnone());
    }
}

fn validate_zone_links(z: &ZoneFacts, codex: Option<&CodexDatabase>, issues: &mut Vec<MapValidationIssue>)
    ensures
        views(final(issues)@) == views(old(issues)@) + zone_unlock_issues(*z, codex) + zone_transition_issues(*z),
{
    let ghost start = views(issues@);
    let id = z.id.as_str();
    match &z.unlock {
        Some(u) => validate_unlock_rule("zone", id, u, codex, issues),
        None => {
            assert(views(issues@) =~= start + mnone());
        },
    }
    let ghost s1 = views(issues@);
    match &z.transition {
        Some(t) => validate_transition_target("zone", id, t, issues),
        None => {
            if str_eq(z.zone_type.as_str(), "MapTransition") {
                push(issues, MapValidationIssue::warning(cat3("zone ", id, " is MapTransition but has no transition target")));
            } else {
                assert(views(issues@) =~= s1 + mnone());
            }
        },
    }
    assert(views(issues@) =~= start + zone_unlock_issues(*z, codex) + zone_transition_issues(*z));
}

#[verifier::spinoff_prover]
#[verifier::rlimit(30)]
fn validate_zone(z: &ZoneFacts, codex: Option<&CodexDatabase>, ids: &mut Vec<String>, issues: &mut Vec<MapValidationIssue>)
    ensures
        views(final(issues)@) == views(old(issues)@) + zone_issue(*z, string_views(old(ids)@), codex),
        string_views(final(ids)@) == (if blank(z.id@) {
            string_views(old(ids)@)
        } else {
            string_views(old(ids)@).push(z.id@)
        }),
{
    let ghost start = views(issues@);
    validate_id("zone", z.id.as_str(), ids, issues);
    let ghost s1 = views(issues@);
    validate_zone_type(z, issues);
    let ghost s2 = views(issues@);
    validate_zone_shape(z, issues);
    let ghost s3 = views(issues@);
    validate_zone_links(z, codex, issues);
    proof {
        let a = id_issues("zone"@, z.id@, string_views(old(ids)@));
        let b = zone_type_issues(*z);
        let c = zone_shape_issues(*z);
        let d = zone_unlock_issues(*z, codex);
        let e = zone_transition_issues(*z);
        assert(views(issues@) =~= start + (a + b + c + d + e));
    }
}

fn validate_zones(zones: &Vec<ZoneFacts>, codex: Option<&CodexDatabase>, ids: &mut Vec<String>, issues: &mut Vec<MapValidationIssue>)
    ensures
        views(final(issues)@) == views(old(issues)@) + zones_issues(zones@, string_views(old(ids)@), codex),
{
    let ghost earlier = string_views(ids@);
    let mut i: usize = 0;
    assert(zone_ids(zones@.subrange(0, 0)) =~= Seq::<Seq<char>>::empty());
    assert(views(issues@) =~= views(old(issues)@) + mnone());
    while i < zones.len()
        invariant
            i <= zones@.len(),
            earlier == string_views(old(ids)@),
            views(issues@) == views(old(issues)@) + zones_issues(zones@.subrange(0, i as int), earlier, codex),
            string_views(ids@) == claimed(earlier, zone_ids(zones@.subrange(0, i as int))),
        decreases zones@.len() - i,
    {
        let ghost pre = zones@.subrange(0, i + 1);
        assert(pre.drop_last() =~= zones@.subrange(0, i as int));
        assert(zone_ids(pre).drop_last() =~= zone_ids(zones@.subrange(0, i as int)));
        assert(zone_ids(pre).last() == zones@[i as int].id@);
        validate_zone(&zones[i], codex, ids, issues);
        i = i + 1;
    }
    assert(zones@.subrange(0, i as int) =~= zones@);
}

/// Every issue of map `m`, section by section: the document header, spawns, ground, decals,
/// objects, entities, collision and zones. Ids are checked for blanks and duplicates across
/// spawns, decals, objects, entities and zones, in that order.
pub open spec fn map_issues(m: MapFacts, assets: &AssetDatabase, codex: Option<&CodexDatabase>) -> Seq<(MapValidationSeverity, Seq<char>)> {
    let ids1 = claimed(Seq::empty(), spawn_ids(m.spawns@));
    let ids2 = claimed(ids1, placement_ids(m.decals@));
    let ids3 = claimed(ids2, placement_ids(m.objects@));
    let ids4 = claimed(ids3, entity_ids(m.entities@));
    header_issues(m) + spawns_issues(m.spawns@, Seq::empty(), m.collision@) + ground_issues(m.ground@, m, assets)
        + decals_issues(m.decals@, ids1, assets) + objects_issues(m.objects@, ids2, assets, codex)
        + entities_issues(m.entities@, ids3, assets, codex) + collision_issues(m.collision@, m.width, m.height)
        + zones_issues(m.zones@, ids4, codex)
}

/// Validates a map against the asset catalogue, without a codex.
pub fn validate_map(document: &MapFacts, assets: &AssetDatabase) -> (r: Vec<MapValidationIssue>)
    ensures
        views(r@) == map_issues(*document, assets, None),
{
    validate_map_with_codex(document, assets, None)
}

/// Validates a map against the asset catalogue and, when given, the codex.
pub fn validate_map_with_codex(document: &MapFacts, assets: &AssetDatabase, codex: Option<&CodexDatabase>) -> (r: Vec<MapValidationIssue>)
    ensures
        views(r@) == map_issues(*document, assets, codex),
{
    let m = document;
    let mut issues: Vec<MapValidationIssue> = Vec::new();
    if is_blank(m.id.as_str()) {
        push(&mut issues, MapValidationIssue::error("map id is empty".to_owned()));
    }
    let ghost h1 = views(issues@);
    if m.tile_size == 0 {
        push(&mut issues, MapValidationIssue::error("tile_size must be greater than zero".to_owned()));
    }
    let ghost h2 = views(issues@);
    if m.width == 0 || m.height == 0 {
        push(&mut issues, MapValidationIssue::error("map width and height must be greater than zero".to_owned()));
    }
    let ghost h3 = views(issues@);
    if m.spawns.len() == 0 {
        push(&mut issues, MapValidationIssue::error("map has no spawn points".to_owned()));
    }
    let ghost s0 = views(issues@);
    proof {
        let a = if blank(m.id@) { merr("map id is empty"@) } else { mnone() };
        let b = if m.tile_size == 0 { merr("tile_size must be greater than zero"@) } else { mnone() };
        let c = if m.width == 0 || m.height == 0 { merr("map width and height must be greater than zero"@) } else { mnone() };
        let d = if m.spawns@.len() == 0 { merr("map has no spawn points"@) } else { mnone() };
        assert(h1 =~= a);
        assert(h2 =~= a + b);
        assert(h3 =~= a + b + c);
        assert(s0 =~= header_issues(*m));
    }
    let mut ids: Vec<String> = Vec::new();
    assert(string_views(ids@) =~= Seq::<Seq<char>>::empty());
    validate_spawns(&m.spawns, &m.collision, &mut ids, &mut issues);
    let ghost s1 = views(issues@);
    validate_ground(m, assets, &mut issues);
    let ghost s2 = views(issues@);
    validate_decals(&m.decals, assets, &mut ids, &mut issues);
    let ghost s3 = views(issues@);
    validate_objects(&m.objects, assets, codex, &mut ids, &mut issues);
    let ghost s4 = views(issues@);
    validate_entities(&m.entities, assets, codex, &mut ids, &mut issues);
    let ghost s5 = views(issues@);
    validate_collision(m, &mut issues);
    let ghost s6 = views(issues@);
    validate_zones(&m.zones, codex, &mut ids, &mut issues);
    proof {
        let ids1 = claimed(Seq::empty(), spawn_ids(m.spawns@));
        let ids2 = claimed(ids1, placement_ids(m.decals@));
        let ids3 = claimed(ids2, placement_ids(m.objects@));
        let ids4 = claimed(ids3, entity_ids(m.entities@));
        let p1 = spawns_issues(m.spawns@, Seq::empty(), m.collision@);
        let p2 = ground_issues(m.ground@, *m, assets);
        let p3 = decals_issues(m.decals@, ids1, assets);
        let p4 = objects_issues(m.objects@, ids2, assets, codex);
        let p5 = entities_issues(m.entities@, ids3, assets, codex);
        let p6 = collision_issues(m.collision@, m.width, m.height);
        let p7 = zones_issues(m.zones@, ids4, codex);
        assert(s1 =~= s0 + p1);
        assert(s2 =~= s0 + p1 + p2);
        assert(s3 =~= s0 + p1 + p2 + p3);
        assert(s4 =~= s0 + p1 + p2 + p3 + p4);
        assert(s5 =~= s0 + p1 + p2 + p3 + p4 + p5);
        assert(s6 =~= s0 + p1 + p2 + p3 + p4 + p5 + p6);
        assert(views(issues@) =~= header_issues(*m) + p1 + p2 + p3 + p4 + p5 + p6 + p7);
    }
    issues
}

/// Whether every cell of tile `t` lies on a `width` x `height` map.
pub open spec fn tile_cells_on_map(t: TileInstance, width: int, height: int) -> bool {
    forall|cx: int, cy: int| #[trigger] crate::map::spec_tile_contains_cell(t, cx, cy) ==> 0 <= cx < width && 0 <= cy
        < height
}

/// The error that reports tile `t` as lying off the map.
pub open spec fn ground_bounds_error(t: TileInstance) -> (MapValidationSeverity, Seq<char>) {
    let at = t.asset@ + " at "@ + signed_dec(t.x as int) + ","@ + signed_dec(t.y as int);
    (MapValidationSeverity::Error, "ground "@ + at + " is outside map bounds"@)
}

/// A ground tile is reported as outside the map exactly when one of its cells (extents of at
/// least one cell) lies off the map: a tile ending on the map's last column or row is on it.
pub proof fn lemma_ground_bounds_issue(g: GroundFacts, m: MapFacts, assets: &AssetDatabase)
    ensures
        ground_issue(g, m, assets).contains(ground_bounds_error(g.tile)) <==> !tile_cells_on_map(
            g.tile,
            m.width as int,
            m.height as int,
        ),
{
    let t = g.tile;
    let ew = crate::map::extent(t.w);
    let eh = crate::map::extent(t.h);
    let w = m.width as int;
    let h = m.height as int;
    let off = t.x < 0 || t.y < 0 || t.x + ew > w || t.y + eh > h;
    if off {
        let (cx, cy) = if t.x < 0 || t.x + ew > w {
            (if t.x < 0 { t.x as int } else { t.x + ew - 1 }, t.y as int)
        } else {
            (t.x as int, if t.y < 0 { t.y as int } else { t.y + eh - 1 })
        };
        assert(crate::map::spec_tile_contains_cell(t, cx, cy));
    } else {
        assert forall|cx: int, cy: int| #[trigger] crate::map::spec_tile_contains_cell(t, cx, cy) implies 0 <= cx < w
            && 0 <= cy < h by {}
    }
    let at = t.asset@ + " at "@ + signed_dec(t.x as int) + ","@ + signed_dec(t.y as int);
    let e = ground_bounds_error(t);
    let a = asset_issues("ground"@, t.asset@, AssetKind::Tile, LayerKind::Ground, assets);
    let b = if t.w <= 0 || t.h <= 0 {
        merr("ground "@ + at + " has invalid size "@ + signed_dec(t.w as int) + "x"@ + signed_dec(t.h as int))
    } else {
        mnone()
    };
    let c = if off {
        merr("ground "@ + at + " is outside map bounds"@)
    } else {
        mnone()
    };
    let d = match footprint_for(g, assets) {
        Some(f) => if t.w != f[0] || t.h != f[1] {
            mwarn("ground "@ + at + " is "@ + signed_dec(t.w as int) + "x"@ + signed_dec(t.h as int) + ", asset footprint is "@
                + signed_dec(f[0] as int) + "x"@ + signed_dec(f[1] as int))
        } else {
            mnone()
        },
        None => mnone(),
    };
    let all = ground_issue(g, m, assets);
    assert(all == a + b + c + d);
    if off {
        assert(all[(a.len() + b.len()) as int] == e);
    } else {
        reveal_strlit(" has invalid size ");
        reveal_strlit(" is outside map bounds");
        reveal_strlit(" references unknown asset ");
        reveal_strlit("ground ");
        reveal_strlit("ground");
        reveal_strlit(" at ");
        reveal_strlit(",");
        let p = "ground "@ + at;
        assert(e.1.len() > 32 + t.asset@.len());
        assert(e.1 == p + " is outside map bounds"@);
        assert(e.1[p.len() + 1int] == 'i');
        assert forall|k: int| 0 <= k < all.len() implies all[k] != e by {
            if k < a.len() {
                assert(all[k] == a[k]);
                if a[k].0 == MapValidationSeverity::Error {
                    match assets.get_index(t.asset@) {
                        None => {
                            assert(a[k].1 == "ground"@ + " references unknown asset "@ + t.asset@);
                            assert(a[k].1.len() < e.1.len());
                        },
                        Some(i) => {},
                    }
                }
            } else if k < a.len() + b.len() {
                assert(all[k] == b[k - a.len()]);
                let bm = p + " has invalid size "@ + signed_dec(t.w as int) + "x"@ + signed_dec(t.h as int);
                assert(b[k - a.len()].1 == bm);
                assert(bm[p.len() + 1int] == 'h');
            } else {
                assert(all[k] == d[k - a.len() - b.len()]);
            }
        }
    }
}

/// The error that reports collision cell `c` as lying off the map.
pub open spec fn collision_bounds_error(c: CollisionFacts) -> (MapValidationSeverity, Seq<char>) {
    (
        MapValidationSeverity::Error,
        "collision cell "@ + signed_dec(c.x as int) + ","@ + signed_dec(c.y as int) + " is outside map bounds"@,
    )
}

/// Every collision cell off a `width` x `height` map (in any direction) is reported, and a map
/// whose collision cells all lie on it gets no collision issue.
pub proof fn lemma_collision_bounds_issues(cells: Seq<CollisionFacts>, width: u32, height: u32)
    ensures
        forall|i: int|
            0 <= i < cells.len() && !(0 <= #[trigger] cells[i].x < width && 0 <= cells[i].y < height) ==> collision_issues(
                cells,
                width,
                height,
            ).contains(collision_bounds_error(cells[i])),
        (forall|i: int| 0 <= i < cells.len() ==> 0 <= #[trigger] cells[i].x < width && 0 <= cells[i].y < height)
            ==> collision_issues(cells, width, height).len() == 0,
    decreases cells.len(),
{
    if cells.len() > 0 {
        let init = cells.drop_last();
        lemma_collision_bounds_issues(init, width, height);
        let r0 = collision_issues(init, width, height);
        let r = collision_issues(cells, width, height);
        let c = cells.last();
        assert forall|i: int|
            0 <= i < cells.len() && !(0 <= #[trigger] cells[i].x < width && 0 <= cells[i].y < height) implies r.contains(
                collision_bounds_error(cells[i]),
            ) by {
            if i == cells.len() - 1 {
                assert(r[r0.len() as int] == collision_bounds_error(c));
            } else {
                assert(init[i] == cells[i]);
                assert(r0.contains(collision_bounds_error(cells[i])));
                let k = choose|k: int| 0 <= k < r0.len() && r0[k] == collision_bounds_error(cells[i]);
                assert(r[k] == r0[k]);
            }
        }
        if forall|i: int| 0 <= i < cells.len() ==> 0 <= #[trigger] cells[i].x < width && 0 <= cells[i].y < height {
            assert forall|i: int| 0 <= i < init.len() implies 0 <= #[trigger] init[i].x < width && 0 <= init[i].y < height by {
                assert(init[i] == cells[i]);
            }
            assert(cells[cells.len() - 1] == c);
        }
    }
}

} // verus!
