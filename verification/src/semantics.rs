use vstd::prelude::*;

use crate::text::{eq_ascii_ci, eq_ignore_ascii_case, str_eq, trim, trimmed};

verus! {

/// The behaviour class of a zone type.
#[derive(Clone, Copy, Debug, PartialEq, Eq)]
pub enum ZoneTypeKind {
    ScanArea,
    MapTransition,
    NoSpawn,
    CameraBounds,
    WalkSurface,
    SurfaceGate,
    CollisionArea,
    CollisionLine,
    Hazard,
    Prompt,
    Objective,
    Checkpoint,
    EventTrigger,
    Trigger,
}

/// Metadata of one zone type key.
#[derive(Clone, Copy, Debug, PartialEq, Eq)]
pub struct ZoneTypeDef {
    pub key: &'static str,
    pub zh_label: &'static str,
    pub kind: ZoneTypeKind,
    pub editor_preset: bool,
}

pub open spec fn kind_allows_surface(kind: ZoneTypeKind) -> bool {
    kind == ZoneTypeKind::WalkSurface || kind == ZoneTypeKind::Objective || kind == ZoneTypeKind::Checkpoint
}

pub open spec fn kind_is_line_like(kind: ZoneTypeKind) -> bool {
    kind == ZoneTypeKind::CollisionLine || kind == ZoneTypeKind::SurfaceGate
}

pub open spec fn kind_is_collision_scope(kind: ZoneTypeKind) -> bool {
    kind == ZoneTypeKind::CollisionArea || kind == ZoneTypeKind::CollisionLine
}

pub open spec fn kind_is_objective_like(kind: ZoneTypeKind) -> bool {
    kind == ZoneTypeKind::Objective || kind == ZoneTypeKind::Checkpoint
}

impl ZoneTypeDef {
    pub fn new(key: &'static str, zh_label: &'static str, kind: ZoneTypeKind, editor_preset: bool) -> (r: Self)
        ensures
            r == (ZoneTypeDef { key, zh_label, kind, editor_preset }),
    {
        ZoneTypeDef { key, zh_label, kind, editor_preset }
    }

    pub fn allows_surface(self) -> (r: bool)
        ensures
            r == kind_allows_surface(self.kind),
    {
        matches!(self.kind, ZoneTypeKind::WalkSurface | ZoneTypeKind::Objective | ZoneTypeKind::Checkpoint)
    }

    pub fn is_line_like(self) -> (r: bool)
        ensures
            r == kind_is_line_like(self.kind),
    {
        matches!(self.kind, ZoneTypeKind::CollisionLine | ZoneTypeKind::SurfaceGate)
    }

    pub fn is_collision_scope(self) -> (r: bool)
        ensures
            r == kind_is_collision_scope(self.kind),
    {
        matches!(self.kind, ZoneTypeKind::CollisionArea | ZoneTypeKind::CollisionLine)
    }

    pub fn is_objective_like(self) -> (r: bool)
        ensures
            r == kind_is_objective_like(self.kind),
    {
        matches!(self.kind, ZoneTypeKind::Objective | ZoneTypeKind::Checkpoint)
    }
}

pub const ZONE_SCAN_AREA: &'static str = "ScanArea";
pub const ZONE_MAP_TRANSITION: &'static str = "MapTransition";
pub const ZONE_NO_SPAWN: &'static str = "NoSpawn";
pub const ZONE_CAMERA_BOUNDS: &'static str = "CameraBounds";
pub const ZONE_WALK_SURFACE: &'static str = "WalkSurface";
pub const ZONE_SURFACE_GATE: &'static str = "SurfaceGate";
pub const ZONE_COLLISION_AREA: &'static str = "CollisionArea";
pub const ZONE_COLLISION_LINE: &'static str = "CollisionLine";
pub const ZONE_HAZARD: &'static str = "HazardZone";
pub const ZONE_PROMPT: &'static str = "PromptZone";
pub const ZONE_OBJECTIVE: &'static str = "ObjectiveZone";
pub const ZONE_CHECKPOINT: &'static str = "Checkpoint";
pub const ZONE_EVENT_TRIGGER: &'static str = "EventTrigger";
pub const ZONE_TRIGGER: &'static str = "Trigger";

/// The zone type table, in lookup order.
pub open spec fn zone_table() -> Seq<ZoneTypeDef> {
    seq![
        ZoneTypeDef { key: ZONE_SCAN_AREA, zh_label: "扫描区", kind: ZoneTypeKind::ScanArea, editor_preset: false },
        ZoneTypeDef { key: ZONE_MAP_TRANSITION, zh_label: "转场", kind: ZoneTypeKind::MapTransition, editor_preset: true },
        ZoneTypeDef { key: ZONE_NO_SPAWN, zh_label: "禁止出生", kind: ZoneTypeKind::NoSpawn, editor_preset: false },
        ZoneTypeDef { key: ZONE_CAMERA_BOUNDS, zh_label: "镜头边界", kind: ZoneTypeKind::CameraBounds, editor_preset: false },
        ZoneTypeDef { key: ZONE_WALK_SURFACE, zh_label: "可走表面", kind: ZoneTypeKind::WalkSurface, editor_preset: true },
        ZoneTypeDef { key: ZONE_SURFACE_GATE, zh_label: "表面门", kind: ZoneTypeKind::SurfaceGate, editor_preset: true },
        ZoneTypeDef { key: ZONE_COLLISION_AREA, zh_label: "碰撞区域", kind: ZoneTypeKind::CollisionArea, editor_preset: true },
        ZoneTypeDef { key: ZONE_COLLISION_LINE, zh_label: "碰撞线", kind: ZoneTypeKind::CollisionLine, editor_preset: true },
        ZoneTypeDef { key: ZONE_HAZARD, zh_label: "危险区", kind: ZoneTypeKind::Hazard, editor_preset: true },
        ZoneTypeDef { key: ZONE_PROMPT, zh_label: "提示区", kind: ZoneTypeKind::Prompt, editor_preset: true },
        ZoneTypeDef { key: ZONE_OBJECTIVE, zh_label: "目标区", kind: ZoneTypeKind::Objective, editor_preset: true },
        ZoneTypeDef { key: ZONE_CHECKPOINT, zh_label: "检查点", kind: ZoneTypeKind::Checkpoint, editor_preset: true },
        ZoneTypeDef { key: ZONE_EVENT_TRIGGER, zh_label: "事件触发", kind: ZoneTypeKind::EventTrigger, editor_preset: true },
        ZoneTypeDef { key: ZONE_TRIGGER, zh_label: "触发区", kind: ZoneTypeKind::Trigger, editor_preset: false },
    ]
}

/// The zone type table (`ZONE_TYPE_DEFS`).
pub fn zone_type_defs() -> (r: Vec<ZoneTypeDef>)
    ensures
        r@ == zone_table(),
{
    let r = vec![
        ZoneTypeDef::new(ZONE_SCAN_AREA, "扫描区", ZoneTypeKind::ScanArea, false),
        ZoneTypeDef::new(ZONE_MAP_TRANSITION, "转场", ZoneTypeKind::MapTransition, true),
        ZoneTypeDef::new(ZONE_NO_SPAWN, "禁止出生", ZoneTypeKind::NoSpawn, false),
        ZoneTypeDef::new(ZONE_CAMERA_BOUNDS, "镜头边界", ZoneTypeKind::CameraBounds, false),
        ZoneTypeDef::new(ZONE_WALK_SURFACE, "可走表面", ZoneTypeKind::WalkSurface, true),
        ZoneTypeDef::new(ZONE_SURFACE_GATE, "表面门", ZoneTypeKind::SurfaceGate, true),
        ZoneTypeDef::new(ZONE_COLLISION_AREA, "碰撞区域", ZoneTypeKind::CollisionArea, true),
        ZoneTypeDef::new(ZONE_COLLISION_LINE, "碰撞线", ZoneTypeKind::CollisionLine, true),
        ZoneTypeDef::new(ZONE_HAZARD, "危险区", ZoneTypeKind::Hazard, true),
        ZoneTypeDef::new(ZONE_PROMPT, "提示区", ZoneTypeKind::Prompt, true),
        ZoneTypeDef::new(ZONE_OBJECTIVE, "目标区", ZoneTypeKind::Objective, true),
        ZoneTypeDef::new(ZONE_CHECKPOINT, "检查点", ZoneTypeKind::Checkpoint, true),
        ZoneTypeDef::new(ZONE_EVENT_TRIGGER, "事件触发", ZoneTypeKind::EventTrigger, true),
        ZoneTypeDef::new(ZONE_TRIGGER, "触发区", ZoneTypeKind::Trigger, false),
    ];
    assert(r@ =~= zone_table());
    r
}

/// First table entry whose key is `key`.
pub open spec fn find_zone(defs: Seq<ZoneTypeDef>, key: Seq<char>) -> Option<ZoneTypeDef>
    decreases defs.len(),
{
    if defs.len() == 0 {
        None
    } else if defs[0].key@ == key {
        Some(defs[0])
    } else {
        find_zone(defs.drop_first(), key)
    }
}

pub open spec fn spec_zone_type_def(zone_type: Seq<char>) -> Option<ZoneTypeDef> {
    find_zone(zone_table(), zone_type)
}

/// The definition whose key is exactly `zone_type`.
pub fn zone_type_def(zone_type: &str) -> (r: Option<ZoneTypeDef>)
    ensures
        r == spec_zone_type_def(zone_type@),
{
    let defs = zone_type_defs();
    assert(defs@.subrange(0, defs@.len() as int) =~= defs@);
    let mut i: usize = 0;
    while i < defs.len()
        invariant
            defs@ == zone_table(),
            i <= defs.len(),
            find_zone(zone_table(), zone_type@) == find_zone(defs@.subrange(i as int, defs@.len() as int), zone_type@),
        decreases defs.len() - i,
    {
        let ghost rest = defs@.subrange(i as int, defs@.len() as int);
        assert(rest.drop_first() =~= defs@.subrange(i + 1, defs@.len() as int));
        if str_eq(defs[i].key, zone_type) {
            return Some(defs[i]);
        }
        i = i + 1;
    }
    None
}

pub fn is_known_zone_type(zone_type: &str) -> (r: bool)
    ensures
        r == spec_zone_type_def(zone_type@).is_some(),
{
    zone_type_def(zone_type).is_some()
}

pub fn zone_type_allows_surface(zone_type: &str) -> (r: bool)
    ensures
        r == (spec_zone_type_def(zone_type@) matches Some(d) && kind_allows_surface(d.kind)),
{
    match zone_type_def(zone_type) {
        Some(d) => d.allows_surface(),
        None => false,
    }
}

pub fn zone_type_is_line_like(zone_type: &str) -> (r: bool)
    ensures
        r == (spec_zone_type_def(zone_type@) matches Some(d) && kind_is_line_like(d.kind)),
{
    match zone_type_def(zone_type) {
        Some(d) => d.is_line_like(),
        None => false,
    }
}

pub fn zone_type_is_collision_scope(zone_type: &str) -> (r: bool)
    ensures
        r == (spec_zone_type_def(zone_type@) matches Some(d) && kind_is_collision_scope(d.kind)),
{
    match zone_type_def(zone_type) {
        Some(d) => d.is_collision_scope(),
        None => false,
    }
}

pub fn zone_type_is_objective_like(zone_type: &str) -> (r: bool)
    ensures
        r == (spec_zone_type_def(zone_type@) matches Some(d) && kind_is_objective_like(d.kind)),
{
    match zone_type_def(zone_type) {
        Some(d) => d.is_objective_like(),
        None => false,
    }
}

/// Zone types offered as presets in the editor (`EDITOR_ZONE_TYPE_PRESETS`).
pub fn editor_zone_type_presets() -> (r: Vec<ZoneTypeDef>)
    ensures
        r@ == seq![zone_table()[4], zone_table()[5], zone_table()[6], zone_table()[7],
            zone_table()[1], zone_table()[8], zone_table()[9], zone_table()[10], zone_table()[11]],
{
    let t = zone_type_defs();
    vec![t[4], t[5], t[6], t[7], t[1], t[8], t[9], t[10], t[11]]
}

/// The zone type keys that map validation accepts (`KNOWN_ZONE_TYPE_KEYS`).
pub fn known_zone_type_keys() -> (r: Vec<&'static str>)
    ensures
        r@ == seq![ZONE_SCAN_AREA, ZONE_MAP_TRANSITION, ZONE_NO_SPAWN, ZONE_CAMERA_BOUNDS,
            ZONE_WALK_SURFACE, ZONE_SURFACE_GATE, ZONE_COLLISION_AREA, ZONE_COLLISION_LINE,
            ZONE_HAZARD, ZONE_PROMPT, ZONE_OBJECTIVE, ZONE_CHECKPOINT, ZONE_TRIGGER],
{
    vec![ZONE_SCAN_AREA, ZONE_MAP_TRANSITION, ZONE_NO_SPAWN, ZONE_CAMERA_BOUNDS,
        ZONE_WALK_SURFACE, ZONE_SURFACE_GATE, ZONE_COLLISION_AREA, ZONE_COLLISION_LINE,
        ZONE_HAZARD, ZONE_PROMPT, ZONE_OBJECTIVE, ZONE_CHECKPOINT, ZONE_TRIGGER]
}

/// Metadata of one entity type, with the legacy names it still answers to.
#[derive(Clone, Copy, Debug, PartialEq, Eq)]
pub struct EntityTypeDef {
    pub key: &'static str,
    pub zh_label: &'static str,
    pub aliases: &'static [&'static str],
    pub legacy_unlock_from_codex: bool,
}

pub open spec fn entity_matches(d: EntityTypeDef, value: Seq<char>) -> bool {
    d.key@ == value || exists|i: int| 0 <= i < d.aliases@.len() && (#[trigger] d.aliases@[i])@ == value
}

impl EntityTypeDef {
    pub fn new(
        key: &'static str,
        zh_label: &'static str,
        aliases: &'static [&'static str],
        legacy_unlock_from_codex: bool,
    ) -> (r: Self)
        ensures
            r == (EntityTypeDef { key, zh_label, aliases, legacy_unlock_from_codex }),
    {
        EntityTypeDef { key, zh_label, aliases, legacy_unlock_from_codex }
    }

    /// Whether `value` is the key or one of the aliases.
    fn matches(self, value: &str) -> (r: bool)
        ensures
            r == entity_matches(self, value@),
    {
        if str_eq(self.key, value) {
            return true;
        }
        let mut i: usize = 0;
        while i < self.aliases.len()
            invariant
                i <= self.aliases@.len(),
                self.key@ != value@,
                forall|j: int| 0 <= j < i ==> (#[trigger] self.aliases@[j])@ != value@,
            decreases self.aliases@.len() - i,
        {
            if str_eq(self.aliases[i], value) {
                return true;
            }
            i = i + 1;
        }
        false
    }
}

pub const ENTITY_DECORATION: &'static str = "Decoration";
pub const ENTITY_SCAN_TARGET: &'static str = "ScanTarget";
pub const ENTITY_FACILITY_ENTRANCE: &'static str = "FacilityEntrance";
pub const ENTITY_FACILITY_EXIT: &'static str = "FacilityExit";
pub const ENTITY_DOOR: &'static str = "Door";

pub fn entity_type_defs() -> (r: Vec<EntityTypeDef>)
    ensures
        r@.len() == 5,
        r@[0] == (EntityTypeDef { key: ENTITY_DECORATION, zh_label: "装饰", aliases: r@[0].aliases, legacy_unlock_from_codex: false }),
        r@[0].aliases@.len() == 0,
        r@[1] == (EntityTypeDef { key: ENTITY_SCAN_TARGET, zh_label: "扫描目标", aliases: r@[1].aliases, legacy_unlock_from_codex: false }),
        r@[1].aliases@.len() == 0,
        r@[2] == (EntityTypeDef { key: ENTITY_FACILITY_ENTRANCE, zh_label: "设施入口", aliases: r@[2].aliases, legacy_unlock_from_codex: true }),
        r@[2].aliases@ == seq!["Entrance"],
        r@[3] == (EntityTypeDef { key: ENTITY_FACILITY_EXIT, zh_label: "设施出口", aliases: r@[3].aliases, legacy_unlock_from_codex: false }),
        r@[3].aliases@ == seq!["Exit"],
        r@[4] == (EntityTypeDef { key: ENTITY_DOOR, zh_label: "门", aliases: r@[4].aliases, legacy_unlock_from_codex: true }),
        r@[4].aliases@.len() == 0,
{
    let none: &'static [&'static str] = &[];
    vec![
        EntityTypeDef::new(ENTITY_DECORATION, "装饰", none, false),
        EntityTypeDef::new(ENTITY_SCAN_TARGET, "扫描目标", none, false),
        EntityTypeDef::new(ENTITY_FACILITY_ENTRANCE, "设施入口", &["Entrance"], true),
        EntityTypeDef::new(ENTITY_FACILITY_EXIT, "设施出口", &["Exit"], false),
        EntityTypeDef::new(ENTITY_DOOR, "门", none, true),
    ]
}

/// Position in the entity type table of the first definition that answers to `v`, or -1.
pub open spec fn entity_index(v: Seq<char>) -> int {
    if v == ENTITY_DECORATION@ {
        0
    } else if v == ENTITY_SCAN_TARGET@ {
        1
    } else if v == ENTITY_FACILITY_ENTRANCE@ || v == "Entrance"@ {
        2
    } else if v == ENTITY_FACILITY_EXIT@ || v == "Exit"@ {
        3
    } else if v == ENTITY_DOOR@ {
        4
    } else {
        -1
    }
}

/// The fields of the entity type definition at table position `i`.
pub open spec fn entity_def_at(d: EntityTypeDef, i: int) -> bool {
    if i == 0 {
        d.key == ENTITY_DECORATION && d.zh_label == "装饰" && d.aliases@.len() == 0 && !d.legacy_unlock_from_codex
    } else if i == 1 {
        d.key == ENTITY_SCAN_TARGET && d.zh_label == "扫描目标" && d.aliases@.len() == 0 && !d.legacy_unlock_from_codex
    } else if i == 2 {
        d.key == ENTITY_FACILITY_ENTRANCE && d.zh_label == "设施入口" && d.aliases@ == seq!["Entrance"]
            && d.legacy_unlock_from_codex
    } else if i == 3 {
        d.key == ENTITY_FACILITY_EXIT && d.zh_label == "设施出口" && d.aliases@ == seq!["Exit"]
            && !d.legacy_unlock_from_codex
    } else if i == 4 {
        d.key == ENTITY_DOOR && d.zh_label == "门" && d.aliases@.len() == 0 && d.legacy_unlock_from_codex
    } else {
        false
    }
}

/// The first entity type definition whose key or alias is `entity_type`.
pub fn entity_type_def(entity_type: &str) -> (r: Option<EntityTypeDef>)
    ensures
        r is Some <==> entity_index(entity_type@) >= 0,
        r matches Some(d) ==> entity_def_at(d, entity_index(entity_type@)),
{
    let t = entity_type_defs();
    proof {
        assert(t@[2].aliases@[0] == "Entrance");
        assert(t@[3].aliases@[0] == "Exit");
    }
    if t[0].matches(entity_type) {
        Some(t[0])
    } else if t[1].matches(entity_type) {
        Some(t[1])
    } else if t[2].matches(entity_type) {
        Some(t[2])
    } else if t[3].matches(entity_type) {
        Some(t[3])
    } else if t[4].matches(entity_type) {
        Some(t[4])
    } else {
        None
    }
}

/// The canonical key of an entity type or of one of its aliases.
pub fn canonical_entity_type(entity_type: &str) -> (r: Option<&'static str>)
    ensures
        r is Some <==> entity_index(entity_type@) >= 0,
        r matches Some(k) ==> k == entity_key_at(entity_index(entity_type@)),
{
    match entity_type_def(entity_type) {
        Some(d) => Some(d.key),
        None => None,
    }
}

pub open spec fn entity_key_at(i: int) -> &'static str {
    if i == 0 {
        ENTITY_DECORATION
    } else if i == 1 {
        ENTITY_SCAN_TARGET
    } else if i == 2 {
        ENTITY_FACILITY_ENTRANCE
    } else if i == 3 {
        ENTITY_FACILITY_EXIT
    } else {
        ENTITY_DOOR
    }
}

/// Whether the entity type still unlocks from its asset's codex id (entrances and doors).
pub fn entity_type_uses_implicit_legacy_unlock(entity_type: &str) -> (r: bool)
    ensures
        r == (entity_index(entity_type@) == 2 || entity_index(entity_type@) == 4),
{
    match entity_type_def(entity_type) {
        Some(d) => d.legacy_unlock_from_codex,
        None => false,
    }
}

/// `DEFAULT_ENTITY_TYPE_KEYS`.
pub fn default_entity_type_keys() -> (r: Vec<&'static str>)
    ensures
        r@ == seq![ENTITY_DECORATION, ENTITY_SCAN_TARGET, ENTITY_FACILITY_ENTRANCE, ENTITY_FACILITY_EXIT, ENTITY_DOOR],
{
    vec![ENTITY_DECORATION, ENTITY_SCAN_TARGET, ENTITY_FACILITY_ENTRANCE, ENTITY_FACILITY_EXIT, ENTITY_DOOR]
}

/// Metadata of a player meter.
#[derive(Clone, Copy, Debug, PartialEq, Eq)]
pub struct MeterDef {
    pub key: &'static str,
    pub english_label: &'static str,
    pub zh_label: &'static str,
    pub hazard_allowed: bool,
}

impl MeterDef {
    pub fn new(key: &'static str, english_label: &'static str, zh_label: &'static str, hazard_allowed: bool) -> (r: Self)
        ensures
            r == (MeterDef { key, english_label, zh_label, hazard_allowed }),
    {
        MeterDef { key, english_label, zh_label, hazard_allowed }
    }
}

pub const METER_HEALTH: &'static str = "health";
pub const METER_STAMINA: &'static str = "stamina";
pub const METER_SUIT: &'static str = "suit";
pub const METER_LOAD: &'static str = "load";
pub const METER_OXYGEN: &'static str = "oxygen";
pub const METER_RADIATION: &'static str = "radiation";
pub const METER_SPORES: &'static str = "spores";
pub const METER_HEAT: &'static str = "heat";
pub const METER_BIO: &'static str = "bio";
pub const METER_MINERAL: &'static str = "mineral";
pub const METER_RUIN: &'static str = "ruin";
pub const METER_DATA: &'static str = "data";

pub open spec fn meter_table() -> Seq<MeterDef> {
    seq![
        MeterDef { key: METER_HEALTH, english_label: "Health", zh_label: "生命", hazard_allowed: true },
        MeterDef { key: METER_STAMINA, english_label: "Stamina", zh_label: "体力", hazard_allowed: true },
        MeterDef { key: METER_SUIT, english_label: "Suit", zh_label: "外骨骼", hazard_allowed: true },
        MeterDef { key: METER_LOAD, english_label: "Load", zh_label: "负重", hazard_allowed: false },
        MeterDef { key: METER_OXYGEN, english_label: "Oxygen", zh_label: "氧气", hazard_allowed: true },
        MeterDef { key: METER_RADIATION, english_label: "Radiation", zh_label: "辐射抗性", hazard_allowed: true },
        MeterDef { key: METER_SPORES, english_label: "Spore resistance", zh_label: "孢子抗性", hazard_allowed: true },
        MeterDef { key: METER_HEAT, english_label: "Heat resistance", zh_label: "热抗性", hazard_allowed: false },
        MeterDef { key: METER_BIO, english_label: "Bio", zh_label: "生物", hazard_allowed: false },
        MeterDef { key: METER_MINERAL, english_label: "Mineral", zh_label: "矿物", hazard_allowed: false },
        MeterDef { key: METER_RUIN, english_label: "Ruin", zh_label: "遗迹", hazard_allowed: false },
        MeterDef { key: METER_DATA, english_label: "Data", zh_label: "数据", hazard_allowed: false },
    ]
}

/// The meter table (`METER_DEFS`).
pub fn meter_defs() -> (r: Vec<MeterDef>)
    ensures
        r@ == meter_table(),
{
    let r = vec![
        MeterDef::new(METER_HEALTH, "Health", "生命", true),
        MeterDef::new(METER_STAMINA, "Stamina", "体力", true),
        MeterDef::new(METER_SUIT, "Suit", "外骨骼", true),
        MeterDef::new(METER_LOAD, "Load", "负重", false),
        MeterDef::new(METER_OXYGEN, "Oxygen", "氧气", true),
        MeterDef::new(METER_RADIATION, "Radiation", "辐射抗性", true),
        MeterDef::new(METER_SPORES, "Spore resistance", "孢子抗性", true),
        MeterDef::new(METER_HEAT, "Heat resistance", "热抗性", false),
        MeterDef::new(METER_BIO, "Bio", "生物", false),
        MeterDef::new(METER_MINERAL, "Mineral", "矿物", false),
        MeterDef::new(METER_RUIN, "Ruin", "遗迹", false),
        MeterDef::new(METER_DATA, "Data", "数据", false),
    ];
    assert(r@ =~= meter_table());
    r
}

pub open spec fn find_meter(defs: Seq<MeterDef>, key: Seq<char>) -> Option<MeterDef>
    decreases defs.len(),
{
    if defs.len() == 0 {
        None
    } else if defs[0].key@ == key {
        Some(defs[0])
    } else {
        find_meter(defs.drop_first(), key)
    }
}

/// The meter definition whose key is exactly `meter`.
pub fn meter_def(meter: &str) -> (r: Option<MeterDef>)
    ensures
        r == find_meter(meter_table(), meter@),
{
    let defs = meter_defs();
    assert(defs@.subrange(0, defs@.len() as int) =~= defs@);
    let mut i: usize = 0;
    while i < defs.len()
        invariant
            defs@ == meter_table(),
            i <= defs.len(),
            find_meter(meter_table(), meter@) == find_meter(defs@.subrange(i as int, defs@.len() as int), meter@),
        decreases defs.len() - i,
    {
        let ghost rest = defs@.subrange(i as int, defs@.len() as int);
        assert(rest.drop_first() =~= defs@.subrange(i + 1, defs@.len() as int));
        if str_eq(defs[i].key, meter) {
            return Some(defs[i]);
        }
        i = i + 1;
    }
    None
}

/// Whether `meter` names a meter that hazard zones may drain.
pub fn is_known_hazard_meter(meter: &str) -> (r: bool)
    ensures
        r == (find_meter(meter_table(), meter@) matches Some(d) && d.hazard_allowed),
{
    match meter_def(meter) {
        Some(d) => d.hazard_allowed,
        None => false,
    }
}

/// `HAZARD_METER_KEYS`.
pub fn hazard_meter_keys() -> (r: Vec<&'static str>)
    ensures
        r@ == seq![METER_HEALTH, METER_STAMINA, METER_SUIT, METER_OXYGEN, METER_RADIATION, METER_SPORES],
{
    vec![METER_HEALTH, METER_STAMINA, METER_SUIT, METER_OXYGEN, METER_RADIATION, METER_SPORES]
}

pub const ITEM_RUIN_KEY: &'static str = "ruin_key";
pub const ITEM_MED_INJECTOR: &'static str = "med_injector";
pub const ITEM_SCANNER_TOOL: &'static str = "scanner_tool";
pub const ITEM_ARTIFACT_CORE: &'static str = "artifact_core";
pub const ITEM_DATA_SHARD: &'static str = "data_shard";
pub const ITEM_ENERGY_CELL: &'static str = "energy_cell";
pub const ITEM_COOLANT_CANISTER: &'static str = "coolant_canister";
pub const ITEM_ALIEN_CRYSTAL_SAMPLE: &'static str = "alien_crystal_sample";
pub const ITEM_BIO_SAMPLE_VIAL: &'static str = "bio_sample_vial";
pub const ITEM_SCRAP_PART: &'static str = "scrap_part";
pub const ITEM_METAL_FRAGMENT: &'static str = "metal_fragment";
pub const ITEM_GLOW_FUNGUS_SAMPLE: &'static str = "glow_fungus_sample";

/// `COMMON_UNLOCK_ITEM_IDS`.
pub fn common_unlock_item_ids() -> (r: Vec<&'static str>)
    ensures
        r@ == seq![ITEM_RUIN_KEY, ITEM_MED_INJECTOR, ITEM_SCANNER_TOOL, ITEM_ARTIFACT_CORE,
            ITEM_DATA_SHARD, ITEM_ENERGY_CELL, ITEM_COOLANT_CANISTER, ITEM_ALIEN_CRYSTAL_SAMPLE,
            ITEM_BIO_SAMPLE_VIAL, ITEM_SCRAP_PART, ITEM_METAL_FRAGMENT, ITEM_GLOW_FUNGUS_SAMPLE],
{
    vec![ITEM_RUIN_KEY, ITEM_MED_INJECTOR, ITEM_SCANNER_TOOL, ITEM_ARTIFACT_CORE,
        ITEM_DATA_SHARD, ITEM_ENERGY_CELL, ITEM_COOLANT_CANISTER, ITEM_ALIEN_CRYSTAL_SAMPLE,
        ITEM_BIO_SAMPLE_VIAL, ITEM_SCRAP_PART, ITEM_METAL_FRAGMENT, ITEM_GLOW_FUNGUS_SAMPLE]
}

/// A scene the runtime can be launched into.
#[derive(Clone, Copy, Debug, PartialEq, Eq)]
pub struct RuntimeSceneDef {
    pub key: &'static str,
    pub launch_arg: &'static str,
    pub aliases: &'static [&'static str],
}

/// `value`, trimmed, names the scene up to ASCII case by key, launch argument or alias.
pub open spec fn scene_matches(d: RuntimeSceneDef, value: Seq<char>) -> bool {
    let v = trimmed(value);
    eq_ascii_ci(d.key@, v) || eq_ascii_ci(d.launch_arg@, v)
        || exists|i: int| 0 <= i < d.aliases@.len() && eq_ascii_ci((#[trigger] d.aliases@[i])@, v)
}

impl RuntimeSceneDef {
    pub fn new(key: &'static str, launch_arg: &'static str, aliases: &'static [&'static str]) -> (r: Self)
        ensures
            r == (RuntimeSceneDef { key, launch_arg, aliases }),
    {
        RuntimeSceneDef { key, launch_arg, aliases }
    }

    fn matches(self, value: &str) -> (r: bool)
        ensures
            r == scene_matches(self, value@),
    {
        let v = trim(value);
        if eq_ignore_ascii_case(self.key, v) || eq_ignore_ascii_case(self.launch_arg, v) {
            return true;
        }
        let mut i: usize = 0;
        while i < self.aliases.len()
            invariant
                v@ == trimmed(value@),
                i <= self.aliases@.len(),
                forall|j: int| 0 <= j < i ==> !eq_ascii_ci((#[trigger] self.aliases@[j])@, v@),
            decreases self.aliases@.len() - i,
        {
            if eq_ignore_ascii_case(self.aliases[i], v) {
                assert(eq_ascii_ci(self.aliases@[i as int]@, v@));
                return true;
            }
            i = i + 1;
        }
        false
    }
}

pub const SCENE_OVERWORLD: &'static str = "Overworld";
pub const SCENE_FACILITY: &'static str = "Facility";
pub const SCENE_MAIN_MENU: &'static str = "MainMenu";

/// The scene definition at table position `i` (overworld, facility, main menu).
pub open spec fn scene_def_at(d: RuntimeSceneDef, i: int) -> bool {
    if i == 0 {
        d.key == SCENE_OVERWORLD && d.launch_arg == "overworld" && d.aliases@ == seq!["world"]
    } else if i == 1 {
        d.key == SCENE_FACILITY && d.launch_arg == "facility" && d.aliases@.len() == 0
    } else if i == 2 {
        d.key == SCENE_MAIN_MENU && d.launch_arg == "main-menu" && d.aliases@ == seq!["main_menu", "mainmenu", "menu"]
    } else {
        false
    }
}

/// `RUNTIME_SCENE_DEFS`: overworld, facility and main menu.
pub fn runtime_scene_defs() -> (r: Vec<RuntimeSceneDef>)
    ensures
        r@.len() == 3,
        forall|i: int| 0 <= i < 3 ==> scene_def_at(#[trigger] r@[i], i),
{
    let none: &'static [&'static str] = &[];
    let r = vec![
        RuntimeSceneDef::new(SCENE_OVERWORLD, "overworld", &["world"]),
        RuntimeSceneDef::new(SCENE_FACILITY, "facility", none),
        RuntimeSceneDef::new(SCENE_MAIN_MENU, "main-menu", &["main_menu", "mainmenu", "menu"]),
    ];
    assert(r@[0].key == SCENE_OVERWORLD);
    assert(r@[0].launch_arg == "overworld");
    assert(r@[0].aliases@ == seq!["world"]);
    assert(scene_def_at(r@[0], 0));
    assert(scene_def_at(r@[1], 1));
    assert(scene_def_at(r@[2], 2));
    r
}

/// `FIELD_SCENE_DEFS`: the scenes that hold a map (overworld and facility).
pub fn field_scene_defs() -> (r: Vec<RuntimeSceneDef>)
    ensures
        r@.len() == 2,
        forall|i: int| 0 <= i < 2 ==> scene_def_at(#[trigger] r@[i], i),
{
    let none: &'static [&'static str] = &[];
    let r = vec![
        RuntimeSceneDef::new(SCENE_OVERWORLD, "overworld", &["world"]),
        RuntimeSceneDef::new(SCENE_FACILITY, "facility", none),
    ];
    assert(r@[0].aliases@ == seq!["world"]);
    assert(scene_def_at(r@[0], 0));
    assert(scene_def_at(r@[1], 1));
    r
}

/// `FIELD_SCENE_KEYS`.
pub fn field_scene_keys() -> (r: Vec<&'static str>)
    ensures
        r@ == seq![SCENE_OVERWORLD, SCENE_FACILITY],
{
    vec![SCENE_OVERWORLD, SCENE_FACILITY]
}

/// Whether `v` is one of the names of the scene at table position `i`, ignoring ASCII case.
pub open spec fn scene_names_match(i: int, v: Seq<char>) -> bool {
    if i == 0 {
        eq_ascii_ci(SCENE_OVERWORLD@, v) || eq_ascii_ci("overworld"@, v) || eq_ascii_ci("world"@, v)
    } else if i == 1 {
        eq_ascii_ci(SCENE_FACILITY@, v) || eq_ascii_ci("facility"@, v)
    } else if i == 2 {
        eq_ascii_ci(SCENE_MAIN_MENU@, v) || eq_ascii_ci("main-menu"@, v) || eq_ascii_ci("main_menu"@, v)
            || eq_ascii_ci("mainmenu"@, v) || eq_ascii_ci("menu"@, v)
    } else {
        false
    }
}

/// Position of the first of the first `n` scenes that `value` (trimmed) names, or -1.
pub open spec fn scene_index(value: Seq<char>, n: int) -> int {
    let v = trimmed(value);
    if n > 0 && scene_names_match(0, v) {
        0
    } else if n > 1 && scene_names_match(1, v) {
        1
    } else if n > 2 && scene_names_match(2, v) {
        2
    } else {
        -1
    }
}

proof fn lemma_scene_match(d: RuntimeSceneDef, i: int, value: Seq<char>)
    requires
        scene_def_at(d, i),
    ensures
        scene_matches(d, value) == scene_names_match(i, trimmed(value)),
{
    let v = trimmed(value);
    if i == 0 {
        assert(d.aliases@[0] == "world");
        if eq_ascii_ci("world"@, v) {
            assert(eq_ascii_ci(d.aliases@[0]@, v));
        }
    } else if i == 2 {
        assert(d.aliases@[0] == "main_menu");
        assert(d.aliases@[1] == "mainmenu");
        assert(d.aliases@[2] == "menu");
        if eq_ascii_ci("main_menu"@, v) {
            assert(eq_ascii_ci(d.aliases@[0]@, v));
        }
        if eq_ascii_ci("mainmenu"@, v) {
            assert(eq_ascii_ci(d.aliases@[1]@, v));
        }
        if eq_ascii_ci("menu"@, v) {
            assert(eq_ascii_ci(d.aliases@[2]@, v));
        }
    }
}

/// The first runtime scene that `scene` names (trimmed, ignoring ASCII case).
pub fn runtime_scene_def(scene: &str) -> (r: Option<RuntimeSceneDef>)
    ensures
        r is Some <==> scene_index(scene@, 3) >= 0,
        r matches Some(d) ==> scene_def_at(d, scene_index(scene@, 3)),
{
    let t = runtime_scene_defs();
    proof {
        lemma_scene_match(t@[0], 0, scene@);
        lemma_scene_match(t@[1], 1, scene@);
        lemma_scene_match(t@[2], 2, scene@);
    }
    if t[0].matches(scene) {
        Some(t[0])
    } else if t[1].matches(scene) {
        Some(t[1])
    } else if t[2].matches(scene) {
        Some(t[2])
    } else {
        None
    }
}

/// The first field scene that `scene` names (trimmed, ignoring ASCII case).
pub fn field_scene_def(scene: &str) -> (r: Option<RuntimeSceneDef>)
    ensures
        r is Some <==> scene_index(scene@, 2) >= 0,
        r matches Some(d) ==> scene_def_at(d, scene_index(scene@, 2)),
{
    let t = field_scene_defs();
    proof {
        lemma_scene_match(t@[0], 0, scene@);
        lemma_scene_match(t@[1], 1, scene@);
    }
    if t[0].matches(scene) {
        Some(t[0])
    } else if t[1].matches(scene) {
        Some(t[1])
    } else {
        None
    }
}

pub fn is_known_runtime_scene(scene: &str) -> (r: bool)
    ensures
        r == (scene_index(scene@, 3) >= 0),
{
    runtime_scene_def(scene).is_some()
}

/// The launch argument of the field scene that `mode` names; `"overworld"` otherwise.
pub fn launch_scene_for_mode(mode: &str) -> (r: &'static str)
    ensures
        r == (if scene_index(mode@, 2) == 1 { "facility" } else { "overworld" }),
{
    match field_scene_def(mode) {
        Some(d) => d.launch_arg,
        None => "overworld",
    }
}

} // verus!
