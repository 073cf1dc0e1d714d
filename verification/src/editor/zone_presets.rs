use vstd::prelude::*;

use crate::text::str_eq;

verus! {

/// The quick zone types of the inspector.
#[derive(Clone, Copy, Debug, PartialEq, Eq, Structural)]
pub enum ZoneTypePreset {
    WalkSurface,
    CollisionArea,
    CollisionLine,
    MapTransition,
    HazardZone,
    PromptZone,
    ObjectiveZone,
    Checkpoint,
}

/// Every preset, in the order of the inspector's checkboxes.
pub fn all_zone_type_presets() -> (r: [ZoneTypePreset; 8])
    ensures
        r@ == seq![
            ZoneTypePreset::WalkSurface,
            ZoneTypePreset::CollisionArea,
            ZoneTypePreset::CollisionLine,
            ZoneTypePreset::MapTransition,
            ZoneTypePreset::HazardZone,
            ZoneTypePreset::PromptZone,
            ZoneTypePreset::ObjectiveZone,
            ZoneTypePreset::Checkpoint,
        ],
{
    let r = [
        ZoneTypePreset::WalkSurface,
        ZoneTypePreset::CollisionArea,
        ZoneTypePreset::CollisionLine,
        ZoneTypePreset::MapTransition,
        ZoneTypePreset::HazardZone,
        ZoneTypePreset::PromptZone,
        ZoneTypePreset::ObjectiveZone,
        ZoneTypePreset::Checkpoint,
    ];
    assert(r@ =~= seq![
        ZoneTypePreset::WalkSurface,
        ZoneTypePreset::CollisionArea,
        ZoneTypePreset::CollisionLine,
        ZoneTypePreset::MapTransition,
        ZoneTypePreset::HazardZone,
        ZoneTypePreset::PromptZone,
        ZoneTypePreset::ObjectiveZone,
        ZoneTypePreset::Checkpoint,
    ]);
    r
}

/// The zone type a preset sets.
pub open spec fn preset_zone_type(p: ZoneTypePreset) -> &'static str {
    match p {
        ZoneTypePreset::WalkSurface => "WalkSurface",
        ZoneTypePreset::CollisionArea => "CollisionArea",
        ZoneTypePreset::CollisionLine => "CollisionLine",
        ZoneTypePreset::MapTransition => "MapTransition",
        ZoneTypePreset::HazardZone => "HazardZone",
        ZoneTypePreset::PromptZone => "PromptZone",
        ZoneTypePreset::ObjectiveZone => "ObjectiveZone",
        ZoneTypePreset::Checkpoint => "Checkpoint",
    }
}

impl ZoneTypePreset {
    /// The preset's checkbox caption.
    pub fn label(self) -> (r: &'static str)
        ensures
            r == (match self {
                ZoneTypePreset::WalkSurface => "可走表面",
                ZoneTypePreset::CollisionArea => "碰撞区域",
                ZoneTypePreset::CollisionLine => "碰撞线",
                ZoneTypePreset::MapTransition => "转场",
                ZoneTypePreset::HazardZone => "危险区",
                ZoneTypePreset::PromptZone => "提示区",
                ZoneTypePreset::ObjectiveZone => "目标区",
                ZoneTypePreset::Checkpoint => "检查点",
            }),
    {
        match self {
            ZoneTypePreset::WalkSurface => "可走表面",
            ZoneTypePreset::CollisionArea => "碰撞区域",
            ZoneTypePreset::CollisionLine => "碰撞线",
            ZoneTypePreset::MapTransition => "转场",
            ZoneTypePreset::HazardZone => "危险区",
            ZoneTypePreset::PromptZone => "提示区",
            ZoneTypePreset::ObjectiveZone => "目标区",
            ZoneTypePreset::Checkpoint => "检查点",
        }
    }

    /// The zone type the preset sets.
    pub fn zone_type(self) -> (r: &'static str)
        ensures
            r == preset_zone_type(self),
    {
        match self {
            ZoneTypePreset::WalkSurface => "WalkSurface",
            ZoneTypePreset::CollisionArea => "CollisionArea",
            ZoneTypePreset::CollisionLine => "CollisionLine",
            ZoneTypePreset::MapTransition => "MapTransition",
            ZoneTypePreset::HazardZone => "HazardZone",
            ZoneTypePreset::PromptZone => "PromptZone",
            ZoneTypePreset::ObjectiveZone => "ObjectiveZone",
            ZoneTypePreset::Checkpoint => "Checkpoint",
        }
    }
}

/// What a zone preset reads and writes: the zone's type and which optional payloads
/// (walk surface, hazard, prompt, objective) the zone carries.
#[derive(Clone, Debug)]
pub struct ZonePayloads {
    pub zone_type: String,
    pub surface: bool,
    pub hazard: bool,
    pub prompt: bool,
    pub objective: bool,
}

/// The payloads after applying preset `p`: the type set, the payload the preset needs
/// added when missing (a walk surface, a hazard, a prompt, an objective), and for the
/// collision and transition presets the walk surface removed.
pub open spec fn preset_applied(z: ZonePayloads, p: ZoneTypePreset) -> (Seq<char>, bool, bool, bool, bool) {
    let t = preset_zone_type(p)@;
    match p {
        ZoneTypePreset::WalkSurface => (t, true, z.hazard, z.prompt, z.objective),
        ZoneTypePreset::CollisionArea | ZoneTypePreset::CollisionLine | ZoneTypePreset::MapTransition => (
            t,
            false,
            z.hazard,
            z.prompt,
            z.objective,
        ),
        ZoneTypePreset::HazardZone => (t, z.surface, true, z.prompt, z.objective),
        ZoneTypePreset::PromptZone => (t, z.surface, z.hazard, true, z.objective),
        ZoneTypePreset::ObjectiveZone | ZoneTypePreset::Checkpoint => (t, z.surface, z.hazard, z.prompt, true),
    }
}

pub open spec fn payload_view(z: ZonePayloads) -> (Seq<char>, bool, bool, bool, bool) {
    (z.zone_type@, z.surface, z.hazard, z.prompt, z.objective)
}

/// Applies a preset to a zone; whether anything changed.
pub fn apply_zone_type_preset(zone: &mut ZonePayloads, preset: ZoneTypePreset) -> (changed: bool)
    ensures
        payload_view(*final(zone)) == preset_applied(*old(zone), preset),
        changed == (payload_view(*final(zone)) != payload_view(*old(zone))),
{
    let t = preset.zone_type();
    let mut changed = !str_eq(zone.zone_type.as_str(), t);
    zone.zone_type = t.to_owned();
    match preset {
        ZoneTypePreset::WalkSurface => {
            if !zone.surface {
                zone.surface = true;
                changed = true;
            }
        },
        ZoneTypePreset::CollisionArea | ZoneTypePreset::CollisionLine | ZoneTypePreset::MapTransition => {
            if zone.surface {
                zone.surface = false;
                changed = true;
            }
        },
        ZoneTypePreset::HazardZone => {
            if !zone.hazard {
                zone.hazard = true;
                changed = true;
            }
        },
        ZoneTypePreset::PromptZone => {
            if !zone.prompt {
                zone.prompt = true;
                changed = true;
            }
        },
        ZoneTypePreset::ObjectiveZone | ZoneTypePreset::Checkpoint => {
            if !zone.objective {
                zone.objective = true;
                changed = true;
            }
        },
    }
    changed
}

/// Applying the same preset twice changes nothing the second time.
pub proof fn lemma_preset_idempotent(z: ZonePayloads, z2: ZonePayloads, p: ZoneTypePreset)
    requires
        payload_view(z2) == preset_applied(z, p),
    ensures
        preset_applied(z2, p) == payload_view(z2),
{
}

} // verus!
