use alien_archive::cutscenes::{CutsceneCompletion, CutsceneDatabase, CutsceneDefinition, CutsceneStep, CutsceneText};
use alien_archive::events::{
    EventAction, EventCondition, EventDatabase, EventScope, EventTrigger, EventValidationSeverity, WorldEventDefinition,
};
use alien_archive::items::{
    consumable_effect, is_equipment_module, item_max_stack, item_name, item_weight, pickup_reward_for_asset,
    research_meter_for_codex, scan_reward_for_codex, ConsumableEffectDef, ItemCategory, ItemDatabase, ItemDef,
    ItemRarity, ItemRewardDef, LocalizedTextDef, PickupRewardRule,
};
use alien_archive::objectives::{ObjectiveCheckpoint, ObjectiveDatabase, ObjectiveDefinition, ObjectiveText};
use alien_archive::map::WalkSurfaceKind;

fn cutscene(id: &str) -> CutsceneDefinition {
    let mut c = CutsceneDefinition::default();
    c.id = id.to_owned();
    c
}

#[test]
fn empty_cutscene_ids_are_filtered_and_trimmed() {
    let database = CutsceneDatabase::from_definitions(vec![cutscene("  intro.trimmed  "), CutsceneDefinition::default()]);

    assert!(database.get("intro.trimmed").is_some());
    assert_eq!(database.cutscenes().len(), 1);
}

#[test]
fn reindex_tracks_editor_mutations() {
    let mut database = CutsceneDatabase::from_definitions(vec![cutscene("intro.old")]);

    database.cutscenes_mut()[0].id = "intro.new".to_owned();
    database.reindex();

    assert!(database.get("intro.old").is_none());
    assert!(database.get("intro.new").is_some());
}

#[test]
fn cutscene_lookup_finds_the_last_of_repeated_ids() {
    let mut first = cutscene("intro.twice");
    first.play_once = false;
    let second = cutscene("intro.twice");
    let database = CutsceneDatabase::from_definitions(vec![first, second]);
    assert_eq!(database.cutscenes().len(), 2);
    assert!(database.get("intro.twice").unwrap().play_once);
    assert!(database.get("intro.none").is_none());
}

fn event(id: &str, actions: Vec<EventAction>) -> WorldEventDefinition {
    let mut e = WorldEventDefinition::default();
    e.id = id.to_owned();
    e.actions = actions;
    e
}

#[test]
fn validates_unknown_cutscene() {
    let database = EventDatabase::from_definitions(vec![event("bad", vec![EventAction::PlayCutscene("missing".to_owned())])]);

    let cutscenes = CutsceneDatabase::from_definitions(Vec::new());
    let issues = database.validate(Some(&cutscenes), None);
    assert!(issues.iter().any(|issue| issue.severity == EventValidationSeverity::Error));
}

#[test]
fn known_cutscene_and_checkpoint_pass_validation() {
    let mut e = event(
        "landing.ok",
        vec![
            EventAction::PlayCutscene("intro.new_game".to_owned()),
            EventAction::AdvanceObjective {
                objective_id: "secure_landing_site".to_owned(),
                checkpoint_id: Some("reach_beacon".to_owned()),
                complete_objective: false,
            },
            EventAction::ShowNotice("Signal logged".to_owned()),
        ],
    );
    e.conditions.push(EventCondition::FlagMissing("landing.ok.done".to_owned()));
    e.scope = EventScope::WorldOnce;
    e.trigger = EventTrigger::EnterZone;
    let database = EventDatabase::from_definitions(vec![e]);
    let cutscenes = CutsceneDatabase::from_definitions(vec![cutscene("intro.new_game")]);
    let objectives = ObjectiveDatabase::from_definitions(vec![objective("secure_landing_site", &["reach_beacon"])]);
    let issues = database.validate(Some(&cutscenes), Some(&objectives));
    assert!(issues.is_empty(), "{issues:?}");
    assert_eq!(database.get("landing.ok").unwrap().actions.len(), 3);
}

#[test]
fn event_validation_reports_blank_and_duplicate_ids() {
    let database = EventDatabase::from_definitions(vec![
        event("twice", vec![EventAction::SetFlag("f".to_owned())]),
        event("twice", vec![EventAction::SetFlag("g".to_owned())]),
    ]);
    let issues = database.validate(None, None);
    assert!(issues.iter().any(|issue| issue.severity == EventValidationSeverity::Error && issue.message.contains("twice")));
}

fn text(s: &str) -> ObjectiveText {
    ObjectiveText { english: s.to_owned(), chinese: s.to_owned() }
}

fn objective(id: &str, checkpoints: &[&str]) -> ObjectiveDefinition {
    ObjectiveDefinition {
        id: id.to_owned(),
        title: text("Title"),
        summary: text("Summary"),
        initial_status: "Active".to_owned(),
        checkpoints: checkpoints
            .iter()
            .map(|c| ObjectiveCheckpoint { id: (*c).to_owned(), title: text(c), detail: text(c) })
            .collect(),
    }
}

#[test]
fn objective_ids_are_trimmed_and_blank_ones_dropped() {
    let database = ObjectiveDatabase::from_definitions(vec![objective("  secure_landing_site ", &["a"]), objective(" ", &[])]);
    assert_eq!(database.objectives().len(), 1);
    assert_eq!(database.objectives()[0].id, "secure_landing_site");
    assert_eq!(database.get("secure_landing_site").unwrap().checkpoints.len(), 1);
    assert!(database.get(" ").is_none());
}

fn item(id: &str, max_stack: u32, weight: u32, equipment: bool, consumable: Option<ConsumableEffectDef>) -> ItemDef {
    ItemDef {
        id: id.to_owned(),
        name: LocalizedTextDef::new(id, id),
        category: ItemCategory::Components,
        texture_id: format!("tex_{id}"),
        icon_path: format!("icons/{id}.png"),
        max_stack,
        weight,
        rarity: ItemRarity::Common,
        research: 0,
        equipment_module: equipment,
        consumable,
    }
}

fn database() -> ItemDatabase {
    ItemDatabase::from_parts(
        "Overworld".to_owned(),
        vec![
            item("scrap_part", 99, 2, false, None),
            item("scanner_tool", 1, 5, true, None),
            item("energy_cell", 10, 1, false, Some(ConsumableEffectDef::new("stamina", 35))),
        ],
        vec![ItemRewardDef::new("scrap_part", 3)],
        vec![Some(0), None],
        vec![
            PickupRewardRule { asset_id: "ow_pickup_scrap".to_owned(), reward: ItemRewardDef::new("scrap_part", 2) },
            PickupRewardRule { asset_id: "ow_pickup_scrap".to_owned(), reward: ItemRewardDef::new("scrap_part", 9) },
        ],
    )
}

#[test]
fn item_lookups_answer_from_the_table() {
    let db = database();
    assert_eq!(item_max_stack(&db, "scrap_part"), Some(99));
    assert_eq!(item_max_stack(&db, "unknown"), None);
    assert_eq!(item_weight(&db, "scanner_tool"), 5);
    assert_eq!(item_weight(&db, "unknown"), 1);
    assert!(is_equipment_module(&db, "unknown", true));
    assert_eq!(item_name(&db, "energy_cell").unwrap().english, "energy_cell");
    assert!(is_equipment_module(&db, "scanner_tool", false));
    assert!(!is_equipment_module(&db, "scrap_part", false));
    assert_eq!(consumable_effect(&db, "energy_cell").unwrap().amount, 35);
    assert!(consumable_effect(&db, "scrap_part").is_none());
    assert_eq!(db.get("scanner_tool").unwrap().max_stack, 1);
}

#[test]
fn first_pickup_rule_wins() {
    let db = database();
    let reward = pickup_reward_for_asset(&db, "ow_pickup_scrap").unwrap();
    assert_eq!(reward.quantity, 2);
    assert!(!reward.locked);
    assert!(pickup_reward_for_asset(&db, "ow_pickup_none").is_none());
}

#[test]
fn scan_rewards_follow_codex_id_shape() {
    assert_eq!(scan_reward_for_codex("codex.flora.glowfungus").unwrap().item_id, "glow_fungus_sample");
    assert_eq!(scan_reward_for_codex("codex.flora.reed").unwrap().item_id, "bio_sample_vial");
    assert_eq!(scan_reward_for_codex("codex.ruin.generator").unwrap().item_id, "energy_cell");
    assert_eq!(scan_reward_for_codex("codex.ruin.terminal").unwrap().item_id, "data_shard");
    let key = scan_reward_for_codex("codex.ruin.locked_door").unwrap();
    assert_eq!(key.item_id, "ruin_key");
    assert!(key.locked);
    assert_eq!(scan_reward_for_codex("ruin.wall").unwrap().item_id, "data_shard");
    assert!(scan_reward_for_codex("codex.fauna.crab").is_none());
    assert_eq!(research_meter_for_codex("codex.flora.reed"), "bio");
    assert_eq!(research_meter_for_codex("codex.rock.mineral_vein"), "mineral");
    assert_eq!(research_meter_for_codex("codex.ruin.wall"), "ruin");
    assert_eq!(research_meter_for_codex("codex.signal"), "data");
}

#[test]
fn item_category_keys_round_trip() {
    for category in alien_archive::items::all_item_categories() {
        assert_eq!(ItemCategory::from_key(category.key()), Some(category));
    }
    assert_eq!(ItemCategory::from_key("nonsense"), None);
}

#[test]
fn cutscene_step_text_defaults() {
    let step = CutsceneStep::TextPanel {
        speaker: Some(CutsceneText::new("AI", "AI")),
        body: CutsceneText::new("Wake", "醒"),
        min_duration_bits: 0.25f32.to_bits(),
        require_confirm: alien_archive::cutscenes::default_require_confirm(),
    };
    assert!(matches!(step, CutsceneStep::TextPanel { require_confirm: true, .. }));
    let c = cutscene("x");
    assert_eq!(c.completion, CutsceneCompletion::Pop);
}

#[test]
fn definitions_default_to_the_values_sources_leave_out() {
    let event = WorldEventDefinition::default();
    assert!(event.id.is_empty());
    assert_eq!(event.trigger, EventTrigger::EnterZone);
    assert_eq!(event.scope, EventScope::WorldOnce);
    assert!(event.conditions.is_empty() && event.actions.is_empty());
    assert_eq!(EventTrigger::default(), EventTrigger::EnterZone);
    assert_eq!(EventScope::default(), EventScope::WorldOnce);

    let cutscene = CutsceneDefinition::default();
    assert!(cutscene.id.is_empty());
    assert!(cutscene.blocking && cutscene.play_once);
    assert!(cutscene.steps.is_empty());
    assert_eq!(cutscene.completion, CutsceneCompletion::Pop);
    assert_eq!(WalkSurfaceKind::default(), WalkSurfaceKind::Platform);
}
