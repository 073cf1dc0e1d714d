use alien_archive::assets::{AnchorKind, AssetKind, SnapMode};
use alien_archive::cutscenes::{CutsceneCompletion, CutsceneDefinition, CutsceneStep, CutsceneText};
use alien_archive::editor::cutscene_editor::{
    cutscene_completion_label, cutscene_matches_search, cutscene_source_text, cutscene_validation_issues, new_cutscene,
    normalized_selected_index, set_cutscene_source_text, unique_cutscene_id, validate_cutscene_step, CutsceneStepKind,
    CutsceneValidationIssue, CutsceneValidationSeverity, DEFAULT_FADE_BITS,
};
use alien_archive::editor::event_editor::{
    event_validation_status, new_event, set_optional_string, unique_event_id, EventActionKind, EventConditionKind,
};
use alien_archive::editor::labels::{
    anchor_label, category_label, compact_asset_label, empty_fallback, infer_asset_kind, layer_shortcut, snap_label,
};
use alien_archive::editor::tools::{all_tools, ToolKind};
use alien_archive::editor::workspace::{
    default_layer_states, editor_validation_warning, launch_scene_for_mode, unlock_search_text, validation_summary,
    AssetDependencyReport, BatchAlignMode, BatchDistributeMode, LeftSidebarTab, SelectedItem,
};
use alien_archive::editor::zone_presets::{apply_zone_type_preset, ZonePayloads, ZoneTypePreset};
use alien_archive::events::{EventAction, EventCondition, EventValidationIssue, EventValidationSeverity, WorldEventDefinition};
use alien_archive::map::{LayerKind, UnlockRule};
use alien_archive::validation::{MapValidationIssue, MapValidationSeverity};

fn zone(zone_type: &str) -> ZonePayloads {
    ZonePayloads { zone_type: zone_type.to_owned(), surface: false, hazard: false, prompt: false, objective: false }
}

#[test]
fn zone_type_preset_initializes_required_payload() {
    let mut zone = zone("Trigger");

    assert!(apply_zone_type_preset(&mut zone, ZoneTypePreset::WalkSurface));
    assert_eq!(zone.zone_type, "WalkSurface");
    assert!(zone.surface);

    assert!(apply_zone_type_preset(&mut zone, ZoneTypePreset::CollisionLine));
    assert_eq!(zone.zone_type, "CollisionLine");
    assert!(!zone.surface);

    assert!(apply_zone_type_preset(&mut zone, ZoneTypePreset::PromptZone));
    assert_eq!(zone.zone_type, "PromptZone");
    assert!(zone.prompt);

    assert!(apply_zone_type_preset(&mut zone, ZoneTypePreset::Checkpoint));
    assert_eq!(zone.zone_type, "Checkpoint");
    assert!(zone.objective);
}

#[test]
fn zone_type_preset_current_checkbox_can_repair_missing_payload() {
    let mut zone = zone("WalkSurface");
    zone.surface = false;

    assert!(apply_zone_type_preset(&mut zone, ZoneTypePreset::WalkSurface));
    assert_eq!(zone.zone_type, "WalkSurface");
    assert!(zone.surface);

    assert!(!apply_zone_type_preset(&mut zone, ZoneTypePreset::WalkSurface));
}

#[test]
fn hazard_preset_adds_hazard_and_labels_match() {
    let mut z = zone("HazardZone");
    assert!(apply_zone_type_preset(&mut z, ZoneTypePreset::HazardZone));
    assert!(z.hazard);
    assert!(!apply_zone_type_preset(&mut z, ZoneTypePreset::HazardZone));
    assert_eq!(ZoneTypePreset::MapTransition.label(), "转场");
    assert_eq!(ZoneTypePreset::ObjectiveZone.zone_type(), "ObjectiveZone");
}

fn text_step(body: &str, speaker: Option<(&str, &str)>, min_bits: u32) -> CutsceneStep {
    CutsceneStep::TextPanel {
        speaker: speaker.map(|(e, c)| CutsceneText::new(e, c)),
        body: CutsceneText::new(body, body),
        min_duration_bits: min_bits,
        require_confirm: true,
    }
}

#[test]
fn cutscene_steps_are_validated() {
    let mut issues: Vec<CutsceneValidationIssue> = Vec::new();
    validate_cutscene_step("intro", 0, &CutsceneStep::Wait { duration_bits: (-1.0f32).to_bits() }, &mut issues);
    validate_cutscene_step("intro", 1, &CutsceneStep::FadeIn { duration_bits: f32::NAN.to_bits() }, &mut issues);
    validate_cutscene_step("intro", 2, &CutsceneStep::FadeOut { duration_bits: (-0.0f32).to_bits() }, &mut issues);
    validate_cutscene_step("intro", 3, &CutsceneStep::Wait { duration_bits: 2.5f32.to_bits() }, &mut issues);
    validate_cutscene_step("intro", 4, &text_step("  ", Some((" ", "")), f32::INFINITY.to_bits()), &mut issues);
    validate_cutscene_step("intro", 5, &CutsceneStep::SetFlag { flag: " ".to_owned() }, &mut issues);
    let messages: Vec<(CutsceneValidationSeverity, String)> =
        issues.iter().map(|i| (i.severity, i.message.clone())).collect();
    assert_eq!(
        messages,
        vec![
            (CutsceneValidationSeverity::Error, "intro step 1 duration 必须 >= 0".to_owned()),
            (CutsceneValidationSeverity::Error, "intro step 2 duration 必须 >= 0".to_owned()),
            (CutsceneValidationSeverity::Error, "intro step 5 min_duration 必须 >= 0".to_owned()),
            (CutsceneValidationSeverity::Warning, "intro step 5 文本正文为空".to_owned()),
            (CutsceneValidationSeverity::Warning, "intro step 5 speaker 为空".to_owned()),
            (CutsceneValidationSeverity::Error, "intro step 6 flag 不能为空".to_owned()),
        ]
    );
}

fn cutscene(id: &str, steps: Vec<CutsceneStep>) -> CutsceneDefinition {
    let mut c = CutsceneDefinition::default();
    c.id = id.to_owned();
    c.steps = steps;
    c
}

#[test]
fn cutscene_table_validation_reports_ids_and_steps() {
    let table = vec![
        cutscene(" ", vec![]),
        cutscene("intro", vec![CutsceneStep::SetFlag { flag: "seen".to_owned() }]),
        cutscene(" intro ", vec![]),
    ];
    let issues = cutscene_validation_issues(&table);
    let messages: Vec<String> = issues.iter().map(|i| i.message.clone()).collect();
    assert_eq!(messages, vec!["Cutscene id 不能为空", "Cutscene id 重复：intro", "intro 没有任何步骤"]);
    assert_eq!(issues[2].severity, CutsceneValidationSeverity::Warning);
}

#[test]
fn cutscene_ids_are_made_unique() {
    let table = vec![cutscene("cutscene.new", vec![]), cutscene(" cutscene.new.2 ", vec![])];
    assert_eq!(unique_cutscene_id(&table, "  "), "cutscene.new.3");
    assert_eq!(unique_cutscene_id(&table, " intro "), "intro");
    let added = new_cutscene(unique_cutscene_id(&table, "cutscene.new"));
    assert_eq!(added.id, "cutscene.new.3");
    assert_eq!(added.steps.len(), 3);
    assert_eq!(CutsceneStepKind::from_step(&added.steps[0]), CutsceneStepKind::FadeOut);
    assert_eq!(added.steps[0], CutsceneStep::FadeOut { duration_bits: DEFAULT_FADE_BITS });
    assert_eq!(f32::from_bits(DEFAULT_FADE_BITS), 0.35);
    assert_eq!(CutsceneStepKind::TextPanel.label(), "Text Panel");
}

#[test]
fn cutscene_text_and_search() {
    let mut text = CutsceneText::new("Hello", "  ");
    assert_eq!(cutscene_source_text(&text), "Hello");
    set_cutscene_source_text(&mut text, "你好".to_owned());
    assert_eq!(text.english, "你好");
    assert_eq!(cutscene_source_text(&text), "你好");
    let mut c = cutscene("Intro.Main", vec![text_step("Wake Signal", Some(("AI", "AI")), 0), CutsceneStep::SetFlag { flag: "Seen.Flag".to_owned() }]);
    c.completion = CutsceneCompletion::SwitchScene { scene: "Overworld".to_owned() };
    assert_eq!(cutscene_completion_label(&c.completion), "Overworld");
    assert!(cutscene_matches_search(&c, ""));
    assert!(cutscene_matches_search(&c, "wake signal"));
    assert!(cutscene_matches_search(&c, "seen.flag"));
    assert!(cutscene_matches_search(&c, "intro.main overworld"));
    assert!(!cutscene_matches_search(&c, "Wake"));
    assert!(!cutscene_matches_search(&c, "missing"));
}

#[test]
fn selection_is_clamped() {
    assert_eq!(normalized_selected_index(Some(7), 3), Some(2));
    assert_eq!(normalized_selected_index(None, 3), Some(0));
    assert_eq!(normalized_selected_index(Some(1), 3), Some(1));
    assert_eq!(normalized_selected_index(Some(1), 0), None);
}

#[test]
fn event_kinds_round_trip() {
    for kind in alien_archive::editor::event_editor::all_condition_kinds() {
        assert_eq!(EventConditionKind::from_condition(&kind.default_condition()), kind);
    }
    for kind in alien_archive::editor::event_editor::all_action_kinds() {
        assert_eq!(EventActionKind::from_action(&kind.default_action()), kind);
    }
    assert_eq!(EventConditionKind::ObjectiveCheckpointMissing.label(), "ObjectiveCheckpointMissing");
    assert_eq!(
        EventConditionKind::CutsceneSeen.default_condition(),
        EventCondition::CutsceneSeen("intro.new_game".to_owned())
    );
    assert_eq!(EventActionKind::ShowNotice.default_action(), EventAction::ShowNotice("Signal recorded.".to_owned()));
}

#[test]
fn optional_strings_are_trimmed_or_cleared() {
    let mut target = Some("old".to_owned());
    set_optional_string(&mut target, "  new value ".to_owned());
    assert_eq!(target, Some("new value".to_owned()));
    set_optional_string(&mut target, "   ".to_owned());
    assert_eq!(target, None);
}

#[test]
fn event_ids_status_and_new_event() {
    let mut e = WorldEventDefinition::default();
    e.id = "event.new".to_owned();
    let events = vec![e];
    assert_eq!(unique_event_id(&events, ""), "event.new.2");
    let added = new_event(unique_event_id(&events, "landing"));
    assert_eq!(added.id, "landing");
    assert_eq!(added.actions, vec![EventAction::ShowNotice("Signal recorded.".to_owned())]);
    assert_eq!(event_validation_status(&[]), "Events 校验通过");
    let issues = vec![
        EventValidationIssue { severity: EventValidationSeverity::Error, message: "a".to_owned() },
        EventValidationIssue { severity: EventValidationSeverity::Warning, message: "b".to_owned() },
        EventValidationIssue { severity: EventValidationSeverity::Warning, message: "c".to_owned() },
    ];
    assert_eq!(event_validation_status(&issues), "Events 校验：1 个错误，2 个警告");
}

#[test]
fn asset_labels() {
    assert_eq!(category_label("flora"), "植物");
    assert_eq!(category_label("custom"), "custom");
    assert_eq!(compact_asset_label("ow_tile_sand_ground"), "sand ground");
    assert_eq!(compact_asset_label("ow_ow_ruin_pillar_broken_large"), "ruin pillar ...");
    assert_eq!(compact_asset_label("ow_crate_big_01"), "crate big 01");
    assert_eq!(infer_asset_kind("tiles", "x"), AssetKind::Tile);
    assert_eq!(infer_asset_kind("props", "ow_decal_crack"), AssetKind::Decal);
    assert_eq!(infer_asset_kind("pickups", "x"), AssetKind::Entity);
    assert_eq!(infer_asset_kind("props", "ow_rock"), AssetKind::Object);
    assert_eq!(anchor_label(AnchorKind::BottomCenter), "底部中心");
    assert_eq!(snap_label(SnapMode::HalfGrid), "半格");
    assert_eq!(empty_fallback("  "), "未填写");
    assert_eq!(empty_fallback("x"), "x");
    assert_eq!(layer_shortcut(LayerKind::Collision), "5");
}

#[test]
fn workspace_labels_and_summaries() {
    assert_eq!(launch_scene_for_mode("FaCiLiTy"), "facility");
    assert_eq!(launch_scene_for_mode("Overworld"), "overworld");
    let issues = vec![
        MapValidationIssue { severity: MapValidationSeverity::Error, message: "a".to_owned() },
        editor_validation_warning("b"),
        editor_validation_warning("c"),
    ];
    assert_eq!(issues[1].severity, MapValidationSeverity::Warning);
    assert_eq!(validation_summary(&issues), "校验结果：1 个错误，2 个警告");
    assert_eq!(validation_summary(&[]), "校验结果：0 个错误，0 个警告");
    assert_eq!(BatchAlignMode::CenterY.label(), "垂直居中");
    assert_eq!(BatchDistributeMode::Vertical.label(), "垂直分布");
    assert_eq!(LeftSidebarTab::Outliner.label(), "对象");
    let item = SelectedItem { layer: LayerKind::Entities, id: "ent_003".to_owned() };
    assert_eq!(item.label(), "实体:ent_003");
    assert_eq!(ToolKind::Bucket.label(), "油漆桶");
    assert_eq!(all_tools().len(), 10);
    let unlock = UnlockRule {
        requires_codex_id: Some("codex.a".to_owned()),
        requires_item_id: None,
        locked_message: Some("Locked".to_owned()),
    };
    assert_eq!(unlock_search_text(Some(&unlock)), "codex.a  Locked");
    assert_eq!(unlock_search_text(None), "");
    let states = default_layer_states();
    assert_eq!(states.len(), 6);
    assert_eq!(states[5].0, LayerKind::Collision);
    assert!(states.iter().all(|(_, s)| s.visible && !s.locked));
    let mut report = AssetDependencyReport::new();
    report.unregistered_pngs.push("a.png".to_owned());
    report.unregistered_pngs.push("b.png".to_owned());
    assert_eq!(report.item_count(), 2);
    assert_eq!(report.summary(), "缺文件 0 / 未登记 PNG 2 / 未知引用 0 / 未使用 0");
}
