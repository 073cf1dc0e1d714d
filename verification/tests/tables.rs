use alien_archive::cutscenes::{CutsceneCompletion, CutsceneDefinition, CutsceneStep};
use alien_archive::editor::cutscene_editor::{add_cutscene, delete_selected_cutscene, duplicate_selected_cutscene};
use alien_archive::editor::event_editor::{add_event, delete_selected_event, duplicate_selected_event};
use alien_archive::events::{EventAction, EventCondition, EventScope, EventTrigger, WorldEventDefinition};

fn event(id: &str) -> WorldEventDefinition {
    let mut e = WorldEventDefinition::default();
    e.id = id.to_owned();
    e.scope = EventScope::Repeatable;
    e.conditions.push(EventCondition::FlagSet("seen".to_owned()));
    e.actions.push(EventAction::SetFlag("done".to_owned()));
    e
}

fn ids(events: &[WorldEventDefinition]) -> Vec<&str> {
    events.iter().map(|e| e.id.as_str()).collect()
}

#[test]
fn adding_events_picks_fresh_ids_and_selects_the_new_one() {
    let mut events = vec![event("event.new")];
    assert_eq!(add_event(&mut events), 1);
    assert_eq!(ids(&events), vec!["event.new", "event.new.2"]);
    let added = &events[1];
    assert_eq!(added.trigger, EventTrigger::EnterZone);
    assert_eq!(added.scope, EventScope::WorldOnce);
    assert!(added.conditions.is_empty());
    assert_eq!(added.actions, vec![EventAction::ShowNotice("Signal recorded.".to_owned())]);
}

#[test]
fn duplicating_an_event_inserts_a_renamed_copy_after_it() {
    let mut events = vec![event("a"), event("b"), event("c")];
    assert_eq!(duplicate_selected_event(&mut events, Some(1)), Ok(2));
    assert_eq!(ids(&events), vec!["a", "b", "b.2", "c"]);
    assert_eq!(events[2].scope, EventScope::Repeatable);
    assert_eq!(events[2].conditions, events[1].conditions);
    assert_eq!(events[2].actions, events[1].actions);
    assert_eq!(duplicate_selected_event(&mut events, Some(99)), Ok(4));
    assert_eq!(ids(&events), vec!["a", "b", "b.2", "c", "c.2"]);

    let mut empty: Vec<WorldEventDefinition> = Vec::new();
    assert_eq!(duplicate_selected_event(&mut empty, Some(0)), Err("请先选择事件".to_owned()));
    assert!(empty.is_empty());
}

#[test]
fn deleting_an_event_keeps_the_selection_in_range() {
    let mut events = vec![event("a"), event("b"), event("c")];
    assert_eq!(delete_selected_event(&mut events, Some(2)), Ok((Some(1), "已删除事件 c".to_owned())));
    assert_eq!(delete_selected_event(&mut events, None), Ok((Some(0), "已删除事件 a".to_owned())));
    assert_eq!(delete_selected_event(&mut events, Some(0)), Ok((None, "已删除事件 b".to_owned())));
    assert_eq!(delete_selected_event(&mut events, Some(0)), Err("请先选择事件".to_owned()));
}

fn cutscene(id: &str) -> CutsceneDefinition {
    let mut c = CutsceneDefinition::default();
    c.id = id.to_owned();
    c.blocking = false;
    c.steps.push(CutsceneStep::SetFlag { flag: "intro".to_owned() });
    c.completion = CutsceneCompletion::SwitchScene { scene: "Overworld".to_owned() };
    c
}

#[test]
fn cutscene_table_commands() {
    let mut cutscenes = vec![cutscene("intro")];
    assert_eq!(add_cutscene(&mut cutscenes), 1);
    assert_eq!(cutscenes[1].id, "cutscene.new");
    assert_eq!(cutscenes[1].steps.len(), 3);
    assert!(matches!(cutscenes[1].steps[0], CutsceneStep::FadeOut { .. }));
    assert!(matches!(cutscenes[1].steps[1], CutsceneStep::TextPanel { .. }));
    assert!(matches!(cutscenes[1].steps[2], CutsceneStep::FadeIn { .. }));

    assert_eq!(duplicate_selected_cutscene(&mut cutscenes, Some(0)), Ok(1));
    assert_eq!(cutscenes[1].id, "intro.2");
    assert_eq!(cutscenes[1].steps, cutscenes[0].steps);
    assert_eq!(cutscenes[1].completion, cutscenes[0].completion);
    assert!(!cutscenes[1].blocking);

    assert_eq!(
        delete_selected_cutscene(&mut cutscenes, Some(1)),
        Ok((Some(1), "已删除过场 intro.2".to_owned()))
    );
    assert_eq!(cutscenes.len(), 2);
    let mut empty: Vec<CutsceneDefinition> = Vec::new();
    assert_eq!(delete_selected_cutscene(&mut empty, None), Err("请先选择过场动画".to_owned()));
    assert_eq!(duplicate_selected_cutscene(&mut empty, None), Err("请先选择过场动画".to_owned()));
}
