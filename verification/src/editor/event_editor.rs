use vstd::prelude::*;

use crate::editor::ids::{fresh_id, unique_id};
use crate::events::{
    issue_views, EventAction, EventCondition, EventScope, EventTrigger, EventValidationIssue, EventValidationSeverity,
    WorldEventDefinition,
};
use crate::editor::cutscene_editor::{normalized_selected_index, selection_after_delete, selection_index};
use crate::text::{cat2, cat5, dec, decimal, trim, trimmed};

verus! {

/// The kinds of event condition the editor offers.
#[derive(Clone, Copy, Debug, PartialEq, Eq, Structural)]
pub enum EventConditionKind {
    FlagSet,
    FlagMissing,
    CutsceneSeen,
    CutsceneMissing,
    CodexScanned,
    CodexMissing,
    ObjectiveCheckpointDone,
    ObjectiveCheckpointMissing,
}

/// Every condition kind, in the order the editor lists them.
pub fn all_condition_kinds() -> (r: [EventConditionKind; 8])
    ensures
        r@ == seq![
            EventConditionKind::FlagSet,
            EventConditionKind::FlagMissing,
            EventConditionKind::CutsceneSeen,
            EventConditionKind::CutsceneMissing,
            EventConditionKind::CodexScanned,
            EventConditionKind::CodexMissing,
            EventConditionKind::ObjectiveCheckpointDone,
            EventConditionKind::ObjectiveCheckpointMissing,
        ],
{
    let r = [
        EventConditionKind::FlagSet,
        EventConditionKind::FlagMissing,
        EventConditionKind::CutsceneSeen,
        EventConditionKind::CutsceneMissing,
        EventConditionKind::CodexScanned,
        EventConditionKind::CodexMissing,
        EventConditionKind::ObjectiveCheckpointDone,
        EventConditionKind::ObjectiveCheckpointMissing,
    ];
    assert(r@ =~= seq![
        EventConditionKind::FlagSet,
        EventConditionKind::FlagMissing,
        EventConditionKind::CutsceneSeen,
        EventConditionKind::CutsceneMissing,
        EventConditionKind::CodexScanned,
        EventConditionKind::CodexMissing,
        EventConditionKind::ObjectiveCheckpointDone,
        EventConditionKind::ObjectiveCheckpointMissing,
    ]);
    r
}

pub open spec fn condition_kind_of(c: EventCondition) -> EventConditionKind {
    match c {
        EventCondition::FlagSet(_) => EventConditionKind::FlagSet,
        EventCondition::FlagMissing(_) => EventConditionKind::FlagMissing,
        EventCondition::CutsceneSeen(_) => EventConditionKind::CutsceneSeen,
        EventCondition::CutsceneMissing(_) => EventConditionKind::CutsceneMissing,
        EventCondition::CodexScanned(_) => EventConditionKind::CodexScanned,
        EventCondition::CodexMissing(_) => EventConditionKind::CodexMissing,
        EventCondition::ObjectiveCheckpointDone { .. } => EventConditionKind::ObjectiveCheckpointDone,
        EventCondition::ObjectiveCheckpointMissing { .. } => EventConditionKind::ObjectiveCheckpointMissing,
    }
}

impl EventConditionKind {
    /// The kind's name in the editor, which is also its name in the event files.
    pub fn label(self) -> (r: &'static str)
        ensures
            r == (match self {
                EventConditionKind::FlagSet => "FlagSet",
                EventConditionKind::FlagMissing => "FlagMissing",
                EventConditionKind::CutsceneSeen => "CutsceneSeen",
                EventConditionKind::CutsceneMissing => "CutsceneMissing",
                EventConditionKind::CodexScanned => "CodexScanned",
                EventConditionKind::CodexMissing => "CodexMissing",
                EventConditionKind::ObjectiveCheckpointDone => "ObjectiveCheckpointDone",
                EventConditionKind::ObjectiveCheckpointMissing => "ObjectiveCheckpointMissing",
            }),
    {
        match self {
            EventConditionKind::FlagSet => "FlagSet",
            EventConditionKind::FlagMissing => "FlagMissing",
            EventConditionKind::CutsceneSeen => "CutsceneSeen",
            EventConditionKind::CutsceneMissing => "CutsceneMissing",
            EventConditionKind::CodexScanned => "CodexScanned",
            EventConditionKind::CodexMissing => "CodexMissing",
            EventConditionKind::ObjectiveCheckpointDone => "ObjectiveCheckpointDone",
            EventConditionKind::ObjectiveCheckpointMissing => "ObjectiveCheckpointMissing",
        }
    }

    /// The kind of an existing condition.
    pub fn from_condition(condition: &EventCondition) -> (r: Self)
        ensures
            r == condition_kind_of(*condition),
    {
        match condition {
            EventCondition::FlagSet(_) => EventConditionKind::FlagSet,
            EventCondition::FlagMissing(_) => EventConditionKind::FlagMissing,
            EventCondition::CutsceneSeen(_) => EventConditionKind::CutsceneSeen,
            EventCondition::CutsceneMissing(_) => EventConditionKind::CutsceneMissing,
            EventCondition::CodexScanned(_) => EventConditionKind::CodexScanned,
            EventCondition::CodexMissing(_) => EventConditionKind::CodexMissing,
            EventCondition::ObjectiveCheckpointDone { .. } => EventConditionKind::ObjectiveCheckpointDone,
            EventCondition::ObjectiveCheckpointMissing { .. } => EventConditionKind::ObjectiveCheckpointMissing,
        }
    }

    /// The condition a new condition of this kind starts as, with placeholder ids.
    pub fn default_condition(self) -> (r: EventCondition)
        ensures
            condition_kind_of(r) == self,
            r matches EventCondition::FlagSet(f) ==> f@ == "flag.id"@,
            r matches EventCondition::FlagMissing(f) ==> f@ == "flag.id"@,
            r matches EventCondition::CutsceneSeen(c) ==> c@ == "intro.new_game"@,
            r matches EventCondition::CutsceneMissing(c) ==> c@ == "intro.new_game"@,
            r matches EventCondition::CodexScanned(c) ==> c@ == "codex.id"@,
            r matches EventCondition::CodexMissing(c) ==> c@ == "codex.id"@,
            r matches EventCondition::ObjectiveCheckpointDone { objective_id, checkpoint_id } ==> objective_id@
                == "secure_landing_site"@ && checkpoint_id@ == "checkpoint_id"@,
            r matches EventCondition::ObjectiveCheckpointMissing { objective_id, checkpoint_id } ==> objective_id@
                == "secure_landing_site"@ && checkpoint_id@ == "checkpoint_id"@,
    {
        match self {
            EventConditionKind::FlagSet => EventCondition::FlagSet("flag.id".to_owned()),
            EventConditionKind::FlagMissing => EventCondition::FlagMissing("flag.id".to_owned()),
            EventConditionKind::CutsceneSeen => EventCondition::CutsceneSeen("intro.new_game".to_owned()),
            EventConditionKind::CutsceneMissing => EventCondition::CutsceneMissing("intro.new_game".to_owned()),
            EventConditionKind::CodexScanned => EventCondition::CodexScanned("codex.id".to_owned()),
            EventConditionKind::CodexMissing => EventCondition::CodexMissing("codex.id".to_owned()),
            EventConditionKind::ObjectiveCheckpointDone => EventCondition::ObjectiveCheckpointDone {
                objective_id: "secure_landing_site".to_owned(),
                checkpoint_id: "checkpoint_id".to_owned(),
            },
            EventConditionKind::ObjectiveCheckpointMissing => EventCondition::ObjectiveCheckpointMissing {
                objective_id: "secure_landing_site".to_owned(),
                checkpoint_id: "checkpoint_id".to_owned(),
            },
        }
    }
}

/// The kinds of event action the editor offers.
#[derive(Clone, Copy, Debug, PartialEq, Eq, Structural)]
pub enum EventActionKind {
    PlayCutscene,
    SetFlag,
    AdvanceObjective,
    ShowNotice,
}

/// Every action kind, in the order the editor lists them.
pub fn all_action_kinds() -> (r: [EventActionKind; 4])
    ensures
        r@ == seq![EventActionKind::PlayCutscene, EventActionKind::SetFlag, EventActionKind::AdvanceObjective,
            EventActionKind::ShowNotice],
{
    let r = [EventActionKind::PlayCutscene, EventActionKind::SetFlag, EventActionKind::AdvanceObjective,
        EventActionKind::ShowNotice];
    assert(r@ =~= seq![EventActionKind::PlayCutscene, EventActionKind::SetFlag, EventActionKind::AdvanceObjective,
        EventActionKind::ShowNotice]);
    r
}

pub open spec fn action_kind_of(a: EventAction) -> EventActionKind {
    match a {
        EventAction::PlayCutscene(_) => EventActionKind::PlayCutscene,
        EventAction::SetFlag(_) => EventActionKind::SetFlag,
        EventAction::AdvanceObjective { .. } => EventActionKind::AdvanceObjective,
        EventAction::ShowNotice(_) => EventActionKind::ShowNotice,
    }
}

impl EventActionKind {
    /// The kind's name in the editor, which is also its name in the event files.
    pub fn label(self) -> (r: &'static str)
        ensures
            r == (match self {
                EventActionKind::PlayCutscene => "PlayCutscene",
                EventActionKind::SetFlag => "SetFlag",
                EventActionKind::AdvanceObjective => "AdvanceObjective",
                EventActionKind::ShowNotice => "ShowNotice",
            }),
    {
        match self {
            EventActionKind::PlayCutscene => "PlayCutscene",
            EventActionKind::SetFlag => "SetFlag",
            EventActionKind::AdvanceObjective => "AdvanceObjective",
            EventActionKind::ShowNotice => "ShowNotice",
        }
    }

    /// The kind of an existing action.
    pub fn from_action(action: &EventAction) -> (r: Self)
        ensures
            r == action_kind_of(*action),
    {
        match action {
            EventAction::PlayCutscene(_) => EventActionKind::PlayCutscene,
            EventAction::SetFlag(_) => EventActionKind::SetFlag,
            EventAction::AdvanceObjective { .. } => EventActionKind::AdvanceObjective,
            EventAction::ShowNotice(_) => EventActionKind::ShowNotice,
        }
    }

    /// The action a new action of this kind starts as, with placeholder values.
    pub fn default_action(self) -> (r: EventAction)
        ensures
            action_kind_of(r) == self,
            r matches EventAction::PlayCutscene(c) ==> c@ == "intro.new_game"@,
            r matches EventAction::SetFlag(f) ==> f@ == "flag.id"@,
            r matches EventAction::AdvanceObjective { objective_id, checkpoint_id, complete_objective } ==> objective_id@
                == "secure_landing_site"@ && checkpoint_id is None && !complete_objective,
            r matches EventAction::ShowNotice(n) ==> n@ == "Signal recorded."@,
    {
        match self {
            EventActionKind::PlayCutscene => EventAction::PlayCutscene("intro.new_game".to_owned()),
            EventActionKind::SetFlag => EventAction::SetFlag("flag.id".to_owned()),
            EventActionKind::AdvanceObjective => EventAction::AdvanceObjective {
                objective_id: "secure_landing_site".to_owned(),
                checkpoint_id: None,
                complete_objective: false,
            },
            EventActionKind::ShowNotice => EventAction::ShowNotice("Signal recorded.".to_owned()),
        }
    }
}

/// Stores `value` trimmed, or nothing when it is blank.
pub fn set_optional_string(target: &mut Option<String>, value: String)
    ensures
        trimmed(value@).len() == 0 ==> *final(target) is None,
        trimmed(value@).len() > 0 ==> (*final(target) matches Some(s) && s@ == trimmed(value@)),
{
    let t = trim(value.as_str());
    if t.unicode_len() == 0 {
        *target = None;
    } else {
        *target = Some(t.to_owned());
    }
}

fn event_ids(events: &[WorldEventDefinition]) -> (r: Vec<String>)
    ensures
        r@.map_values(|x: String| x@) == events@.map_values(|e: WorldEventDefinition| e.id@),
{
    let mut r: Vec<String> = Vec::new();
    let mut i: usize = 0;
    while i < events.len()
        invariant
            i <= events@.len(),
            r@.len() == i,
            forall|j: int| 0 <= j < i ==> #[trigger] r@[j]@ == events@[j].id@,
        decreases events@.len() - i,
    {
        r.push(events[i].id.clone());
        i = i + 1;
    }
    assert(r@.map_values(|x: String| x@) =~= events@.map_values(|e: WorldEventDefinition| e.id@));
    r
}

/// An event id made from `base_id` (or `event.new`) that no event takes yet.
pub fn unique_event_id(events: &[WorldEventDefinition], base_id: &str) -> (r: String)
    ensures
        r@ == fresh_id(events@.map_values(|e: WorldEventDefinition| e.id@), base_id@, "event.new"@),
{
    let ids = event_ids(events);
    unique_id(&ids, base_id, "event.new")
}

/// The shape of an event the editor adds: entering a zone, once per world, no conditions,
/// and one notice `Signal recorded.`.
pub open spec fn fresh_event_shape(e: WorldEventDefinition) -> bool {
    &&& e.trigger == EventTrigger::EnterZone
    &&& e.scope == EventScope::WorldOnce
    &&& e.conditions@.len() == 0
    &&& e.actions@.len() == 1
    &&& (e.actions@[0] matches EventAction::ShowNotice(n) && n@ == "Signal recorded."@)
}

/// The event the editor adds: the given id, entering a zone, once per world, no
/// conditions, and one notice `Signal recorded.`.
pub fn new_event(id: String) -> (r: WorldEventDefinition)
    ensures
        r.id@ == id@,
        fresh_event_shape(r),
{
    let mut e = WorldEventDefinition::default();
    e.id = id;
    e.actions.push(EventAction::ShowNotice("Signal recorded.".to_owned()));
    e
}

/// How many issues of `s` have severity `sev`.
pub open spec fn event_severity_count(s: Seq<(EventValidationSeverity, Seq<char>)>, sev: EventValidationSeverity) -> nat
    decreases s.len(),
{
    if s.len() == 0 {
        0
    } else {
        event_severity_count(s.drop_last(), sev) + (if s.last().0 == sev { 1nat } else { 0nat })
    }
}

proof fn lemma_event_severity_count_bound(s: Seq<(EventValidationSeverity, Seq<char>)>, sev: EventValidationSeverity)
    ensures
        event_severity_count(s, sev) <= s.len(),
    decreases s.len(),
{
    if s.len() > 0 {
        lemma_event_severity_count_bound(s.drop_last(), sev);
    }
}

/// The status line after validating the event table: a pass when nothing was found,
/// else the numbers of errors and warnings.
pub open spec fn event_status_text(errors: nat, warnings: nat) -> Seq<char> {
    if errors == 0 && warnings == 0 {
        "Events 校验通过"@
    } else {
        "Events 校验："@ + dec(errors) + " 个错误，"@ + dec(warnings) + " 个警告"@
    }
}

/// The status line for a validation of the event table.
pub fn event_validation_status(issues: &[EventValidationIssue]) -> (r: String)
    ensures
        r@ == event_status_text(
            event_severity_count(issue_views(issues@), EventValidationSeverity::Error),
            event_severity_count(issue_views(issues@), EventValidationSeverity::Warning),
        ),
{
    let ghost all = issue_views(issues@);
    let n = issues.len();
    let mut errors: usize = 0;
    let mut warnings: usize = 0;
    let mut i: usize = 0;
    while i < n
        invariant
            n == issues@.len(),
            all == issue_views(issues@),
            i <= n,
            errors == event_severity_count(all.take(i as int), EventValidationSeverity::Error),
            warnings == event_severity_count(all.take(i as int), EventValidationSeverity::Warning),
        decreases n - i,
    {
        proof {
            assert(all.take(i + 1).drop_last() =~= all.take(i as int));
            lemma_event_severity_count_bound(all.take(i as int), EventValidationSeverity::Error);
            lemma_event_severity_count_bound(all.take(i as int), EventValidationSeverity::Warning);
        }
        match issues[i].severity {
            EventValidationSeverity::Error => {
                errors = errors + 1;
            },
            EventValidationSeverity::Warning => {
                warnings = warnings + 1;
            },
        }
        i = i + 1;
    }
    proof {
        assert(all.take(n as int) =~= all);
    }
    if errors == 0 && warnings == 0 {
        return "Events 校验通过".to_owned();
    }
    let e = decimal(errors as u64);
    let w = decimal(warnings as u64);
    cat5("Events 校验：", e.as_str(), " 个错误，", w.as_str(), " 个警告")
}

fn copy_condition(c: &EventCondition) -> (r: EventCondition)
    ensures
        r == *c,
{
    match c {
        EventCondition::FlagSet(v) => EventCondition::FlagSet(v.clone()),
        EventCondition::FlagMissing(v) => EventCondition::FlagMissing(v.clone()),
        EventCondition::CutsceneSeen(v) => EventCondition::CutsceneSeen(v.clone()),
        EventCondition::CutsceneMissing(v) => EventCondition::CutsceneMissing(v.clone()),
        EventCondition::CodexScanned(v) => EventCondition::CodexScanned(v.clone()),
        EventCondition::CodexMissing(v) => EventCondition::CodexMissing(v.clone()),
        EventCondition::ObjectiveCheckpointDone { objective_id, checkpoint_id } => EventCondition::ObjectiveCheckpointDone {
            objective_id: objective_id.clone(),
            checkpoint_id: checkpoint_id.clone(),
        },
        EventCondition::ObjectiveCheckpointMissing { objective_id, checkpoint_id } => EventCondition::ObjectiveCheckpointMissing {
            objective_id: objective_id.clone(),
            checkpoint_id: checkpoint_id.clone(),
        },
    }
}

fn copy_action(a: &EventAction) -> (r: EventAction)
    ensures
        r == *a,
{
    match a {
        EventAction::PlayCutscene(v) => EventAction::PlayCutscene(v.clone()),
        EventAction::SetFlag(v) => EventAction::SetFlag(v.clone()),
        EventAction::AdvanceObjective { objective_id, checkpoint_id, complete_objective } => EventAction::AdvanceObjective {
            objective_id: objective_id.clone(),
            checkpoint_id: match checkpoint_id {
                Some(c) => Some(c.clone()),
                None => None,
            },
            complete_objective: *complete_objective,
        },
        EventAction::ShowNotice(v) => EventAction::ShowNotice(v.clone()),
    }
}

/// `e` is `f` but for the id.
pub open spec fn same_event_but_id(e: WorldEventDefinition, f: WorldEventDefinition) -> bool {
    &&& e.trigger == f.trigger
    &&& e.scope == f.scope
    &&& e.conditions@ == f.conditions@
    &&& e.actions@ == f.actions@
}

fn copy_event_with_id(e: &WorldEventDefinition, id: String) -> (r: WorldEventDefinition)
    ensures
        r.id == id,
        same_event_but_id(r, *e),
{
    let mut conditions: Vec<EventCondition> = Vec::new();
    let mut i: usize = 0;
    while i < e.conditions.len()
        invariant
            i <= e.conditions@.len(),
            conditions@ == e.conditions@.subrange(0, i as int),
        decreases e.conditions@.len() - i,
    {
        conditions.push(copy_condition(&e.conditions[i]));
        assert(conditions@ =~= e.conditions@.subrange(0, i + 1));
        i = i + 1;
    }
    assert(conditions@ =~= e.conditions@);
    let mut actions: Vec<EventAction> = Vec::new();
    let mut j: usize = 0;
    while j < e.actions.len()
        invariant
            j <= e.actions@.len(),
            actions@ == e.actions@.subrange(0, j as int),
        decreases e.actions@.len() - j,
    {
        actions.push(copy_action(&e.actions[j]));
        assert(actions@ =~= e.actions@.subrange(0, j + 1));
        j = j + 1;
    }
    assert(actions@ =~= e.actions@);
    WorldEventDefinition { id, trigger: e.trigger, scope: e.scope, conditions, actions }
}

pub open spec fn event_id_views(events: Seq<WorldEventDefinition>) -> Seq<Seq<char>> {
    events.map_values(|e: WorldEventDefinition| e.id@)
}

/// Appends a new event (see `new_event`) with an id made from `event.new` that no event
/// takes; returns its index, which becomes the selection.
pub fn add_event(events: &mut Vec<WorldEventDefinition>) -> (selected: usize)
    requires
        old(events)@.len() < usize::MAX,
    ensures
        selected == old(events)@.len(),
        final(events)@ == old(events)@.push(final(events)@[selected as int]),
        final(events)@[selected as int].id@ == fresh_id(event_id_views(old(events)@), "event.new"@, "event.new"@),
        fresh_event_shape(final(events)@[selected as int]),
{
    let id = unique_event_id(events.as_slice(), "event.new");
    let e = new_event(id);
    events.push(e);
    events.len() - 1
}

/// Inserts a copy of the selected event, under a fresh id made from its own, right after
/// it; returns the copy's index, which becomes the selection. With no event to select,
/// nothing changes and the status line asks for a selection.
pub fn duplicate_selected_event(events: &mut Vec<WorldEventDefinition>, selected: Option<usize>) -> (r: Result<usize, String>)
    requires
        old(events)@.len() < usize::MAX,
    ensures
        old(events)@.len() == 0 ==> final(events)@ == old(events)@ && (r matches Err(m) && m@ == "请先选择事件"@),
        old(events)@.len() > 0 ==> {
            let i = selection_index(selected, old(events)@.len() as int);
            &&& r == Ok::<usize, String>((i + 1) as usize)
            &&& final(events)@ == old(events)@.insert(i + 1, final(events)@[i + 1])
            &&& final(events)@[i + 1].id@ == fresh_id(event_id_views(old(events)@), old(events)@[i].id@, "event.new"@)
            &&& same_event_but_id(final(events)@[i + 1], old(events)@[i])
        },
{
    let index = match normalized_selected_index(selected, events.len()) {
        Some(i) => i,
        None => {
            return Err("请先选择事件".to_owned());
        },
    };
    let id = unique_event_id(events.as_slice(), events[index].id.as_str());
    let copy = copy_event_with_id(&events[index], id);
    events.insert(index + 1, copy);
    Ok(index + 1)
}

/// Deletes the selected event; returns the new selection and the status line naming the
/// deleted event. With no event to select, nothing changes and the status line asks for a
/// selection.
pub fn delete_selected_event(events: &mut Vec<WorldEventDefinition>, selected: Option<usize>) -> (r: Result<(Option<usize>, String), String>)
    ensures
        old(events)@.len() == 0 ==> final(events)@ == old(events)@ && (r matches Err(m) && m@ == "请先选择事件"@),
        old(events)@.len() > 0 ==> {
            let i = selection_index(selected, old(events)@.len() as int);
            &&& final(events)@ == old(events)@.remove(i)
            &&& (r matches Ok((next, status)) && next == selection_after_delete(i, old(events)@.len() as int)
                && status@ == "已删除事件 "@ + old(events)@[i].id@)
        },
{
    let index = match normalized_selected_index(selected, events.len()) {
        Some(i) => i,
        None => {
            return Err("请先选择事件".to_owned());
        },
    };
    let removed = events.remove(index);
    let next_len = events.len();
    let next = if next_len == 0 {
        None
    } else if index < next_len - 1 {
        Some(index)
    } else {
        Some(next_len - 1)
    };
    let status = cat2("已删除事件 ", removed.id.as_str());
    Ok((next, status))
}

} // verus!
