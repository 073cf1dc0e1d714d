use vstd::prelude::*;

use crate::cutscenes::CutsceneDatabase;
use crate::index::{lookup_last, IdIndex};
use crate::objectives::{ObjectiveCheckpoint, ObjectiveDatabase};
use crate::text::{blank, cat2, cat3, cat4, cat5, is_blank, list_contains, str_eq, trim, trimmed};

verus! {

pub const DEFAULT_EVENT_DB_PATH: &'static str = "crates/content/data/events.ron";

/// What starts a world event.
#[derive(Clone, Copy, Debug, PartialEq, Eq)]
pub enum EventTrigger {
    EnterZone,
}

/// How often a world event may fire.
#[derive(Clone, Copy, Debug, PartialEq, Eq)]
pub enum EventScope {
    OncePerZone,
    WorldOnce,
    Repeatable,
}

/// A precondition of a world event.
#[derive(Clone, Debug, PartialEq, Eq)]
pub enum EventCondition {
    FlagSet(String),
    FlagMissing(String),
    CutsceneSeen(String),
    CutsceneMissing(String),
    CodexScanned(String),
    CodexMissing(String),
    ObjectiveCheckpointDone { objective_id: String, checkpoint_id: String },
    ObjectiveCheckpointMissing { objective_id: String, checkpoint_id: String },
}

/// An effect of a world event.
#[derive(Clone, Debug, PartialEq, Eq)]
pub enum EventAction {
    PlayCutscene(String),
    SetFlag(String),
    AdvanceObjective { objective_id: String, checkpoint_id: Option<String>, complete_objective: bool },
    ShowNotice(String),
}

/// A scripted event of the world.
#[derive(Clone, Debug, PartialEq, Eq)]
pub struct WorldEventDefinition {
    pub id: String,
    pub trigger: EventTrigger,
    pub scope: EventScope,
    pub conditions: Vec<EventCondition>,
    pub actions: Vec<EventAction>,
}

impl Default for WorldEventDefinition {
    /// The definition a source's missing fields take: empty id, entering a zone, once per
    /// world, no conditions and no actions.
    fn default() -> (r: Self)
        ensures
            r.id@ == Seq::<char>::empty(),
            r.trigger == EventTrigger::EnterZone,
            r.scope == EventScope::WorldOnce,
            r.conditions@.len() == 0,
            r.actions@.len() == 0,
    {
        WorldEventDefinition {
            id: String::new(),
            trigger: EventTrigger::EnterZone,
            scope: EventScope::WorldOnce,
            conditions: Vec::new(),
            actions: Vec::new(),
        }
    }
}

impl Default for EventTrigger {
    fn default() -> (r: Self)
        ensures
            r == EventTrigger::EnterZone,
    {
        EventTrigger::EnterZone
    }
}

impl Default for EventScope {
    fn default() -> (r: Self)
        ensures
            r == EventScope::WorldOnce,
    {
        EventScope::WorldOnce
    }
}

#[derive(Clone, Copy, Debug, PartialEq, Eq)]
pub enum EventValidationSeverity {
    Error,
    Warning,
}

/// A problem found in the event table.
#[derive(Clone, Debug, PartialEq, Eq)]
pub struct EventValidationIssue {
    pub severity: EventValidationSeverity,
    pub message: String,
}

impl View for EventValidationIssue {
    type V = (EventValidationSeverity, Seq<char>);

    open spec fn view(&self) -> (EventValidationSeverity, Seq<char>) {
        (self.severity, self.message@)
    }
}

impl EventValidationIssue {
    fn error(message: String) -> (r: Self)
        ensures
            r@ == (EventValidationSeverity::Error, message@),
    {
        EventValidationIssue { severity: EventValidationSeverity::Error, message }
    }

    fn warning(message: String) -> (r: Self)
        ensures
            r@ == (EventValidationSeverity::Warning, message@),
    {
        EventValidationIssue { severity: EventValidationSeverity::Warning, message }
    }
}

pub open spec fn issue_views(s: Seq<EventValidationIssue>) -> Seq<(EventValidationSeverity, Seq<char>)> {
    s.map_values(|i: EventValidationIssue| i@)
}

pub open spec fn err(m: Seq<char>) -> Seq<(EventValidationSeverity, Seq<char>)> {
    seq![(EventValidationSeverity::Error, m)]
}

pub open spec fn warn(m: Seq<char>) -> Seq<(EventValidationSeverity, Seq<char>)> {
    seq![(EventValidationSeverity::Warning, m)]
}

pub open spec fn none() -> Seq<(EventValidationSeverity, Seq<char>)> {
    Seq::empty()
}

pub open spec fn has_checkpoint(checkpoints: Seq<ObjectiveCheckpoint>, id: Seq<char>) -> bool {
    exists|i: int| 0 <= i < checkpoints.len() && (#[trigger] checkpoints[i]).id@ == id
}

/// Issues of a reference to checkpoint `checkpoint_id` of objective `objective_id`.
pub open spec fn checkpoint_issues(
    event_id: Seq<char>,
    objective_id: Seq<char>,
    checkpoint_id: Seq<char>,
    objectives: Option<&ObjectiveDatabase>,
) -> Seq<(EventValidationSeverity, Seq<char>)> {
    if blank(objective_id) || blank(checkpoint_id) {
        err("event "@ + event_id + " objective checkpoint reference is incomplete"@)
    } else {
        match objectives {
            None => none(),
            Some(db) => match db.get_index(objective_id) {
                None => err("event "@ + event_id + " references unknown objective "@ + objective_id),
                Some(i) => if has_checkpoint(db.defs()[i].checkpoints@, checkpoint_id) {
                    none()
                } else {
                    err("event "@ + event_id + " references unknown checkpoint "@ + objective_id + "/"@ + checkpoint_id)
                },
            },
        }
    }
}

/// Issues of one condition of event `event_id`.
pub open spec fn condition_issues(
    event_id: Seq<char>,
    condition: EventCondition,
    objectives: Option<&ObjectiveDatabase>,
) -> Seq<(EventValidationSeverity, Seq<char>)> {
    match condition {
        EventCondition::ObjectiveCheckpointDone { objective_id, checkpoint_id } => checkpoint_issues(
            event_id,
            objective_id@,
            checkpoint_id@,
            objectives,
        ),
        EventCondition::ObjectiveCheckpointMissing { objective_id, checkpoint_id } => checkpoint_issues(
            event_id,
            objective_id@,
            checkpoint_id@,
            objectives,
        ),
        EventCondition::FlagSet(v) => plain_condition_issues(event_id, v@),
        EventCondition::FlagMissing(v) => plain_condition_issues(event_id, v@),
        EventCondition::CutsceneSeen(v) => plain_condition_issues(event_id, v@),
        EventCondition::CutsceneMissing(v) => plain_condition_issues(event_id, v@),
        EventCondition::CodexScanned(v) => plain_condition_issues(event_id, v@),
        EventCondition::CodexMissing(v) => plain_condition_issues(event_id, v@),
    }
}

pub open spec fn plain_condition_issues(event_id: Seq<char>, value: Seq<char>) -> Seq<(EventValidationSeverity, Seq<char>)> {
    if blank(value) {
        err("event "@ + event_id + " has a condition with an empty id"@)
    } else {
        none()
    }
}

/// Issues of one action of event `event_id`.
pub open spec fn action_issues(
    event_id: Seq<char>,
    action: EventAction,
    cutscenes: Option<&CutsceneDatabase>,
    objectives: Option<&ObjectiveDatabase>,
) -> Seq<(EventValidationSeverity, Seq<char>)> {
    match action {
        EventAction::PlayCutscene(c) => if blank(c@) {
            err("event "@ + event_id + " PlayCutscene has an empty cutscene id"@)
        } else if cutscenes matches Some(db) && db.get_index(c@) is None {
            err("event "@ + event_id + " references unknown cutscene "@ + c@)
        } else {
            none()
        },
        EventAction::SetFlag(f) => if blank(f@) {
            err("event "@ + event_id + " SetFlag has an empty flag"@)
        } else {
            none()
        },
        EventAction::AdvanceObjective { objective_id, checkpoint_id, complete_objective } => if blank(objective_id@) {
            err("event "@ + event_id + " AdvanceObjective has an empty objective id"@)
        } else {
            match checkpoint_id {
                Some(c) => checkpoint_issues(event_id, objective_id@, c@, objectives),
                None => if objectives matches Some(db) && db.get_index(objective_id@) is None {
                    err("event "@ + event_id + " references unknown objective "@ + objective_id@)
                } else {
                    none()
                },
            }
        },
        EventAction::ShowNotice(m) => if blank(m@) {
            warn("event "@ + event_id + " ShowNotice has an empty message"@)
        } else {
            none()
        },
    }
}

pub open spec fn conditions_issues(
    event_id: Seq<char>,
    conditions: Seq<EventCondition>,
    objectives: Option<&ObjectiveDatabase>,
) -> Seq<(EventValidationSeverity, Seq<char>)>
    decreases conditions.len(),
{
    if conditions.len() == 0 {
        none()
    } else {
        conditions_issues(event_id, conditions.drop_last(), objectives) + condition_issues(
            event_id,
            conditions.last(),
            objectives,
        )
    }
}

pub open spec fn actions_issues(
    event_id: Seq<char>,
    actions: Seq<EventAction>,
    cutscenes: Option<&CutsceneDatabase>,
    objectives: Option<&ObjectiveDatabase>,
) -> Seq<(EventValidationSeverity, Seq<char>)>
    decreases actions.len(),
{
    if actions.len() == 0 {
        none()
    } else {
        actions_issues(event_id, actions.drop_last(), cutscenes, objectives) + action_issues(
            event_id,
            actions.last(),
            cutscenes,
            objectives,
        )
    }
}

/// The trimmed, non-blank ids of `events`, in order.
pub open spec fn seen_ids(events: Seq<WorldEventDefinition>) -> Seq<Seq<char>>
    decreases events.len(),
{
    if events.len() == 0 {
        Seq::empty()
    } else if blank(events.last().id@) {
        seen_ids(events.drop_last())
    } else {
        seen_ids(events.drop_last()).push(trimmed(events.last().id@))
    }
}

/// Issues of the event `e`, given the events before it.
pub open spec fn event_issues(
    before: Seq<WorldEventDefinition>,
    e: WorldEventDefinition,
    cutscenes: Option<&CutsceneDatabase>,
    objectives: Option<&ObjectiveDatabase>,
) -> Seq<(EventValidationSeverity, Seq<char>)> {
    let id = trimmed(e.id@);
    if blank(e.id@) {
        err("event id is empty"@)
    } else {
        (if seen_ids(before).contains(id) {
            err("event id duplicated: "@ + id)
        } else {
            none()
        }) + (if e.actions@.len() == 0 {
            warn("event "@ + id + " has no actions"@)
        } else {
            none()
        }) + conditions_issues(id, e.conditions@, objectives) + actions_issues(id, e.actions@, cutscenes, objectives)
    }
}

/// Issues of the whole event list, event by event.
pub open spec fn events_issues(
    events: Seq<WorldEventDefinition>,
    cutscenes: Option<&CutsceneDatabase>,
    objectives: Option<&ObjectiveDatabase>,
) -> Seq<(EventValidationSeverity, Seq<char>)>
    decreases events.len(),
{
    if events.len() == 0 {
        none()
    } else {
        events_issues(events.drop_last(), cutscenes, objectives) + event_issues(
            events.drop_last(),
            events.last(),
            cutscenes,
            objectives,
        )
    }
}

fn push_issue(issues: &mut Vec<EventValidationIssue>, issue: EventValidationIssue)
    ensures
        issue_views(final(issues)@) == issue_views(old(issues)@) + seq![issue@],
{
    issues.push(issue);
    assert(issue_views(issues@) =~= issue_views(old(issues)@) + seq![issue@]);
}

fn contains_checkpoint(checkpoints: &Vec<ObjectiveCheckpoint>, id: &str) -> (r: bool)
    ensures
        r == has_checkpoint(checkpoints@, id@),
{
    let mut i: usize = 0;
    while i < checkpoints.len()
        invariant
            i <= checkpoints@.len(),
            forall|j: int| 0 <= j < i ==> (#[trigger] checkpoints@[j]).id@ != id@,
        decreases checkpoints@.len() - i,
    {
        if str_eq(checkpoints[i].id.as_str(), id) {
            return true;
        }
        i = i + 1;
    }
    false
}

fn validate_objective_checkpoint(
    event_id: &str,
    objective_id: &str,
    checkpoint_id: &str,
    objectives: Option<&ObjectiveDatabase>,
    issues: &mut Vec<EventValidationIssue>,
)
    ensures
        issue_views(final(issues)@) == issue_views(old(issues)@) + checkpoint_issues(
            event_id@,
            objective_id@,
            checkpoint_id@,
            objectives,
        ),
{
    if is_blank(objective_id) || is_blank(checkpoint_id) {
        push_issue(issues, EventValidationIssue::error(cat3("event ", event_id, " objective checkpoint reference is incomplete")));
        return;
    }
    let objectives = match objectives {
        Some(db) => db,
        None => {
            assert(issue_views(issues@) =~= issue_views(old(issues)@) + none());
            return;
        },
    };
    let objective = match objectives.get(objective_id) {
        Some(o) => o,
        None => {
            push_issue(issues, EventValidationIssue::error(cat4("event ", event_id, " references unknown objective ", objective_id)));
            return;
        },
    };
    let found = contains_checkpoint(&objective.checkpoints, checkpoint_id);
    if !found {
        let head = cat5("event ", event_id, " references unknown checkpoint ", objective_id, "/");
        push_issue(issues, EventValidationIssue::error(cat2(head.as_str(), checkpoint_id)));
    } else {
        assert(issue_views(issues@) =~= issue_views(old(issues)@) + none());
    }
}

fn validate_plain(event_id: &str, value: &str, issues: &mut Vec<EventValidationIssue>)
    ensures
        issue_views(final(issues)@) == issue_views(old(issues)@) + plain_condition_issues(event_id@, value@),
{
    if is_blank(value) {
        push_issue(issues, EventValidationIssue::error(cat3("event ", event_id, " has a condition with an empty id")));
    } else {
        assert(issue_views(issues@) =~= issue_views(old(issues)@) + none());
    }
}

fn validate_condition(
    event_id: &str,
    condition: &EventCondition,
    objectives: Option<&ObjectiveDatabase>,
    issues: &mut Vec<EventValidationIssue>,
)
    ensures
        issue_views(final(issues)@) == issue_views(old(issues)@) + condition_issues(event_id@, *condition, objectives),
{
    match condition {
        EventCondition::FlagSet(v) => validate_plain(event_id, v.as_str(), issues),
        EventCondition::FlagMissing(v) => validate_plain(event_id, v.as_str(), issues),
        EventCondition::CutsceneSeen(v) => validate_plain(event_id, v.as_str(), issues),
        EventCondition::CutsceneMissing(v) => validate_plain(event_id, v.as_str(), issues),
        EventCondition::CodexScanned(v) => validate_plain(event_id, v.as_str(), issues),
        EventCondition::CodexMissing(v) => validate_plain(event_id, v.as_str(), issues),
        EventCondition::ObjectiveCheckpointDone { objective_id, checkpoint_id } => validate_objective_checkpoint(
            event_id,
            objective_id.as_str(),
            checkpoint_id.as_str(),
            objectives,
            issues,
        ),
        EventCondition::ObjectiveCheckpointMissing { objective_id, checkpoint_id } => validate_objective_checkpoint(
            event_id,
            objective_id.as_str(),
            checkpoint_id.as_str(),
            objectives,
            issues,
        ),
    }
}

fn validate_action(
    event_id: &str,
    action: &EventAction,
    cutscenes: Option<&CutsceneDatabase>,
    objectives: Option<&ObjectiveDatabase>,
    issues: &mut Vec<EventValidationIssue>,
)
    ensures
        issue_views(final(issues)@) == issue_views(old(issues)@) + action_issues(event_id@, *action, cutscenes, objectives),
{
    match action {
        EventAction::PlayCutscene(cutscene_id) => {
            if is_blank(cutscene_id.as_str()) {
                push_issue(issues, EventValidationIssue::error(cat3("event ", event_id, " PlayCutscene has an empty cutscene id")));
            } else {
                let unknown = match cutscenes {
                    Some(db) => db.get(cutscene_id.as_str()).is_none(),
                    None => false,
                };
                if unknown {
                    push_issue(issues, EventValidationIssue::error(cat4("event ", event_id, " references unknown cutscene ", cutscene_id.as_str())));
                } else {
                    assert(issue_views(issues@) =~= issue_views(old(issues)@) + none());
                }
            }
        },
        EventAction::SetFlag(flag) => {
            if is_blank(flag.as_str()) {
                push_issue(issues, EventValidationIssue::error(cat3("event ", event_id, " SetFlag has an empty flag")));
            } else {
                assert(issue_views(issues@) =~= issue_views(old(issues)@) + none());
            }
        },
        EventAction::AdvanceObjective { objective_id, checkpoint_id, .. } => {
            if is_blank(objective_id.as_str()) {
                push_issue(issues, EventValidationIssue::error(cat3("event ", event_id, " AdvanceObjective has an empty objective id")));
            } else {
                match checkpoint_id {
                    Some(c) => validate_objective_checkpoint(event_id, objective_id.as_str(), c.as_str(), objectives, issues),
                    None => {
                        let unknown = match objectives {
                            Some(db) => db.get(objective_id.as_str()).is_none(),
                            None => false,
                        };
                        if unknown {
                            push_issue(issues, EventValidationIssue::error(cat4("event ", event_id, " references unknown objective ", objective_id.as_str())));
                        } else {
                            assert(issue_views(issues@) =~= issue_views(old(issues)@) + none());
                        }
                    },
                }
            }
        },
        EventAction::ShowNotice(message) => {
            if is_blank(message.as_str()) {
                push_issue(issues, EventValidationIssue::warning(cat3("event ", event_id, " ShowNotice has an empty message")));
            } else {
                assert(issue_views(issues@) =~= issue_views(old(issues)@) + none());
            }
        },
    }
}

fn validate_conditions(
    event_id: &str,
    conditions: &Vec<EventCondition>,
    objectives: Option<&ObjectiveDatabase>,
    issues: &mut Vec<EventValidationIssue>,
)
    ensures
        issue_views(final(issues)@) == issue_views(old(issues)@) + conditions_issues(event_id@, conditions@, objectives),
{
    let mut i: usize = 0;
    assert(conditions@.subrange(0, 0) =~= Seq::<EventCondition>::empty());
    assert(issue_views(issues@) =~= issue_views(old(issues)@) + none());
    while i < conditions.len()
        invariant
            i <= conditions@.len(),
            issue_views(issues@) == issue_views(old(issues)@) + conditions_issues(
                event_id@,
                conditions@.subrange(0, i as int),
                objectives,
            ),
        decreases conditions@.len() - i,
    {
        let ghost mid = issue_views(issues@);
        validate_condition(event_id, &conditions[i], objectives, issues);
        proof {
            let pre = conditions@.subrange(0, i + 1);
            assert(pre.drop_last() =~= conditions@.subrange(0, i as int));
            assert(issue_views(issues@) =~= issue_views(old(issues)@) + conditions_issues(event_id@, pre, objectives));
        }
        i = i + 1;
    }
    assert(conditions@.subrange(0, i as int) =~= conditions@);
}

fn validate_actions(
    event_id: &str,
    actions: &Vec<EventAction>,
    cutscenes: Option<&CutsceneDatabase>,
    objectives: Option<&ObjectiveDatabase>,
    issues: &mut Vec<EventValidationIssue>,
)
    ensures
        issue_views(final(issues)@) == issue_views(old(issues)@) + actions_issues(event_id@, actions@, cutscenes, objectives),
{
    let mut i: usize = 0;
    assert(actions@.subrange(0, 0) =~= Seq::<EventAction>::empty());
    assert(issue_views(issues@) =~= issue_views(old(issues)@) + none());
    while i < actions.len()
        invariant
            i <= actions@.len(),
            issue_views(issues@) == issue_views(old(issues)@) + actions_issues(
                event_id@,
                actions@.subrange(0, i as int),
                cutscenes,
                objectives,
            ),
        decreases actions@.len() - i,
    {
        validate_action(event_id, &actions[i], cutscenes, objectives, issues);
        proof {
            let pre = actions@.subrange(0, i + 1);
            assert(pre.drop_last() =~= actions@.subrange(0, i as int));
            assert(issue_views(issues@) =~= issue_views(old(issues)@) + actions_issues(event_id@, pre, cutscenes, objectives));
        }
        i = i + 1;
    }
    assert(actions@.subrange(0, i as int) =~= actions@);
}

/// Checks every event: ids must be present and unique, events should act, and the
/// conditions and actions must reference ids that exist in the given tables.
fn validate_events(
    events: &Vec<WorldEventDefinition>,
    cutscenes: Option<&CutsceneDatabase>,
    objectives: Option<&ObjectiveDatabase>,
) -> (r: Vec<EventValidationIssue>)
    ensures
        issue_views(r@) == events_issues(events@, cutscenes, objectives),
{
    let mut issues: Vec<EventValidationIssue> = Vec::new();
    let mut ids: Vec<String> = Vec::new();
    let mut i: usize = 0;
    assert(events@.subrange(0, 0) =~= Seq::<WorldEventDefinition>::empty());
    assert(issue_views(issues@) =~= none());
    while i < events.len()
        invariant
            i <= events@.len(),
            issue_views(issues@) == events_issues(events@.subrange(0, i as int), cutscenes, objectives),
            ids@.map_values(|x: String| x@) == seen_ids(events@.subrange(0, i as int)),
        decreases events@.len() - i,
    {
        let ghost before = events@.subrange(0, i as int);
        let ghost start = issue_views(issues@);
        proof {
            assert(events@.subrange(0, i + 1).drop_last() =~= before);
        }
        let event = &events[i];
        if is_blank(event.id.as_str()) {
            push_issue(&mut issues, EventValidationIssue::error("event id is empty".to_owned()));
            proof {
                assert(issue_views(issues@) =~= events_issues(events@.subrange(0, i + 1), cutscenes, objectives));
            }
        } else {
            let id = trim(event.id.as_str());
            let duplicate = list_contains(&ids, id);
            if duplicate {
                push_issue(&mut issues, EventValidationIssue::error(cat2("event id duplicated: ", id)));
            }
            let ghost views = ids@.map_values(|x: String| x@);
            ids.push(id.to_owned());
            assert(ids@.map_values(|x: String| x@) =~= views.push(id@));
            let ghost after_dup = issue_views(issues@);
            if event.actions.len() == 0 {
                push_issue(&mut issues, EventValidationIssue::warning(cat3("event ", id, " has no actions")));
            }
            let ghost after_actions = issue_views(issues@);
            validate_conditions(id, &event.conditions, objectives, &mut issues);
            validate_actions(id, &event.actions, cutscenes, objectives, &mut issues);
            proof {
                let dup_part = if seen_ids(before).contains(id@) {
                    err("event id duplicated: "@ + id@)
                } else {
                    none()
                };
                let act_part = if event.actions@.len() == 0 {
                    warn("event "@ + id@ + " has no actions"@)
                } else {
                    none()
                };
                assert(after_dup =~= start + dup_part);
                assert(after_actions =~= start + dup_part + act_part);
                assert(issue_views(issues@) =~= start + (dup_part + act_part + conditions_issues(id@, event.conditions@, objectives)
                    + actions_issues(id@, event.actions@, cutscenes, objectives)));
            }
        }
        i = i + 1;
    }
    assert(events@.subrange(0, i as int) =~= events@);
    issues
}

/// The world event table, indexed by trimmed id.
pub struct EventDatabase {
    events: Vec<WorldEventDefinition>,
    by_id: IdIndex,
}

/// `a` is `b` with its id replaced by the trimmed id.
pub open spec fn trimmed_copy(a: WorldEventDefinition, b: WorldEventDefinition) -> bool {
    &&& a.id@ == trimmed(b.id@)
    &&& a.trigger == b.trigger
    &&& a.scope == b.scope
    &&& a.conditions == b.conditions
    &&& a.actions == b.actions
}

/// `kept` is `defs` without the definitions whose id is blank, with every id trimmed.
pub open spec fn normalized(kept: Seq<WorldEventDefinition>, defs: Seq<WorldEventDefinition>) -> bool
    decreases defs.len(),
{
    if defs.len() == 0 {
        kept.len() == 0
    } else if blank(defs.last().id@) {
        normalized(kept, defs.drop_last())
    } else {
        kept.len() > 0 && trimmed_copy(kept.last(), defs.last()) && normalized(kept.drop_last(), defs.drop_last())
    }
}

/// Index entries `(trimmed id, position)` for the events with a non-blank id, in order.
pub open spec fn nonblank_positions(defs: Seq<WorldEventDefinition>) -> Seq<(Seq<char>, usize)>
    decreases defs.len(),
{
    if defs.len() == 0 {
        Seq::empty()
    } else if blank(defs.last().id@) {
        nonblank_positions(defs.drop_last())
    } else {
        nonblank_positions(defs.drop_last()).push((trimmed(defs.last().id@), (defs.len() - 1) as usize))
    }
}

impl EventDatabase {
    pub closed spec fn defs(&self) -> Seq<WorldEventDefinition> {
        self.events@
    }

    pub closed spec fn id_index(&self) -> Seq<(Seq<char>, usize)> {
        self.by_id@
    }

    pub open spec fn index_fresh(&self) -> bool {
        self.id_index() == nonblank_positions(self.defs())
    }

    /// Position of the event `get` answers for `id`.
    pub open spec fn get_index(&self, id: Seq<char>) -> Option<int> {
        match lookup_last(self.id_index(), trimmed(id)) {
            Some(i) => if i < self.defs().len() {
                Some(i as int)
            } else {
                None
            },
            None => None,
        }
    }

    /// Keeps the events with a non-blank id, trims their ids and indexes them.
    pub fn from_definitions(events: Vec<WorldEventDefinition>) -> (r: Self)
        ensures
            normalized(r.defs(), events@),
            r.index_fresh(),
    {
        let ghost orig = events@;
        let total = events.len();
        let mut input = events;
        let mut kept: Vec<WorldEventDefinition> = Vec::new();
        let mut k: usize = 0;
        assert(orig.subrange(0, orig.len() as int) =~= orig);
        while input.len() > 0
            invariant
                orig.len() == total,
                k + input@.len() == orig.len(),
                input@ == orig.subrange(k as int, orig.len() as int),
                normalized(kept@, orig.subrange(0, k as int)),
            decreases input@.len(),
        {
            let mut d = input.remove(0);
            proof {
                assert(orig.subrange(0, k + 1).drop_last() =~= orig.subrange(0, k as int));
                assert(orig.subrange(0, k + 1).last() == d);
                assert(input@ =~= orig.subrange(k + 1, orig.len() as int));
            }
            if !is_blank(d.id.as_str()) {
                let id = trim(d.id.as_str()).to_owned();
                d.id = id;
                let ghost before = kept@;
                kept.push(d);
                assert(kept@.drop_last() =~= before);
            }
            k = k + 1;
        }
        assert(orig.subrange(0, k as int) =~= orig);
        let mut database = EventDatabase { events: kept, by_id: IdIndex::new() };
        database.reindex();
        database
    }

    /// Rebuilds the index from the current list: every non-blank id, trimmed, to its position.
    pub fn reindex(&mut self)
        ensures
            final(self).defs() == old(self).defs(),
            final(self).index_fresh(),
    {
        let mut index = IdIndex::new();
        let mut i: usize = 0;
        while i < self.events.len()
            invariant
                i <= self.events@.len(),
                index@ == nonblank_positions(self.events@.subrange(0, i as int)),
            decreases self.events@.len() - i,
        {
            let ghost pre = self.events@.subrange(0, i + 1);
            assert(pre.drop_last() =~= self.events@.subrange(0, i as int));
            if !is_blank(self.events[i].id.as_str()) {
                index.insert(trim(self.events[i].id.as_str()).to_owned(), i);
            }
            i = i + 1;
        }
        assert(self.events@.subrange(0, i as int) =~= self.events@);
        self.by_id = index;
    }

    /// The event whose trimmed id is the trimmed `id`, looked up through the index.
    pub fn get(&self, id: &str) -> (r: Option<&WorldEventDefinition>)
        ensures
            r is Some <==> self.get_index(id@) is Some,
            r matches Some(d) ==> *d == self.defs()[self.get_index(id@)->0],
    {
        match self.by_id.lookup(trim(id)) {
            Some(i) => {
                if i < self.events.len() {
                    Some(&self.events[i])
                } else {
                    None
                }
            },
            None => None,
        }
    }

    pub fn events(&self) -> (r: &[WorldEventDefinition])
        ensures
            r@ == self.defs(),
    {
        self.events.as_slice()
    }

    /// The list, for editing in place; the index is left as it is until `reindex`.
    pub fn events_mut(&mut self) -> (r: &mut Vec<WorldEventDefinition>)
        ensures
            r@ == old(self).defs(),
            final(self).defs() == final(r)@,
            final(self).id_index() == old(self).id_index(),
    {
        &mut self.events
    }

    /// Checks the table against the cutscene and objective tables, where given.
    pub fn validate(
        &self,
        cutscenes: Option<&CutsceneDatabase>,
        objectives: Option<&ObjectiveDatabase>,
    ) -> (r: Vec<EventValidationIssue>)
        ensures
            issue_views(r@) == events_issues(self.defs(), cutscenes, objectives),
    {
        validate_events(&self.events, cutscenes, objectives)
    }
}

proof fn lemma_nonblank_positions_lookup(defs: Seq<WorldEventDefinition>, key: Seq<char>)
    requires
        defs.len() <= usize::MAX,
    ensures
        lookup_last(nonblank_positions(defs), key) matches Some(i) ==> i < defs.len() && !blank(defs[i as int].id@)
            && trimmed(defs[i as int].id@) == key,
        lookup_last(nonblank_positions(defs), key) is None ==> forall|j: int|
            0 <= j < defs.len() && !blank(#[trigger] defs[j].id@) ==> trimmed(defs[j].id@) != key,
    decreases defs.len(),
{
    if defs.len() > 0 {
        let last = defs.len() - 1;
        lemma_nonblank_positions_lookup(defs.drop_last(), key);
        assert forall|j: int| 0 <= j < last implies defs.drop_last()[j] == defs[j] by {}
        if !blank(defs.last().id@) {
            let p = nonblank_positions(defs.drop_last());
            let x = (trimmed(defs.last().id@), last as usize);
            assert(p.push(x).drop_last() =~= p);
            assert(p.push(x).last() == x);
        }
    }
}

/// Lookup law: with a fresh index, `get` finds an event exactly when some event has a
/// non-blank id that trims to the trimmed key, and what it finds has that id.
pub proof fn lemma_fresh_get(db: &EventDatabase, key: Seq<char>)
    requires
        db.index_fresh(),
        db.defs().len() <= usize::MAX,
    ensures
        db.get_index(key) is Some <==> exists|j: int|
            0 <= j < db.defs().len() && !blank(#[trigger] db.defs()[j].id@) && trimmed(db.defs()[j].id@) == trimmed(key),
        db.get_index(key) matches Some(i) ==> trimmed(db.defs()[i].id@) == trimmed(key),
{
    lemma_nonblank_positions_lookup(db.defs(), trimmed(key));
}

} // verus!
