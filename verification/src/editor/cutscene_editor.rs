use vstd::prelude::*;

use crate::cutscenes::{CutsceneCompletion, CutsceneDefinition, CutsceneStep, CutsceneText};
use crate::editor::ids::{fresh_id, unique_id};
use crate::text::{
    ascii_lower, blank, cat2, cat3, contains, contains_seq, dec, decimal, is_blank, to_ascii_lowercase, trim, trimmed,
};

verus! {

/// The kinds of cutscene step the editor offers.
#[derive(Clone, Copy, Debug, PartialEq, Eq, Structural)]
pub enum CutsceneStepKind {
    FadeIn,
    FadeOut,
    Wait,
    TextPanel,
    SetFlag,
}

/// Every step kind, in the order the editor lists them.
pub fn all_step_kinds() -> (r: [CutsceneStepKind; 5])
    ensures
        r@ == seq![CutsceneStepKind::FadeIn, CutsceneStepKind::FadeOut, CutsceneStepKind::Wait,
            CutsceneStepKind::TextPanel, CutsceneStepKind::SetFlag],
{
    let r = [CutsceneStepKind::FadeIn, CutsceneStepKind::FadeOut, CutsceneStepKind::Wait,
        CutsceneStepKind::TextPanel, CutsceneStepKind::SetFlag];
    assert(r@ =~= seq![CutsceneStepKind::FadeIn, CutsceneStepKind::FadeOut, CutsceneStepKind::Wait,
        CutsceneStepKind::TextPanel, CutsceneStepKind::SetFlag]);
    r
}

/// The bit pattern of `0.35f32`, the length in seconds of a new fade.
pub const DEFAULT_FADE_BITS: u32 = 0x3eb3_3333u32;

/// The bit pattern of `0.5f32`, the length in seconds of a new wait.
pub const DEFAULT_WAIT_BITS: u32 = 0x3f00_0000u32;

/// The bit pattern of `0.25f32`, the shortest showing in seconds of a new text panel.
pub const DEFAULT_PANEL_MIN_BITS: u32 = 0x3e80_0000u32;

pub open spec fn step_kind_of(step: CutsceneStep) -> CutsceneStepKind {
    match step {
        CutsceneStep::FadeIn { .. } => CutsceneStepKind::FadeIn,
        CutsceneStep::FadeOut { .. } => CutsceneStepKind::FadeOut,
        CutsceneStep::Wait { .. } => CutsceneStepKind::Wait,
        CutsceneStep::TextPanel { .. } => CutsceneStepKind::TextPanel,
        CutsceneStep::SetFlag { .. } => CutsceneStepKind::SetFlag,
    }
}

/// `r` is the step a new step of kind `kind` starts as.
pub open spec fn is_default_step(kind: CutsceneStepKind, r: CutsceneStep) -> bool {
    &&& step_kind_of(r) == kind
    &&& r matches CutsceneStep::FadeIn { duration_bits } ==> duration_bits == DEFAULT_FADE_BITS
    &&& r matches CutsceneStep::FadeOut { duration_bits } ==> duration_bits == DEFAULT_FADE_BITS
    &&& r matches CutsceneStep::Wait { duration_bits } ==> duration_bits == DEFAULT_WAIT_BITS
    &&& r matches CutsceneStep::TextPanel { speaker, body, min_duration_bits, require_confirm } ==> (speaker
        matches Some(s) && s.english@ == "AI"@ && s.chinese@ == "AI"@ && body.english@ == "新的传输。"@
        && body.chinese@ == "新的传输。"@ && min_duration_bits == DEFAULT_PANEL_MIN_BITS && require_confirm)
    &&& r matches CutsceneStep::SetFlag { flag } ==> flag@ == "story.flag"@
}

impl CutsceneStepKind {
    /// The kind's name in the step list.
    pub fn label(self) -> (r: &'static str)
        ensures
            r == (match self {
                CutsceneStepKind::FadeIn => "Fade In",
                CutsceneStepKind::FadeOut => "Fade Out",
                CutsceneStepKind::Wait => "Wait",
                CutsceneStepKind::TextPanel => "Text Panel",
                CutsceneStepKind::SetFlag => "Set Flag",
            }),
    {
        match self {
            CutsceneStepKind::FadeIn => "Fade In",
            CutsceneStepKind::FadeOut => "Fade Out",
            CutsceneStepKind::Wait => "Wait",
            CutsceneStepKind::TextPanel => "Text Panel",
            CutsceneStepKind::SetFlag => "Set Flag",
        }
    }

    /// The step a new step of this kind starts as: fades of 0.35 s, a wait of 0.5 s, a
    /// text panel spoken by "AI" that shows at least 0.25 s and waits for confirmation,
    /// a flag named `story.flag`.
    pub fn default_step(self) -> (r: CutsceneStep)
        ensures
            is_default_step(self, r),
    {
        match self {
            CutsceneStepKind::FadeIn => CutsceneStep::FadeIn { duration_bits: DEFAULT_FADE_BITS },
            CutsceneStepKind::FadeOut => CutsceneStep::FadeOut { duration_bits: DEFAULT_FADE_BITS },
            CutsceneStepKind::Wait => CutsceneStep::Wait { duration_bits: DEFAULT_WAIT_BITS },
            CutsceneStepKind::TextPanel => CutsceneStep::TextPanel {
                speaker: Some(CutsceneText::new("AI", "AI")),
                body: CutsceneText::new("新的传输。", "新的传输。"),
                min_duration_bits: DEFAULT_PANEL_MIN_BITS,
                require_confirm: true,
            },
            CutsceneStepKind::SetFlag => CutsceneStep::SetFlag { flag: "story.flag".to_owned() },
        }
    }

    /// The kind of an existing step.
    pub fn from_step(step: &CutsceneStep) -> (r: Self)
        ensures
            r == step_kind_of(*step),
    {
        match step {
            CutsceneStep::FadeIn { .. } => CutsceneStepKind::FadeIn,
            CutsceneStep::FadeOut { .. } => CutsceneStepKind::FadeOut,
            CutsceneStep::Wait { .. } => CutsceneStepKind::Wait,
            CutsceneStep::TextPanel { .. } => CutsceneStepKind::TextPanel,
            CutsceneStep::SetFlag { .. } => CutsceneStepKind::SetFlag,
        }
    }
}

/// The text an author edits: the Chinese text unless it is blank, else the English.
pub open spec fn source_text(t: CutsceneText) -> Seq<char> {
    if !blank(t.chinese@) {
        t.chinese@
    } else {
        t.english@
    }
}

/// The text an author edits.
pub fn cutscene_source_text(text: &CutsceneText) -> (r: &str)
    ensures
        r@ == source_text(*text),
{
    if !is_blank(text.chinese.as_str()) {
        text.chinese.as_str()
    } else {
        text.english.as_str()
    }
}

/// Writes the authored text into both languages.
pub fn set_cutscene_source_text(text: &mut CutsceneText, source: String)
    ensures
        final(text).english@ == source@,
        final(text).chinese@ == source@,
{
    text.chinese = source.clone();
    text.english = source;
}

pub open spec fn completion_label(c: CutsceneCompletion) -> Seq<char> {
    match c {
        CutsceneCompletion::Pop => "Pop"@,
        CutsceneCompletion::SwitchScene { scene } => scene@,
    }
}

/// How a cutscene ends, in the list: `Pop` or the scene it switches to.
pub fn cutscene_completion_label(completion: &CutsceneCompletion) -> (r: &str)
    ensures
        r@ == completion_label(*completion),
{
    match completion {
        CutsceneCompletion::Pop => "Pop",
        CutsceneCompletion::SwitchScene { scene } => scene.as_str(),
    }
}

#[derive(Clone, Copy, Debug, PartialEq, Eq, Structural)]
pub enum CutsceneValidationSeverity {
    Error,
    Warning,
}

/// A problem the editor finds in the cutscene table.
#[derive(Clone, Debug)]
pub struct CutsceneValidationIssue {
    pub severity: CutsceneValidationSeverity,
    pub message: String,
}

impl View for CutsceneValidationIssue {
    type V = (CutsceneValidationSeverity, Seq<char>);

    open spec fn view(&self) -> (CutsceneValidationSeverity, Seq<char>) {
        (self.severity, self.message@)
    }
}

pub type IssueSeq = Seq<(CutsceneValidationSeverity, Seq<char>)>;

pub open spec fn issue_list(s: Seq<CutsceneValidationIssue>) -> IssueSeq {
    s.map_values(|i: CutsceneValidationIssue| i@)
}

pub open spec fn cerr(m: Seq<char>) -> IssueSeq {
    seq![(CutsceneValidationSeverity::Error, m)]
}

pub open spec fn cwarn(m: Seq<char>) -> IssueSeq {
    seq![(CutsceneValidationSeverity::Warning, m)]
}

fn push_issue(issues: &mut Vec<CutsceneValidationIssue>, severity: CutsceneValidationSeverity, message: String)
    ensures
        issue_list(final(issues)@) == issue_list(old(issues)@) + seq![(severity, message@)],
{
    issues.push(CutsceneValidationIssue { severity, message });
    assert(issue_list(issues@) =~= issue_list(old(issues)@) + seq![(severity, message@)]);
}

/// Whether an `f32` given by its bit pattern fails "finite and `>= 0`": an infinity or
/// NaN (all exponent bits set) or a number below zero (sign bit set, other than `-0.0`).
pub open spec fn duration_invalid(bits: u32) -> bool {
    (bits & 0x7f80_0000u32) == 0x7f80_0000u32 || bits > 0x8000_0000u32
}

fn is_invalid_duration(bits: u32) -> (r: bool)
    ensures
        r == duration_invalid(bits),
{
    (bits & 0x7f80_0000u32) == 0x7f80_0000u32 || bits > 0x8000_0000u32
}

/// How a step is named in messages: the cutscene id, `step` and the step's number from 1.
pub open spec fn step_label(id: Seq<char>, index: nat) -> Seq<char> {
    id + " step "@ + dec(index + 1)
}

/// The problems of one step.
pub open spec fn step_issues(id: Seq<char>, index: nat, step: CutsceneStep) -> IssueSeq {
    let label = step_label(id, index);
    match step {
        CutsceneStep::FadeIn { duration_bits } => if duration_invalid(duration_bits) {
            cerr(label + " duration 必须 >= 0"@)
        } else {
            Seq::empty()
        },
        CutsceneStep::FadeOut { duration_bits } => if duration_invalid(duration_bits) {
            cerr(label + " duration 必须 >= 0"@)
        } else {
            Seq::empty()
        },
        CutsceneStep::Wait { duration_bits } => if duration_invalid(duration_bits) {
            cerr(label + " duration 必须 >= 0"@)
        } else {
            Seq::empty()
        },
        CutsceneStep::TextPanel { speaker, body, min_duration_bits, .. } => (if duration_invalid(min_duration_bits) {
            cerr(label + " min_duration 必须 >= 0"@)
        } else {
            Seq::empty()
        }) + (if blank(body.english@) && blank(body.chinese@) {
            cwarn(label + " 文本正文为空"@)
        } else {
            Seq::empty()
        }) + (match speaker {
            Some(s) => if blank(s.english@) && blank(s.chinese@) {
                cwarn(label + " speaker 为空"@)
            } else {
                Seq::empty()
            },
            None => Seq::empty(),
        }),
        CutsceneStep::SetFlag { flag } => if blank(flag@) {
            cerr(label + " flag 不能为空"@)
        } else {
            Seq::empty()
        },
    }
}

/// Appends the problems of step `step_index` of cutscene `cutscene_id`.
pub fn validate_cutscene_step(
    cutscene_id: &str,
    step_index: usize,
    step: &CutsceneStep,
    issues: &mut Vec<CutsceneValidationIssue>,
)
    requires
        step_index < usize::MAX,
    ensures
        issue_list(final(issues)@) == issue_list(old(issues)@) + step_issues(cutscene_id@, step_index as nat, *step),
{
    let number = decimal((step_index + 1) as u64);
    let label = cat3(cutscene_id, " step ", number.as_str());
    let ghost start = issue_list(issues@);
    match step {
        CutsceneStep::FadeIn { duration_bits } | CutsceneStep::FadeOut { duration_bits } | CutsceneStep::Wait {
            duration_bits,
        } => {
            if is_invalid_duration(*duration_bits) {
                push_issue(issues, CutsceneValidationSeverity::Error, cat2(label.as_str(), " duration 必须 >= 0"));
            } else {
                assert(issue_list(issues@) =~= start + Seq::empty());
            }
        },
        CutsceneStep::TextPanel { speaker, body, min_duration_bits, .. } => {
            if is_invalid_duration(*min_duration_bits) {
                push_issue(issues, CutsceneValidationSeverity::Error, cat2(label.as_str(), " min_duration 必须 >= 0"));
            }
            let ghost s1 = issue_list(issues@);
            if is_blank(body.english.as_str()) && is_blank(body.chinese.as_str()) {
                push_issue(issues, CutsceneValidationSeverity::Warning, cat2(label.as_str(), " 文本正文为空"));
            }
            let ghost s2 = issue_list(issues@);
            match speaker {
                Some(s) => {
                    if is_blank(s.english.as_str()) && is_blank(s.chinese.as_str()) {
                        push_issue(issues, CutsceneValidationSeverity::Warning, cat2(label.as_str(), " speaker 为空"));
                    }
                },
                None => {},
            }
            proof {
                let a = if duration_invalid(*min_duration_bits) {
                    cerr(label@ + " min_duration 必须 >= 0"@)
                } else {
                    Seq::empty()
                };
                let b = if blank(body.english@) && blank(body.chinese@) {
                    cwarn(label@ + " 文本正文为空"@)
                } else {
                    Seq::empty()
                };
                let c = match speaker {
                    Some(s) => if blank(s.english@) && blank(s.chinese@) {
                        cwarn(label@ + " speaker 为空"@)
                    } else {
                        Seq::empty()
                    },
                    None => Seq::empty(),
                };
                assert(s1 =~= start + a);
                assert(s2 =~= start + a + b);
                assert(issue_list(issues@) =~= start + (a + b + c));
            }
        },
        CutsceneStep::SetFlag { flag } => {
            if is_blank(flag.as_str()) {
                push_issue(issues, CutsceneValidationSeverity::Error, cat2(label.as_str(), " flag 不能为空"));
            } else {
                assert(issue_list(issues@) =~= start + Seq::empty());
            }
        },
    }
}

/// The problems of the steps of a cutscene, from step `from` on.
pub open spec fn steps_issues(id: Seq<char>, steps: Seq<CutsceneStep>) -> IssueSeq
    decreases steps.len(),
{
    if steps.len() == 0 {
        Seq::empty()
    } else {
        steps_issues(id, steps.drop_last()) + step_issues(id, (steps.len() - 1) as nat, steps.last())
    }
}

/// The trimmed ids of the cutscenes whose id is not blank, in order.
pub open spec fn claimed_ids(cs: Seq<CutsceneDefinition>) -> Seq<Seq<char>>
    decreases cs.len(),
{
    if cs.len() == 0 {
        Seq::empty()
    } else if blank(cs.last().id@) {
        claimed_ids(cs.drop_last())
    } else {
        claimed_ids(cs.drop_last()).push(trimmed(cs.last().id@))
    }
}

/// The problems of one cutscene, given the cutscenes before it.
pub open spec fn cutscene_issues(c: CutsceneDefinition, before: Seq<CutsceneDefinition>) -> IssueSeq {
    let id = trimmed(c.id@);
    if id.len() == 0 {
        cerr("Cutscene id 不能为空"@)
    } else {
        (if claimed_ids(before).contains(id) {
            cerr("Cutscene id 重复："@ + id)
        } else {
            Seq::empty()
        }) + (if c.steps@.len() == 0 {
            cwarn(id + " 没有任何步骤"@)
        } else {
            Seq::empty()
        }) + steps_issues(id, c.steps@)
    }
}

/// The problems of a cutscene table: blank and repeated ids, cutscenes without steps,
/// and the problems of every step.
pub open spec fn table_issues(cs: Seq<CutsceneDefinition>) -> IssueSeq
    decreases cs.len(),
{
    if cs.len() == 0 {
        Seq::empty()
    } else {
        table_issues(cs.drop_last()) + cutscene_issues(cs.last(), cs.drop_last())
    }
}

fn id_listed(ids: &Vec<String>, id: &str) -> (r: bool)
    ensures
        r == ids@.map_values(|s: String| s@).contains(id@),
{
    crate::text::list_contains(ids, id)
}

fn validate_steps(id: &str, steps: &Vec<CutsceneStep>, issues: &mut Vec<CutsceneValidationIssue>)
    ensures
        issue_list(final(issues)@) == issue_list(old(issues)@) + steps_issues(id@, steps@),
{
    let mut k: usize = 0;
    assert(issue_list(issues@) =~= issue_list(old(issues)@) + steps_issues(id@, steps@.subrange(0, 0)));
    while k < steps.len()
        invariant
            k <= steps@.len(),
            issue_list(issues@) == issue_list(old(issues)@) + steps_issues(id@, steps@.subrange(0, k as int)),
        decreases steps@.len() - k,
    {
        let ghost before = issue_list(issues@);
        validate_cutscene_step(id, k, &steps[k], issues);
        proof {
            let pre = steps@.subrange(0, k + 1);
            assert(pre.drop_last() =~= steps@.subrange(0, k as int));
            assert(pre.last() == steps@[k as int]);
            assert(issue_list(issues@) =~= issue_list(old(issues)@) + steps_issues(id@, pre));
        }
        k = k + 1;
    }
    assert(steps@.subrange(0, steps@.len() as int) =~= steps@);
}

/// The problems the editor reports for a cutscene table.
pub fn cutscene_validation_issues(cutscenes: &[CutsceneDefinition]) -> (r: Vec<CutsceneValidationIssue>)
    ensures
        issue_list(r@) == table_issues(cutscenes@),
{
    let mut issues: Vec<CutsceneValidationIssue> = Vec::new();
    let mut ids: Vec<String> = Vec::new();
    let mut i: usize = 0;
    assert(issue_list(issues@) =~= table_issues(cutscenes@.subrange(0, 0)));
    assert(ids@.map_values(|s: String| s@) =~= claimed_ids(cutscenes@.subrange(0, 0)));
    while i < cutscenes.len()
        invariant
            i <= cutscenes@.len(),
            issue_list(issues@) == table_issues(cutscenes@.subrange(0, i as int)),
            ids@.map_values(|s: String| s@) == claimed_ids(cutscenes@.subrange(0, i as int)),
        decreases cutscenes@.len() - i,
    {
        let c = &cutscenes[i];
        let ghost pre = cutscenes@.subrange(0, i + 1);
        let ghost before = cutscenes@.subrange(0, i as int);
        proof {
            assert(pre.drop_last() =~= before);
            assert(pre.last() == *c);
        }
        let ghost start = issue_list(issues@);
        let id = trim(c.id.as_str());
        if id.unicode_len() == 0 {
            push_issue(&mut issues, CutsceneValidationSeverity::Error, "Cutscene id 不能为空".to_owned());
            proof {
                assert(blank(c.id@));
            }
        } else {
            if id_listed(&ids, id) {
                push_issue(&mut issues, CutsceneValidationSeverity::Error, cat2("Cutscene id 重复：", id));
            }
            let ghost s1 = issue_list(issues@);
            ids.push(id.to_owned());
            if c.steps.len() == 0 {
                push_issue(&mut issues, CutsceneValidationSeverity::Warning, cat2(id, " 没有任何步骤"));
            }
            let ghost s2 = issue_list(issues@);
            validate_steps(id, &c.steps, &mut issues);
            proof {
                let a = if claimed_ids(before).contains(id@) {
                    cerr("Cutscene id 重复："@ + id@)
                } else {
                    Seq::empty()
                };
                let b = if c.steps@.len() == 0 {
                    cwarn(id@ + " 没有任何步骤"@)
                } else {
                    Seq::empty()
                };
                assert(s1 =~= start + a);
                assert(s2 =~= start + a + b);
                assert(issue_list(issues@) =~= start + (a + b + steps_issues(id@, c.steps@)));
                assert(ids@.map_values(|s: String| s@) =~= claimed_ids(before).push(id@));
            }
        }
        i = i + 1;
    }
    assert(cutscenes@.subrange(0, cutscenes@.len() as int) =~= cutscenes@);
    issues
}

/// The lower-cased text of a step that search looks through.
pub open spec fn step_search_text(step: CutsceneStep) -> Seq<char> {
    match step {
        CutsceneStep::TextPanel { speaker, body, .. } => (match speaker {
            Some(sp) => " "@ + ascii_lower(sp.english@) + " "@ + ascii_lower(sp.chinese@),
            None => Seq::empty(),
        }) + " "@ + ascii_lower(body.english@) + " "@ + ascii_lower(body.chinese@),
        CutsceneStep::SetFlag { flag } => " "@ + ascii_lower(flag@),
        _ => Seq::empty(),
    }
}

pub open spec fn steps_search_text(steps: Seq<CutsceneStep>) -> Seq<char>
    decreases steps.len(),
{
    if steps.len() == 0 {
        Seq::empty()
    } else {
        steps_search_text(steps.drop_last()) + step_search_text(steps.last())
    }
}

/// Everything search looks through in a cutscene, lower-cased: its id, how it ends, and
/// the text and flags of its steps, separated by spaces.
pub open spec fn search_haystack(c: CutsceneDefinition) -> Seq<char> {
    ascii_lower(c.id@) + " "@ + ascii_lower(completion_label(c.completion)) + steps_search_text(c.steps@)
}

fn append_step_search_text(step: &CutsceneStep, haystack: &mut String)
    ensures
        final(haystack)@ == old(haystack)@ + step_search_text(*step),
{
    match step {
        CutsceneStep::TextPanel { speaker, body, .. } => {
            match speaker {
                Some(sp) => {
                    haystack.append(" ");
                    haystack.append(to_ascii_lowercase(sp.english.as_str()).as_str());
                    haystack.append(" ");
                    haystack.append(to_ascii_lowercase(sp.chinese.as_str()).as_str());
                },
                None => {},
            }
            haystack.append(" ");
            haystack.append(to_ascii_lowercase(body.english.as_str()).as_str());
            haystack.append(" ");
            haystack.append(to_ascii_lowercase(body.chinese.as_str()).as_str());
            proof {
                let a = match speaker {
                    Some(sp) => " "@ + ascii_lower(sp.english@) + " "@ + ascii_lower(sp.chinese@),
                    None => Seq::empty(),
                };
                assert(haystack@ =~= old(haystack)@ + (a + " "@ + ascii_lower(body.english@) + " "@ + ascii_lower(
                    body.chinese@,
                )));
            }
        },
        CutsceneStep::SetFlag { flag } => {
            haystack.append(" ");
            haystack.append(to_ascii_lowercase(flag.as_str()).as_str());
            assert(haystack@ =~= old(haystack)@ + (" "@ + ascii_lower(flag@)));
        },
        _ => {
            assert(haystack@ =~= old(haystack)@ + Seq::empty());
        },
    }
}

/// Whether a cutscene matches a (lower-case) search: an empty search matches every
/// cutscene, any other must occur in its search text.
pub fn cutscene_matches_search(cutscene: &CutsceneDefinition, search: &str) -> (r: bool)
    ensures
        r == (search@.len() == 0 || contains_seq(search_haystack(*cutscene), search@)),
{
    if search.unicode_len() == 0 {
        return true;
    }
    let mut haystack = to_ascii_lowercase(cutscene.id.as_str());
    haystack.append(" ");
    haystack.append(to_ascii_lowercase(cutscene_completion_label(&cutscene.completion)).as_str());
    let ghost head = haystack@;
    let mut k: usize = 0;
    assert(cutscene.steps@.subrange(0, 0) =~= Seq::<CutsceneStep>::empty());
    assert(haystack@ =~= head + steps_search_text(cutscene.steps@.subrange(0, 0)));
    while k < cutscene.steps.len()
        invariant
            k <= cutscene.steps@.len(),
            haystack@ == head + steps_search_text(cutscene.steps@.subrange(0, k as int)),
        decreases cutscene.steps@.len() - k,
    {
        append_step_search_text(&cutscene.steps[k], &mut haystack);
        proof {
            let pre = cutscene.steps@.subrange(0, k + 1);
            assert(pre.drop_last() =~= cutscene.steps@.subrange(0, k as int));
            assert(haystack@ =~= head + steps_search_text(pre));
        }
        k = k + 1;
    }
    assert(cutscene.steps@.subrange(0, cutscene.steps@.len() as int) =~= cutscene.steps@);
    contains(haystack.as_str(), search)
}

fn cutscene_ids(cutscenes: &[CutsceneDefinition]) -> (r: Vec<String>)
    ensures
        r@.map_values(|x: String| x@) == cutscenes@.map_values(|c: CutsceneDefinition| c.id@),
{
    let mut r: Vec<String> = Vec::new();
    let mut i: usize = 0;
    while i < cutscenes.len()
        invariant
            i <= cutscenes@.len(),
            r@.len() == i,
            forall|j: int| 0 <= j < i ==> #[trigger] r@[j]@ == cutscenes@[j].id@,
        decreases cutscenes@.len() - i,
    {
        r.push(cutscenes[i].id.clone());
        i = i + 1;
    }
    assert(r@.map_values(|x: String| x@) =~= cutscenes@.map_values(|c: CutsceneDefinition| c.id@));
    r
}

/// A cutscene id made from `base_id` (or `cutscene.new`) that no cutscene takes yet.
pub fn unique_cutscene_id(cutscenes: &[CutsceneDefinition], base_id: &str) -> (r: String)
    ensures
        r@ == fresh_id(cutscenes@.map_values(|c: CutsceneDefinition| c.id@), base_id@, "cutscene.new"@),
{
    let ids = cutscene_ids(cutscenes);
    unique_id(&ids, base_id, "cutscene.new")
}

/// The shape of a cutscene the editor adds: blocking, played once, popped when done, with a
/// fade out, a text panel and a fade in.
pub open spec fn fresh_cutscene_shape(c: CutsceneDefinition) -> bool {
    &&& c.blocking
    &&& c.play_once
    &&& c.completion == CutsceneCompletion::Pop
    &&& c.steps@.len() == 3
    &&& is_default_step(CutsceneStepKind::FadeOut, c.steps@[0])
    &&& is_default_step(CutsceneStepKind::TextPanel, c.steps@[1])
    &&& is_default_step(CutsceneStepKind::FadeIn, c.steps@[2])
}

/// The cutscene the editor adds: the given id, blocking, played once, popped when done,
/// with a fade out, a text panel and a fade in.
pub fn new_cutscene(id: String) -> (r: CutsceneDefinition)
    ensures
        r.id@ == id@,
        fresh_cutscene_shape(r),
{
    let mut c = CutsceneDefinition::default();
    c.id = id;
    c.steps.push(CutsceneStepKind::FadeOut.default_step());
    c.steps.push(CutsceneStepKind::TextPanel.default_step());
    c.steps.push(CutsceneStepKind::FadeIn.default_step());
    c
}

/// The index a selection normalizes to in a list of `len > 0` entries: the selected index
/// (or the first) clamped to the last entry.
pub open spec fn selection_index(selected: Option<usize>, len: int) -> int {
    let i = match selected {
        Some(i) => i as int,
        None => 0,
    };
    if i < len - 1 {
        i
    } else {
        len - 1
    }
}

/// The selection kept in range: none in an empty list, else the selected index (or the
/// first) clamped to the last entry.
pub fn normalized_selected_index(selected: Option<usize>, len: usize) -> (r: Option<usize>)
    ensures
        len == 0 ==> r is None,
        len > 0 ==> (r matches Some(i) && i == selection_index(selected, len as int)),
{
    if len == 0 {
        return None;
    }
    let index = match selected {
        Some(i) => i,
        None => 0,
    };
    if index < len - 1 {
        Some(index)
    } else {
        Some(len - 1)
    }
}

fn copy_text(t: &CutsceneText) -> (r: CutsceneText)
    ensures
        r == *t,
{
    CutsceneText { english: t.english.clone(), chinese: t.chinese.clone() }
}

fn copy_step(step: &CutsceneStep) -> (r: CutsceneStep)
    ensures
        r == *step,
{
    match step {
        CutsceneStep::FadeIn { duration_bits } => CutsceneStep::FadeIn { duration_bits: *duration_bits },
        CutsceneStep::FadeOut { duration_bits } => CutsceneStep::FadeOut { duration_bits: *duration_bits },
        CutsceneStep::Wait { duration_bits } => CutsceneStep::Wait { duration_bits: *duration_bits },
        CutsceneStep::TextPanel { speaker, body, min_duration_bits, require_confirm } => CutsceneStep::TextPanel {
            speaker: match speaker {
                Some(t) => Some(copy_text(t)),
                None => None,
            },
            body: copy_text(body),
            min_duration_bits: *min_duration_bits,
            require_confirm: *require_confirm,
        },
        CutsceneStep::SetFlag { flag } => CutsceneStep::SetFlag { flag: flag.clone() },
    }
}

/// `c` is `d` but for the id.
pub open spec fn same_cutscene_but_id(c: CutsceneDefinition, d: CutsceneDefinition) -> bool {
    &&& c.blocking == d.blocking
    &&& c.play_once == d.play_once
    &&& c.steps@ == d.steps@
    &&& c.completion == d.completion
}

fn copy_cutscene_with_id(c: &CutsceneDefinition, id: String) -> (r: CutsceneDefinition)
    ensures
        r.id == id,
        same_cutscene_but_id(r, *c),
{
    let mut steps: Vec<CutsceneStep> = Vec::new();
    let mut i: usize = 0;
    while i < c.steps.len()
        invariant
            i <= c.steps@.len(),
            steps@ == c.steps@.subrange(0, i as int),
        decreases c.steps@.len() - i,
    {
        steps.push(copy_step(&c.steps[i]));
        assert(steps@ =~= c.steps@.subrange(0, i + 1));
        i = i + 1;
    }
    assert(steps@ =~= c.steps@);
    let completion = match &c.completion {
        CutsceneCompletion::Pop => CutsceneCompletion::Pop,
        CutsceneCompletion::SwitchScene { scene } => CutsceneCompletion::SwitchScene { scene: scene.clone() },
    };
    CutsceneDefinition { id, blocking: c.blocking, play_once: c.play_once, steps, completion }
}

pub open spec fn cutscene_id_views(cs: Seq<CutsceneDefinition>) -> Seq<Seq<char>> {
    cs.map_values(|c: CutsceneDefinition| c.id@)
}

/// Appends a new cutscene (see `new_cutscene`) with an id made from `cutscene.new` that no
/// cutscene takes; returns its index, which becomes the selection.
pub fn add_cutscene(cutscenes: &mut Vec<CutsceneDefinition>) -> (selected: usize)
    requires
        old(cutscenes)@.len() < usize::MAX,
    ensures
        selected == old(cutscenes)@.len(),
        final(cutscenes)@ == old(cutscenes)@.push(final(cutscenes)@[selected as int]),
        final(cutscenes)@[selected as int].id@ == fresh_id(cutscene_id_views(old(cutscenes)@), "cutscene.new"@, "cutscene.new"@),
        fresh_cutscene_shape(final(cutscenes)@[selected as int]),
{
    let id = unique_cutscene_id(cutscenes.as_slice(), "cutscene.new");
    proof {
        reveal_strlit("cutscene.new");
    }
    let c = new_cutscene(id);
    cutscenes.push(c);
    cutscenes.len() - 1
}

/// Inserts a copy of the selected cutscene, under a fresh id made from its own, right after
/// it; returns the copy's index, which becomes the selection. With no cutscene to select,
/// nothing changes and the status line asks for a selection.
pub fn duplicate_selected_cutscene(cutscenes: &mut Vec<CutsceneDefinition>, selected: Option<usize>) -> (r: Result<usize, String>)
    requires
        old(cutscenes)@.len() < usize::MAX,
    ensures
        old(cutscenes)@.len() == 0 ==> final(cutscenes)@ == old(cutscenes)@ && (r matches Err(m) && m@ == "请先选择过场动画"@),
        old(cutscenes)@.len() > 0 ==> {
            let i = selection_index(selected, old(cutscenes)@.len() as int);
            &&& r == Ok::<usize, String>((i + 1) as usize)
            &&& final(cutscenes)@ == old(cutscenes)@.insert(i + 1, final(cutscenes)@[i + 1])
            &&& final(cutscenes)@[i + 1].id@ == fresh_id(
                cutscene_id_views(old(cutscenes)@),
                old(cutscenes)@[i].id@,
                "cutscene.new"@,
            )
            &&& same_cutscene_but_id(final(cutscenes)@[i + 1], old(cutscenes)@[i])
        },
{
    let index = match normalized_selected_index(selected, cutscenes.len()) {
        Some(i) => i,
        None => {
            return Err("请先选择过场动画".to_owned());
        },
    };
    let id = unique_cutscene_id(cutscenes.as_slice(), cutscenes[index].id.as_str());
    proof {
        reveal_strlit("cutscene.new");
    }
    let copy = copy_cutscene_with_id(&cutscenes[index], id);
    cutscenes.insert(index + 1, copy);
    Ok(index + 1)
}

/// The selection after deleting entry `i` of a list of `len` entries: none when the list is
/// empty, else the same position clamped to the new last entry.
pub open spec fn selection_after_delete(i: int, len: int) -> Option<usize> {
    if len - 1 == 0 {
        None
    } else if i < len - 2 {
        Some(i as usize)
    } else {
        Some((len - 2) as usize)
    }
}

/// Deletes the selected cutscene; returns the new selection and the status line naming the
/// deleted cutscene. With no cutscene to select, nothing changes and the status line asks
/// for a selection.
pub fn delete_selected_cutscene(cutscenes: &mut Vec<CutsceneDefinition>, selected: Option<usize>) -> (r: Result<(Option<usize>, String), String>)
    ensures
        old(cutscenes)@.len() == 0 ==> final(cutscenes)@ == old(cutscenes)@ && (r matches Err(m) && m@ == "请先选择过场动画"@),
        old(cutscenes)@.len() > 0 ==> {
            let i = selection_index(selected, old(cutscenes)@.len() as int);
            &&& final(cutscenes)@ == old(cutscenes)@.remove(i)
            &&& (r matches Ok((next, status)) && next == selection_after_delete(i, old(cutscenes)@.len() as int)
                && status@ == "已删除过场 "@ + old(cutscenes)@[i].id@)
        },
{
    let index = match normalized_selected_index(selected, cutscenes.len()) {
        Some(i) => i,
        None => {
            return Err("请先选择过场动画".to_owned());
        },
    };
    let removed = cutscenes.remove(index);
    let next_len = cutscenes.len();
    let next = if next_len == 0 {
        None
    } else if index < next_len - 1 {
        Some(index)
    } else {
        Some(next_len - 1)
    };
    let status = cat2("已删除过场 ", removed.id.as_str());
    Ok((next, status))
}

} // verus!
