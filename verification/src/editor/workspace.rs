use vstd::prelude::*;

use crate::map::{all_layers, layer_zh_label, LayerKind, UnlockRule};
use crate::text::{cat3, cat4, cat5, dec, decimal, eq_ascii_ci, eq_ignore_ascii_case};
use crate::validation::{views, MapValidationIssue, MapValidationSeverity};

verus! {

/// The scene argument that starts a map of `mode`: `"facility"` for a facility map
/// (any ASCII case), `"overworld"` otherwise.
pub fn launch_scene_for_mode(mode: &str) -> (r: &'static str)
    ensures
        r == (if eq_ascii_ci(mode@, "facility"@) { "facility" } else { "overworld" }),
{
    if eq_ignore_ascii_case(mode, "facility") {
        "facility"
    } else {
        "overworld"
    }
}

/// How many issues of `s` have severity `sev`.
pub open spec fn count_severity(s: Seq<(MapValidationSeverity, Seq<char>)>, sev: MapValidationSeverity) -> nat
    decreases s.len(),
{
    if s.len() == 0 {
        0
    } else {
        count_severity(s.drop_last(), sev) + (if s.last().0 == sev { 1nat } else { 0nat })
    }
}

pub proof fn lemma_count_severity_bound(s: Seq<(MapValidationSeverity, Seq<char>)>, sev: MapValidationSeverity)
    ensures
        count_severity(s, sev) <= s.len(),
    decreases s.len(),
{
    if s.len() > 0 {
        lemma_count_severity_bound(s.drop_last(), sev);
    }
}

/// The one-line summary of a validation run: the numbers of errors and of warnings.
pub open spec fn summary_text(errors: nat, warnings: nat) -> Seq<char> {
    "校验结果："@ + dec(errors) + " 个错误，"@ + dec(warnings) + " 个警告"@
}

fn is_error(issue: &MapValidationIssue) -> (r: bool)
    ensures
        r == (issue.severity == MapValidationSeverity::Error),
{
    match issue.severity {
        MapValidationSeverity::Error => true,
        MapValidationSeverity::Warning => false,
    }
}

/// Counts the errors and the warnings among `issues` and states them in one line.
pub fn validation_summary(issues: &[MapValidationIssue]) -> (r: String)
    ensures
        r@ == summary_text(
            count_severity(views(issues@), MapValidationSeverity::Error),
            count_severity(views(issues@), MapValidationSeverity::Warning),
        ),
{
    let ghost all = views(issues@);
    let n = issues.len();
    let mut errors: usize = 0;
    let mut warnings: usize = 0;
    let mut i: usize = 0;
    while i < n
        invariant
            n == issues@.len(),
            all == views(issues@),
            i <= n,
            errors == count_severity(all.take(i as int), MapValidationSeverity::Error),
            warnings == count_severity(all.take(i as int), MapValidationSeverity::Warning),
        decreases n - i,
    {
        proof {
            assert(all.take(i + 1).drop_last() =~= all.take(i as int));
            lemma_count_severity_bound(all.take(i as int), MapValidationSeverity::Error);
            lemma_count_severity_bound(all.take(i as int), MapValidationSeverity::Warning);
        }
        if is_error(&issues[i]) {
            errors = errors + 1;
        } else {
            warnings = warnings + 1;
        }
        i = i + 1;
    }
    proof {
        assert(all.take(n as int) =~= all);
    }
    let e = decimal(errors as u64);
    let w = decimal(warnings as u64);
    cat5("校验结果：", e.as_str(), " 个错误，", w.as_str(), " 个警告")
}

/// How a batch of selected items is aligned.
#[derive(Clone, Copy, Debug, PartialEq, Eq, Structural)]
pub enum BatchAlignMode {
    Left,
    CenterX,
    Right,
    Top,
    CenterY,
    Bottom,
}

pub open spec fn align_label(m: BatchAlignMode) -> &'static str {
    match m {
        BatchAlignMode::Left => "左对齐",
        BatchAlignMode::CenterX => "水平居中",
        BatchAlignMode::Right => "右对齐",
        BatchAlignMode::Top => "顶对齐",
        BatchAlignMode::CenterY => "垂直居中",
        BatchAlignMode::Bottom => "底对齐",
    }
}

/// Every alignment mode, in menu order.
pub fn all_align_modes() -> (r: [BatchAlignMode; 6])
    ensures
        r@ == seq![BatchAlignMode::Left, BatchAlignMode::CenterX, BatchAlignMode::Right,
            BatchAlignMode::Top, BatchAlignMode::CenterY, BatchAlignMode::Bottom],
{
    let r = [BatchAlignMode::Left, BatchAlignMode::CenterX, BatchAlignMode::Right,
        BatchAlignMode::Top, BatchAlignMode::CenterY, BatchAlignMode::Bottom];
    assert(r@ =~= seq![BatchAlignMode::Left, BatchAlignMode::CenterX, BatchAlignMode::Right,
        BatchAlignMode::Top, BatchAlignMode::CenterY, BatchAlignMode::Bottom]);
    r
}

impl BatchAlignMode {
    pub fn label(self) -> (r: &'static str)
        ensures
            r == align_label(self),
    {
        match self {
            BatchAlignMode::Left => "左对齐",
            BatchAlignMode::CenterX => "水平居中",
            BatchAlignMode::Right => "右对齐",
            BatchAlignMode::Top => "顶对齐",
            BatchAlignMode::CenterY => "垂直居中",
            BatchAlignMode::Bottom => "底对齐",
        }
    }
}

/// How a batch of selected items is spread out.
#[derive(Clone, Copy, Debug, PartialEq, Eq, Structural)]
pub enum BatchDistributeMode {
    Horizontal,
    Vertical,
}

/// Both distribution modes, in menu order.
pub fn all_distribute_modes() -> (r: [BatchDistributeMode; 2])
    ensures
        r@ == seq![BatchDistributeMode::Horizontal, BatchDistributeMode::Vertical],
{
    let r = [BatchDistributeMode::Horizontal, BatchDistributeMode::Vertical];
    assert(r@ =~= seq![BatchDistributeMode::Horizontal, BatchDistributeMode::Vertical]);
    r
}

impl BatchDistributeMode {
    pub fn label(self) -> (r: &'static str)
        ensures
            r == (match self {
                BatchDistributeMode::Horizontal => "水平分布",
                BatchDistributeMode::Vertical => "垂直分布",
            }),
    {
        match self {
            BatchDistributeMode::Horizontal => "水平分布",
            BatchDistributeMode::Vertical => "垂直分布",
        }
    }
}

/// The tabs of the left sidebar.
#[derive(Clone, Copy, Debug, PartialEq, Eq, Structural)]
pub enum LeftSidebarTab {
    Assets,
    Layers,
    Outliner,
}

/// Every sidebar tab, in display order.
pub fn all_sidebar_tabs() -> (r: [LeftSidebarTab; 3])
    ensures
        r@ == seq![LeftSidebarTab::Assets, LeftSidebarTab::Layers, LeftSidebarTab::Outliner],
{
    let r = [LeftSidebarTab::Assets, LeftSidebarTab::Layers, LeftSidebarTab::Outliner];
    assert(r@ =~= seq![LeftSidebarTab::Assets, LeftSidebarTab::Layers, LeftSidebarTab::Outliner]);
    r
}

impl LeftSidebarTab {
    pub fn label(self) -> (r: &'static str)
        ensures
            r == (match self {
                LeftSidebarTab::Assets => "资源库",
                LeftSidebarTab::Layers => "图层",
                LeftSidebarTab::Outliner => "对象",
            }),
    {
        match self {
            LeftSidebarTab::Assets => "资源库",
            LeftSidebarTab::Layers => "图层",
            LeftSidebarTab::Outliner => "对象",
        }
    }
}

/// An item of the map picked in the editor: its layer and its id.
#[derive(Clone, Debug)]
pub struct SelectedItem {
    pub layer: LayerKind,
    pub id: String,
}

impl SelectedItem {
    /// `"<layer name>:<id>"`.
    pub fn label(&self) -> (r: String)
        ensures
            r@ == layer_zh_label(self.layer)@ + ":"@ + self.id@,
    {
        cat3(self.layer.zh_label(), ":", self.id.as_str())
    }
}

/// A registered asset, as the dependency report lists it.
#[derive(Clone, Debug)]
pub struct AssetCatalogEntry {
    pub asset_id: String,
    pub category: String,
    pub path: String,
}

/// A placed item that names an asset the database does not hold.
#[derive(Clone, Debug)]
pub struct AssetReferenceIssue {
    pub layer: LayerKind,
    pub owner: String,
    pub asset_id: String,
}

/// What a scan of the asset folders against the database and the map found.
#[derive(Clone, Debug)]
pub struct AssetDependencyReport {
    pub missing_files: Vec<AssetCatalogEntry>,
    pub unregistered_pngs: Vec<String>,
    pub unknown_references: Vec<AssetReferenceIssue>,
    pub unused_assets: Vec<AssetCatalogEntry>,
}

impl AssetDependencyReport {
    /// A report with nothing in it.
    pub fn new() -> (r: Self)
        ensures
            r.missing_files@.len() == 0,
            r.unregistered_pngs@.len() == 0,
            r.unknown_references@.len() == 0,
            r.unused_assets@.len() == 0,
    {
        AssetDependencyReport {
            missing_files: Vec::new(),
            unregistered_pngs: Vec::new(),
            unknown_references: Vec::new(),
            unused_assets: Vec::new(),
        }
    }

    pub open spec fn total(&self) -> nat {
        self.missing_files@.len() + self.unregistered_pngs@.len() + self.unknown_references@.len()
            + self.unused_assets@.len()
    }

    /// The number of findings of every sort together.
    pub fn item_count(&self) -> (r: usize)
        requires
            self.total() <= usize::MAX,
        ensures
            r == self.total(),
    {
        self.missing_files.len() + self.unregistered_pngs.len() + self.unknown_references.len()
            + self.unused_assets.len()
    }

    /// The four counts in one line.
    pub fn summary(&self) -> (r: String)
        ensures
            r@ == "缺文件 "@ + dec(self.missing_files@.len()) + " / 未登记 PNG "@
                + dec(self.unregistered_pngs@.len()) + " / 未知引用 "@
                + dec(self.unknown_references@.len()) + " / 未使用 "@
                + dec(self.unused_assets@.len()),
    {
        let a = decimal(self.missing_files.len() as u64);
        let b = decimal(self.unregistered_pngs.len() as u64);
        let c = decimal(self.unknown_references.len() as u64);
        let d = decimal(self.unused_assets.len() as u64);
        let first = cat4("缺文件 ", a.as_str(), " / 未登记 PNG ", b.as_str());
        let second = cat4(" / 未知引用 ", c.as_str(), " / 未使用 ", d.as_str());
        let mut r = first;
        r.append(second.as_str());
        r
    }
}

/// An optional text, or nothing.
pub open spec fn text_or_empty(o: Option<String>) -> Seq<char> {
    match o {
        Some(s) => s@,
        None => Seq::empty(),
    }
}

fn as_text(o: &Option<String>) -> (r: &str)
    ensures
        r@ == text_or_empty(*o),
{
    match o {
        Some(s) => s.as_str(),
        None => {
            proof {
                reveal_strlit("");
            }
            ""
        },
    }
}

/// The text the outliner searches for an unlock rule: its codex id, item id and
/// locked message, separated by spaces (absent fields empty); nothing without a rule.
pub fn unlock_search_text(unlock: Option<&UnlockRule>) -> (r: String)
    ensures
        r@ == (match unlock {
            Some(u) => text_or_empty(u.requires_codex_id) + " "@ + text_or_empty(u.requires_item_id) + " "@
                + text_or_empty(u.locked_message),
            None => Seq::empty(),
        }),
{
    match unlock {
        Some(u) => cat5(as_text(&u.requires_codex_id), " ", as_text(&u.requires_item_id), " ", as_text(&u.locked_message)),
        None => String::new(),
    }
}

/// A warning the editor adds to a validation run.
pub fn editor_validation_warning(message: &str) -> (r: MapValidationIssue)
    ensures
        r@ == (MapValidationSeverity::Warning, message@),
{
    MapValidationIssue { severity: MapValidationSeverity::Warning, message: message.to_owned() }
}

/// How a layer is shown while editing.
#[derive(Clone, Copy, Debug, PartialEq, Eq, Structural)]
pub struct LayerUiState {
    pub visible: bool,
    pub locked: bool,
}

impl Default for LayerUiState {
    /// A layer starts visible and unlocked.
    fn default() -> (r: Self)
        ensures
            r.visible,
            !r.locked,
    {
        LayerUiState { visible: true, locked: false }
    }
}

/// Every layer with its starting display state, in layer order.
pub fn default_layer_states() -> (r: Vec<(LayerKind, LayerUiState)>)
    ensures
        r@.len() == 6,
        forall|i: int| 0 <= i < 6 ==> (#[trigger] r@[i]).0 == all_layers_seq()[i] && r@[i].1.visible && !r@[i].1.locked,
{
    let layers = all_layers();
    let mut r: Vec<(LayerKind, LayerUiState)> = Vec::new();
    let mut i: usize = 0;
    while i < 6
        invariant
            i <= 6,
            layers@ == all_layers_seq(),
            r@.len() == i,
            forall|j: int| 0 <= j < i ==> (#[trigger] r@[j]).0 == all_layers_seq()[j] && r@[j].1.visible && !r@[j].1.locked,
        decreases 6 - i,
    {
        r.push((layers[i], LayerUiState::default()));
        i = i + 1;
    }
    r
}

pub open spec fn all_layers_seq() -> Seq<LayerKind> {
    seq![LayerKind::Ground, LayerKind::Decals, LayerKind::Objects, LayerKind::Entities, LayerKind::Zones,
        LayerKind::Collision]
}

} // verus!
