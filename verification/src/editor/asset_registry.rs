use vstd::prelude::*;
use vstd::seq_lib::to_multiset_insert;

use crate::assets::{AnchorKind, AssetDatabase, AssetDefinition, AssetKind, SnapMode};
use crate::editor::terrain_names::{string_opt_view, tag_views};
use crate::map::LayerKind;
use crate::text::{ascii_lower, contains, contains_seq, lex_lt, replace_char, replaced, str_eq, str_lt, to_ascii_lowercase};

verus! {

/// An asset as the editor's palette lists it. The path is the catalogue's path with `/` as
/// separator; the default size is carried as the bit patterns of two `f32` values.
pub struct AssetEntry {
    pub id: String,
    pub category: String,
    pub relative_path: String,
    pub kind: AssetKind,
    pub default_layer: LayerKind,
    pub default_size_bits: [u32; 2],
    pub footprint: Option<[i32; 2]>,
    pub anchor: AnchorKind,
    pub snap: SnapMode,
    pub entity_type: Option<String>,
    pub codex_id: Option<String>,
    pub tags: Vec<String>,
}

/// An entry as a value: id, category, relative path, kind, layer, size bits, footprint,
/// anchor, snap, entity type, codex id, tags.
pub type AssetEntryView = (
    Seq<char>,
    Seq<char>,
    Seq<char>,
    AssetKind,
    LayerKind,
    [u32; 2],
    Option<[i32; 2]>,
    AnchorKind,
    SnapMode,
    Option<Seq<char>>,
    Option<Seq<char>>,
    Seq<Seq<char>>,
);

impl View for AssetEntry {
    type V = AssetEntryView;

    open spec fn view(&self) -> AssetEntryView {
        (
            self.id@,
            self.category@,
            self.relative_path@,
            self.kind,
            self.default_layer,
            self.default_size_bits,
            self.footprint,
            self.anchor,
            self.snap,
            string_opt_view(self.entity_type),
            string_opt_view(self.codex_id),
            tag_views(self.tags@),
        )
    }
}

pub open spec fn entry_views(s: Seq<AssetEntry>) -> Seq<AssetEntryView> {
    s.map_values(|e: AssetEntry| e@)
}

/// The palette entry of a catalogue asset: its path with every `\` turned into `/`.
pub open spec fn entry_of(a: AssetDefinition) -> AssetEntryView {
    (
        a.id@,
        a.category@,
        replaced(a.path@, '\\', "/"@),
        a.kind,
        a.default_layer,
        a.default_size_bits,
        a.footprint,
        a.anchor,
        a.snap,
        string_opt_view(a.entity_type),
        string_opt_view(a.codex_id),
        tag_views(a.tags@),
    )
}

/// Whether `a` sorts before `b`: by category, then by id.
pub open spec fn key_lt(a: AssetEntryView, b: AssetEntryView) -> bool {
    lex_lt(a.1, b.1) || (a.1 == b.1 && lex_lt(a.0, b.0))
}

/// Where a stable insertion puts `e` in `s`: before the first entry from `from` on that sorts
/// after it.
pub open spec fn upper_pos(s: Seq<AssetEntryView>, e: AssetEntryView, from: int) -> int
    decreases s.len() - from,
{
    if from < 0 || from >= s.len() {
        s.len() as int
    } else if key_lt(e, s[from]) {
        from
    } else {
        upper_pos(s, e, from + 1)
    }
}

/// The stable sort of `s` by category and id.
pub open spec fn sorted_by_key(s: Seq<AssetEntryView>) -> Seq<AssetEntryView>
    decreases s.len(),
{
    if s.len() == 0 {
        s
    } else {
        let r = sorted_by_key(s.drop_last());
        r.insert(upper_pos(r, s.last(), 0), s.last())
    }
}

/// No entry sorts before one that precedes it.
pub open spec fn key_sorted(s: Seq<AssetEntryView>) -> bool {
    forall|i: int, j: int| 0 <= i < j < s.len() ==> !key_lt(#[trigger] s[j], #[trigger] s[i])
}

/// The editor's list of placeable assets, sorted by category and then id.
pub struct AssetRegistry {
    assets: Vec<AssetEntry>,
}

impl View for AssetRegistry {
    type V = Seq<AssetEntryView>;

    closed spec fn view(&self) -> Seq<AssetEntryView> {
        entry_views(self.assets@)
    }
}

impl Default for AssetRegistry {
    fn default() -> (r: Self)
        ensures
            r@.len() == 0,
    {
        AssetRegistry { assets: Vec::new() }
    }
}

fn asset_entry(asset: AssetDefinition) -> (e: AssetEntry)
    ensures
        e@ == entry_of(asset),
{
    let relative_path = replace_char(asset.path.as_str(), '\\', "/");
    AssetEntry {
        id: asset.id,
        category: asset.category,
        relative_path,
        kind: asset.kind,
        default_layer: asset.default_layer,
        default_size_bits: asset.default_size_bits,
        footprint: asset.footprint,
        anchor: asset.anchor,
        snap: asset.snap,
        entity_type: asset.entity_type,
        codex_id: asset.codex_id,
        tags: asset.tags,
    }
}

fn entry_lt(a: &AssetEntry, b: &AssetEntry) -> (r: bool)
    ensures
        r == key_lt(a@, b@),
{
    if str_lt(a.category.as_str(), b.category.as_str()) {
        true
    } else if str_eq(a.category.as_str(), b.category.as_str()) {
        str_lt(a.id.as_str(), b.id.as_str())
    } else {
        false
    }
}

/// Position of the first entry with id `id`.
pub open spec fn first_entry_with_id(s: Seq<AssetEntryView>, id: Seq<char>) -> Option<int>
    decreases s.len(),
{
    if s.len() == 0 {
        None
    } else if s[0].0 == id {
        Some(0)
    } else {
        match first_entry_with_id(s.drop_first(), id) {
            Some(i) => Some(i + 1),
            None => None,
        }
    }
}

/// The categories of `s`, each once, in order of first appearance.
pub open spec fn entry_categories(s: Seq<AssetEntryView>) -> Seq<Seq<char>>
    decreases s.len(),
{
    if s.len() == 0 {
        Seq::empty()
    } else {
        let before = entry_categories(s.drop_last());
        if before.contains(s.last().1) {
            before
        } else {
            before.push(s.last().1)
        }
    }
}

impl AssetRegistry {
    /// Lists the catalogue's assets sorted by category, then id, keeping catalogue order
    /// among equal keys.
    pub fn from_database(database: AssetDatabase) -> (r: Self)
        ensures
            r@ == sorted_by_key(database.assets@.map_values(|a: AssetDefinition| entry_of(a))),
    {
        let ghost src = database.assets@.map_values(|a: AssetDefinition| entry_of(a));
        let mut rest = database.assets;
        let mut out: Vec<AssetEntry> = Vec::new();
        let total: usize = rest.len();
        let mut k: usize = 0;
        assert(src.subrange(0, 0) =~= Seq::<AssetEntryView>::empty());
        while rest.len() > 0
            invariant
                src.len() == total,
                k + rest@.len() == total,
                forall|i: int| 0 <= i < rest@.len() ==> entry_of(#[trigger] rest@[i]) == src[k + i],
                entry_views(out@) == sorted_by_key(src.subrange(0, k as int)),
            decreases rest@.len(),
        {
            let ghost before_rest = rest@;
            let asset = rest.remove(0);
            assert(entry_of(asset) == src[k as int]);
            assert forall|i: int| 0 <= i < rest@.len() implies entry_of(#[trigger] rest@[i]) == src[k + 1 + i] by {
                assert(rest@[i] == before_rest[i + 1]);
            }
            let e = asset_entry(asset);
            let ghost sorted = entry_views(out@);
            let mut pos: usize = 0;
            while pos < out.len() && !entry_lt(&e, &out[pos])
                invariant
                    pos <= out@.len(),
                    sorted == entry_views(out@),
                    upper_pos(sorted, e@, 0) == upper_pos(sorted, e@, pos as int),
                decreases out@.len() - pos,
            {
                pos = pos + 1;
            }
            out.insert(pos, e);
            proof {
                let pre = src.subrange(0, k + 1);
                assert(pre.drop_last() =~= src.subrange(0, k as int));
                assert(pre.last() == e@);
                assert(entry_views(out@) =~= sorted.insert(pos as int, e@));
            }
            k = k + 1;
        }
        assert(src.subrange(0, k as int) =~= src);
        AssetRegistry { assets: out }
    }

    pub fn assets(&self) -> (r: &[AssetEntry])
        ensures
            entry_views(r@) == self@,
    {
        self.assets.as_slice()
    }

    /// The first entry with id `id`.
    pub fn get(&self, id: &str) -> (r: Option<&AssetEntry>)
        ensures
            r is Some <==> first_entry_with_id(self@, id@) is Some,
            r matches Some(e) ==> e@ == self@[first_entry_with_id(self@, id@)->0],
    {
        let ghost s = self@;
        assert(s.subrange(0, s.len() as int) =~= s);
        let mut j: usize = 0;
        while j < self.assets.len()
            invariant
                s == self@,
                s.len() == self.assets@.len(),
                j <= s.len(),
                first_entry_with_id(s, id@) == match first_entry_with_id(s.subrange(j as int, s.len() as int), id@) {
                    Some(k) => Some(k + j),
                    None => None,
                },
            decreases s.len() - j,
        {
            proof {
                assert(s.subrange(j as int, s.len() as int).drop_first() =~= s.subrange(j + 1, s.len() as int));
                assert(s.subrange(j as int, s.len() as int)[0] == self.assets@[j as int]@);
            }
            if str_eq(self.assets[j].id.as_str(), id) {
                return Some(&self.assets[j]);
            }
            j = j + 1;
        }
        None
    }

    /// Whether some entry has exactly this relative path.
    pub fn contains_path(&self, relative_path: &str) -> (r: bool)
        ensures
            r <==> exists|i: int| 0 <= i < self@.len() && #[trigger] self@[i].2 == relative_path@,
    {
        let ghost s = self@;
        let mut j: usize = 0;
        while j < self.assets.len()
            invariant
                s == self@,
                s.len() == self.assets@.len(),
                j <= s.len(),
                forall|i: int| 0 <= i < j ==> #[trigger] s[i].2 != relative_path@,
            decreases s.len() - j,
        {
            assert(s[j as int] == self.assets@[j as int]@);
            if str_eq(self.assets[j].relative_path.as_str(), relative_path) {
                assert(s[j as int].2 == relative_path@);
                return true;
            }
            j = j + 1;
        }
        false
    }

    /// The distinct categories, in list order of first appearance.
    pub fn categories(&self) -> (r: Vec<&str>)
        ensures
            r@.map_values(|c: &str| c@) == entry_categories(self@),
    {
        let ghost s = self@;
        let mut categories: Vec<&str> = Vec::new();
        let mut i: usize = 0;
        while i < self.assets.len()
            invariant
                s == self@,
                s.len() == self.assets@.len(),
                i <= s.len(),
                categories@.map_values(|c: &str| c@) == entry_categories(s.subrange(0, i as int)),
            decreases s.len() - i,
        {
            let ghost pre = s.subrange(0, i + 1);
            assert(pre.drop_last() =~= s.subrange(0, i as int));
            assert(pre.last() == self.assets@[i as int]@);
            let category = self.assets[i].category.as_str();
            let mut found = false;
            let mut j: usize = 0;
            let ghost cv = categories@.map_values(|c: &str| c@);
            while j < categories.len()
                invariant
                    cv == categories@.map_values(|c: &str| c@),
                    j <= categories@.len(),
                    found <==> exists|m: int| 0 <= m < j && cv[m] == category@,
                decreases categories@.len() - j,
            {
                assert(cv[j as int] == categories@[j as int]@);
                if str_eq(categories[j], category) {
                    found = true;
                }
                j = j + 1;
            }
            proof {
                if cv.contains(category@) {
                    let m = choose|m: int| 0 <= m < cv.len() && cv[m] == category@;
                    assert(exists|m: int| 0 <= m < j && cv[m] == category@);
                }
            }
            if !found {
                categories.push(category);
                assert(categories@.map_values(|c: &str| c@) =~= cv.push(category@));
            }
            i = i + 1;
        }
        assert(s.subrange(0, i as int) =~= s);
        categories
    }

    /// The entries of `category`, in list order.
    pub fn in_category(&self, category: &str) -> (r: Vec<&AssetEntry>)
        ensures
            r@.map_values(|e: &AssetEntry| e@) == self@.filter(|v: AssetEntryView| v.1 == category@),
    {
        let ghost s = self@;
        let mut out: Vec<&AssetEntry> = Vec::new();
        let mut i: usize = 0;
        while i < self.assets.len()
            invariant
                s == self@,
                s.len() == self.assets@.len(),
                i <= s.len(),
                out@.map_values(|e: &AssetEntry| e@) == s.subrange(0, i as int).filter(
                    |v: AssetEntryView| v.1 == category@,
                ),
            decreases s.len() - i,
        {
            let ghost pre = s.subrange(0, i + 1);
            assert(pre.drop_last() =~= s.subrange(0, i as int));
            assert(pre.last() == self.assets@[i as int]@);
            proof {
                reveal_with_fuel(Seq::filter, 1);
            }
            if str_eq(self.assets[i].category.as_str(), category) {
                let ghost before = out@.map_values(|e: &AssetEntry| e@);
                out.push(&self.assets[i]);
                assert(out@.map_values(|e: &AssetEntry| e@) =~= before.push(self.assets@[i as int]@));
            }
            i = i + 1;
        }
        assert(s.subrange(0, i as int) =~= s);
        out
    }
}

proof fn lemma_key_lt_transitive(a: AssetEntryView, b: AssetEntryView, c: AssetEntryView)
    requires
        key_lt(a, b),
        key_lt(b, c),
    ensures
        key_lt(a, c),
{
    if lex_lt(a.1, b.1) && lex_lt(b.1, c.1) {
        crate::text::lemma_lex_lt_transitive(a.1, b.1, c.1);
    } else if a.1 == b.1 && b.1 == c.1 {
        crate::text::lemma_lex_lt_transitive(a.0, b.0, c.0);
    }
}

proof fn lemma_key_lt_asymmetric(a: AssetEntryView, b: AssetEntryView)
    ensures
        key_lt(a, b) ==> !key_lt(b, a),
{
    crate::text::lemma_lex_lt_asymmetric(a.1, b.1);
    crate::text::lemma_lex_lt_asymmetric(a.0, b.0);
    crate::text::lemma_lex_lt_asymmetric(a.1, a.1);
}

proof fn lemma_upper_pos(s: Seq<AssetEntryView>, e: AssetEntryView, from: int)
    requires
        0 <= from <= s.len(),
    ensures
        from <= upper_pos(s, e, from) <= s.len(),
        forall|i: int| from <= i < upper_pos(s, e, from) ==> !key_lt(e, #[trigger] s[i]),
        upper_pos(s, e, from) < s.len() ==> key_lt(e, s[upper_pos(s, e, from)]),
    decreases s.len() - from,
{
    if from < s.len() && !key_lt(e, s[from]) {
        lemma_upper_pos(s, e, from + 1);
    }
}

/// The registry's order: its list is sorted by category and id, and holds exactly the
/// catalogue's entries, each as often as the catalogue has it.
pub proof fn lemma_registry_sorted_permutation(s: Seq<AssetEntryView>)
    ensures
        key_sorted(sorted_by_key(s)),
        sorted_by_key(s).to_multiset() == s.to_multiset(),
    decreases s.len(),
{
    if s.len() > 0 {
        let r = sorted_by_key(s.drop_last());
        let e = s.last();
        lemma_registry_sorted_permutation(s.drop_last());
        let p = upper_pos(r, e, 0);
        lemma_upper_pos(r, e, 0);
        let out = r.insert(p, e);
        assert forall|i: int, j: int| 0 <= i < j < out.len() implies !key_lt(#[trigger] out[j], #[trigger] out[i]) by {
            if j < p {
                assert(out[i] == r[i] && out[j] == r[j]);
            } else if j == p {
                assert(out[i] == r[i]);
            } else if i == p {
                assert(out[j] == r[j - 1]);
                if key_lt(r[j - 1], e) {
                    if j - 1 == p {
                        lemma_key_lt_asymmetric(e, r[p]);
                    } else {
                        lemma_key_lt_transitive(r[j - 1], e, r[p]);
                    }
                }
            } else if i < p {
                assert(out[i] == r[i] && out[j] == r[j - 1]);
            } else {
                assert(out[i] == r[i - 1] && out[j] == r[j - 1]);
            }
        }
        to_multiset_insert(r, p, e);
        vstd::seq_lib::to_multiset_build(s.drop_last(), e);
        assert(s.drop_last().push(e) =~= s);
    }
}

/// Whether the palette search `search` finds an entry: in its id, its path or one of its
/// tags, each taken in ASCII lower case.
pub open spec fn entry_matches(e: AssetEntryView, search: Seq<char>) -> bool {
    ||| contains_seq(ascii_lower(e.0), search)
    ||| contains_seq(ascii_lower(e.2), search)
    ||| exists|i: int| 0 <= i < e.11.len() && contains_seq(ascii_lower(#[trigger] e.11[i]), search)
}

/// Whether the palette search finds `asset`.
pub fn asset_matches_search(asset: &AssetEntry, search: &str) -> (r: bool)
    ensures
        r == entry_matches(asset@, search@),
{
    let id = to_ascii_lowercase(asset.id.as_str());
    if contains(id.as_str(), search) {
        return true;
    }
    let path = to_ascii_lowercase(asset.relative_path.as_str());
    if contains(path.as_str(), search) {
        return true;
    }
    let ghost tags = asset@.11;
    let mut i: usize = 0;
    while i < asset.tags.len()
        invariant
            tags == tag_views(asset.tags@),
            i <= tags.len(),
            forall|j: int| 0 <= j < i ==> !contains_seq(ascii_lower(#[trigger] tags[j]), search@),
        decreases tags.len() - i,
    {
        let tag = to_ascii_lowercase(asset.tags[i].as_str());
        if contains(tag.as_str(), search) {
            assert(contains_seq(ascii_lower(tags[i as int]), search@));
            assert(contains_seq(ascii_lower(asset@.11[i as int]), search@));
            return true;
        }
        i = i + 1;
    }
    false
}

/// Whether a sprite path is one the palette offers to import: under an `overworld`
/// directory, outside `overworld_originals`, and not yet in the registry.
pub open spec fn importable(path: Seq<char>, registered: Seq<AssetEntryView>) -> bool {
    &&& contains_seq(path, "/overworld/"@)
    &&& !contains_seq(path, "overworld_originals"@)
    &&& !(exists|i: int| 0 <= i < registered.len() && #[trigger] registered[i].2 == path)
}

/// The project-relative sprite paths, in the given order, that the palette offers to import.
pub fn unregistered_sprite_paths(paths: &Vec<String>, registry: &AssetRegistry) -> (r: Vec<String>)
    ensures
        r@.map_values(|p: String| p@) == paths@.map_values(|p: String| p@).filter(|p: Seq<char>| importable(p, registry@)),
{
    let ghost views = paths@.map_values(|p: String| p@);
    let ghost keep = |p: Seq<char>| importable(p, registry@);
    let mut out: Vec<String> = Vec::new();
    let mut i: usize = 0;
    assert(views.subrange(0, 0).filter(keep) =~= out@.map_values(|p: String| p@));
    while i < paths.len()
        invariant
            views == paths@.map_values(|p: String| p@),
            keep == (|p: Seq<char>| importable(p, registry@)),
            i <= views.len(),
            out@.map_values(|p: String| p@) == views.subrange(0, i as int).filter(keep),
        decreases views.len() - i,
    {
        proof {
            let pre = views.subrange(0, i + 1);
            assert(pre.drop_last() =~= views.subrange(0, i as int));
            assert(pre.last() == paths@[i as int]@);
            reveal_with_fuel(Seq::filter, 1);
        }
        let path = paths[i].as_str();
        if contains(path, "/overworld/") && !contains(path, "overworld_originals") && !registry.contains_path(path) {
            let ghost before = out@.map_values(|p: String| p@);
            out.push(paths[i].clone());
            assert(out@.map_values(|p: String| p@) =~= before.push(paths@[i as int]@));
        }
        i = i + 1;
    }
    assert(views.subrange(0, i as int) =~= views);
    out
}

/// The palette search finds an entry exactly when the search text occurs in its id, in its
/// path, or in any one of its tags (wherever the tag stands in the list), each taken in ASCII
/// lower case.
pub proof fn lemma_search_finds_any_tag(e: AssetEntryView, search: Seq<char>)
    ensures
        contains_seq(ascii_lower(e.0), search) ==> entry_matches(e, search),
        contains_seq(ascii_lower(e.2), search) ==> entry_matches(e, search),
        forall|i: int| 0 <= i < e.11.len() && #[trigger] contains_seq(ascii_lower(e.11[i]), search) ==> entry_matches(e, search),
        entry_matches(e, search) ==> contains_seq(ascii_lower(e.0), search) || contains_seq(ascii_lower(e.2), search)
            || exists|i: int| 0 <= i < e.11.len() && #[trigger] contains_seq(ascii_lower(e.11[i]), search),
{
}

} // verus!
