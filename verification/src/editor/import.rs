use vstd::prelude::*;

use crate::assets::{AnchorKind, AssetKind, SnapMode};
use crate::map::LayerKind;
use crate::text::{replace_char, replaced, str_eq, trim, trimmed};

verus! {

/// A sprite path as the importer keeps it: trimmed, with `/` as separator.
pub open spec fn normalized_path(path: Seq<char>) -> Seq<char> {
    replaced(trimmed(path), '\\', "/"@)
}

/// `relative_path.trim().replace('\\', "/")`.
pub fn normalize_sprite_path(relative_path: &str) -> (r: String)
    ensures
        r@ == normalized_path(relative_path@),
{
    replace_char(trim(relative_path), '\\', "/")
}

/// The `/`-separated segments of `s` (what `str::split('/')` yields).
pub open spec fn slash_segments(s: Seq<char>) -> Seq<Seq<char>>
    decreases s.len(),
{
    if s.len() == 0 {
        seq![Seq::empty()]
    } else {
        let r = slash_segments(s.drop_last());
        if s.last() == '/' {
            r.push(Seq::empty())
        } else {
            r.update(r.len() - 1, r.last().push(s.last()))
        }
    }
}

proof fn lemma_segments_nonempty(s: Seq<char>)
    ensures
        slash_segments(s).len() >= 1,
    decreases s.len(),
{
    if s.len() > 0 {
        lemma_segments_nonempty(s.drop_last());
    }
}

/// The first segment, from `k` on, that is followed by an `overworld` segment.
pub open spec fn segment_before_overworld(segs: Seq<Seq<char>>, k: int) -> Option<Seq<char>>
    decreases segs.len() - k,
{
    if k < 0 || k + 1 >= segs.len() {
        None
    } else if segs[k + 1] == "overworld"@ {
        Some(segs[k])
    } else {
        segment_before_overworld(segs, k + 1)
    }
}

/// The category the importer guesses from a normalized sprite path: the directory that holds
/// an `overworld` directory, else `props`.
pub open spec fn path_category(path: Seq<char>) -> Seq<char> {
    match segment_before_overworld(slash_segments(path), 0) {
        Some(c) => c,
        None => "props"@,
    }
}

fn split_slashes(s: &str) -> (r: Vec<String>)
    ensures
        r@.map_values(|x: String| x@) == slash_segments(s@),
{
    let n = s.unicode_len();
    let mut done: Vec<String> = Vec::new();
    let mut current = String::new();
    let mut i: usize = 0;
    assert(s@.subrange(0, 0) =~= Seq::<char>::empty());
    while i < n
        invariant
            n == s@.len(),
            i <= n,
            done@.map_values(|x: String| x@).push(current@) == slash_segments(s@.subrange(0, i as int)),
        decreases n - i,
    {
        let ghost pre = s@.subrange(0, i + 1);
        assert(pre.drop_last() =~= s@.subrange(0, i as int));
        let ghost segs = slash_segments(s@.subrange(0, i as int));
        let c = s.get_char(i);
        if c == '/' {
            let finished = current;
            current = String::new();
            let ghost before = done@.map_values(|x: String| x@);
            done.push(finished);
            assert(done@.map_values(|x: String| x@) =~= before.push(finished@));
            assert(done@.map_values(|x: String| x@).push(current@) =~= segs.push(Seq::empty()));
        } else {
            let ghost cv = current@;
            current.append(s.substring_char(i, i + 1));
            assert(current@ =~= cv.push(c));
            assert(done@.map_values(|x: String| x@).push(current@) =~= segs.update(segs.len() - 1, segs.last().push(c)));
        }
        i = i + 1;
    }
    assert(s@.subrange(0, n as int) =~= s@);
    let ghost before = done@.map_values(|x: String| x@);
    done.push(current);
    assert(done@.map_values(|x: String| x@) =~= before.push(current@));
    done
}

/// The category a sprite at `normalized_path` (see `normalize_sprite_path`) is filed under.
pub fn category_from_path(normalized_path: &str) -> (r: String)
    ensures
        r@ == path_category(normalized_path@),
{
    let segments = split_slashes(normalized_path);
    let ghost segs = segments@.map_values(|x: String| x@);
    proof {
        lemma_segments_nonempty(normalized_path@);
    }
    let mut k: usize = 0;
    let last = segments.len() - 1;
    while k < last
        invariant
            segs == segments@.map_values(|x: String| x@),
            segs == slash_segments(normalized_path@),
            segs.len() >= 1,
            last == segs.len() - 1,
            k <= last,
            segment_before_overworld(segs, 0) == segment_before_overworld(segs, k as int),
        decreases segs.len() - k,
    {
        assert(segs[k + 1] == segments@[k + 1]@ && segs[k as int] == segments@[k as int]@);
        if str_eq(segments[k + 1].as_str(), "overworld") {
            proof {
                reveal_strlit("overworld");
            }
            assert(segment_before_overworld(segs, k as int) == Some(segs[k as int]));
            return segments[k].clone();
        }
        proof {
            reveal_strlit("overworld");
        }
        k = k + 1;
    }
    "props".to_owned()
}

/// The layer, anchor and snap an asset of `kind` is set up with when imported.
pub open spec fn kind_defaults(kind: AssetKind) -> (LayerKind, AnchorKind, SnapMode) {
    match kind {
        AssetKind::Tile => (LayerKind::Ground, AnchorKind::TopLeft, SnapMode::Grid),
        AssetKind::Decal => (LayerKind::Decals, AnchorKind::Center, SnapMode::HalfGrid),
        AssetKind::Object => (LayerKind::Objects, AnchorKind::BottomCenter, SnapMode::Grid),
        AssetKind::Entity => (LayerKind::Entities, AnchorKind::BottomCenter, SnapMode::Grid),
        AssetKind::Zone => (LayerKind::Zones, AnchorKind::TopLeft, SnapMode::Grid),
    }
}

/// The layer, anchor and snap an imported asset of `kind` gets (the placement part of
/// `apply_kind_defaults`).
pub fn placement_defaults(kind: AssetKind) -> (r: (LayerKind, AnchorKind, SnapMode))
    ensures
        r == kind_defaults(kind),
{
    match kind {
        AssetKind::Tile => (LayerKind::Ground, AnchorKind::TopLeft, SnapMode::Grid),
        AssetKind::Decal => (LayerKind::Decals, AnchorKind::Center, SnapMode::HalfGrid),
        AssetKind::Object => (LayerKind::Objects, AnchorKind::BottomCenter, SnapMode::Grid),
        AssetKind::Entity => (LayerKind::Entities, AnchorKind::BottomCenter, SnapMode::Grid),
        AssetKind::Zone => (LayerKind::Zones, AnchorKind::TopLeft, SnapMode::Grid),
    }
}

/// The entity type an imported asset of `kind` gets: an entity with a blank type becomes a
/// `Decoration`; anything else keeps what it has.
pub fn default_entity_type(kind: AssetKind, entity_type: &str) -> (r: String)
    ensures
        r@ == (if kind == AssetKind::Entity && trimmed(entity_type@).len() == 0 {
            "Decoration"@
        } else {
            entity_type@
        }),
{
    if kind == AssetKind::Entity && trim(entity_type).unicode_len() == 0 {
        "Decoration".to_owned()
    } else {
        entity_type.to_owned()
    }
}

/// The tags an imported asset starts with: its category with each `_` turned into `, `.
pub fn tags_from_category(category: &str) -> (r: String)
    ensures
        r@ == replaced(category@, '_', ", "@),
{
    replace_char(category, '_', ", ")
}

} // verus!
