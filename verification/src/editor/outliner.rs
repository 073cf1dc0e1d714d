use vstd::prelude::*;

use crate::text::{ascii_lower, cat5, contains, contains_seq, is_whitespace, is_ws, to_ascii_lowercase};

verus! {

/// The outliner's groups, in display order (`OUTLINER_GROUPS`).
pub fn outliner_groups() -> (r: [&'static str; 6])
    ensures
        r@ == seq!["Spawns", "Entities", "Objects", "Decals", "Zones", "Ground"],
{
    let r = ["Spawns", "Entities", "Objects", "Decals", "Zones", "Ground"];
    assert(r@ =~= seq!["Spawns", "Entities", "Objects", "Decals", "Zones", "Ground"]);
    r
}

/// The zone types the editor offers without further setup (`EDITOR_KNOWN_ZONE_TYPES`).
pub fn editor_known_zone_types() -> (r: [&'static str; 4])
    ensures
        r@ == seq!["ScanArea", "MapTransition", "NoSpawn", "CameraBounds"],
{
    let r = ["ScanArea", "MapTransition", "NoSpawn", "CameraBounds"];
    assert(r@ =~= seq!["ScanArea", "MapTransition", "NoSpawn", "CameraBounds"]);
    r
}

/// The entity types the inspector offers (`DEFAULT_ENTITY_TYPES`).
pub fn default_entity_types() -> (r: [&'static str; 5])
    ensures
        r@ == seq!["Decoration", "ScanTarget", "FacilityEntrance", "FacilityExit", "Door"],
{
    let r = ["Decoration", "ScanTarget", "FacilityEntrance", "FacilityExit", "Door"];
    assert(r@ =~= seq!["Decoration", "ScanTarget", "FacilityEntrance", "FacilityExit", "Door"]);
    r
}

/// The item ids the inspector offers for unlock rules (`DEFAULT_UNLOCK_ITEM_IDS`).
pub fn default_unlock_item_ids() -> (r: [&'static str; 10])
    ensures
        r@ == seq![
            "ruin_key",
            "scanner_tool",
            "artifact_core",
            "data_shard",
            "energy_cell",
            "alien_crystal_sample",
            "bio_sample_vial",
            "scrap_part",
            "metal_fragment",
            "glow_fungus_sample",
        ],
{
    let r = [
        "ruin_key",
        "scanner_tool",
        "artifact_core",
        "data_shard",
        "energy_cell",
        "alien_crystal_sample",
        "bio_sample_vial",
        "scrap_part",
        "metal_fragment",
        "glow_fungus_sample",
    ];
    assert(r@ =~= seq![
        "ruin_key",
        "scanner_tool",
        "artifact_core",
        "data_shard",
        "energy_cell",
        "alien_crystal_sample",
        "bio_sample_vial",
        "scrap_part",
        "metal_fragment",
        "glow_fungus_sample",
    ]);
    r
}

/// The words joined with single spaces.
pub open spec fn joined(words: Seq<Seq<char>>) -> Seq<char>
    decreases words.len(),
{
    if words.len() == 0 {
        Seq::empty()
    } else if words.len() == 1 {
        words[0]
    } else {
        joined(words.drop_last()) + " "@ + words.last()
    }
}

/// What the outliner searches in an entry: its label, detail, extra search text and badge
/// labels, separated by spaces, in ASCII lower case.
pub open spec fn entry_search_text(label: Seq<char>, detail: Seq<char>, extra: Seq<char>, badges: Seq<Seq<char>>) -> Seq<char> {
    ascii_lower(label + " "@ + detail + " "@ + extra + " "@ + joined(badges))
}

/// The search text of an outliner entry (the text part of `outliner_entry`).
pub fn outliner_search_text(label: &str, detail: &str, search_text: &str, badges: &Vec<&str>) -> (r: String)
    ensures
        r@ == entry_search_text(label@, detail@, search_text@, badges@.map_values(|b: &str| b@)),
{
    let ghost words = badges@.map_values(|b: &str| b@);
    let mut badge_text = String::new();
    let mut i: usize = 0;
    while i < badges.len()
        invariant
            words == badges@.map_values(|b: &str| b@),
            i <= badges@.len(),
            badge_text@ == joined(words.subrange(0, i as int)),
        decreases badges@.len() - i,
    {
        let ghost pre = words.subrange(0, i + 1);
        assert(pre.drop_last() =~= words.subrange(0, i as int));
        if i > 0 {
            badge_text.append(" ");
        }
        badge_text.append(badges[i]);
        proof {
            reveal_strlit(" ");
            if i == 0 {
                assert(pre.len() == 1);
            }
        }
        i = i + 1;
    }
    assert(words.subrange(0, i as int) =~= words);
    let full = cat5(label, " ", detail, " ", search_text);
    let mut all = full;
    all.append(" ");
    all.append(badge_text.as_str());
    proof {
        reveal_strlit(" ");
    }
    assert(all@ =~= label@ + " "@ + detail@ + " "@ + search_text@ + " "@ + joined(words));
    to_ascii_lowercase(all.as_str())
}

/// Whether a whitespace-separated word of `s` starts at `i`.
pub open spec fn word_starts(s: Seq<char>, i: int) -> bool {
    0 <= i < s.len() && !is_ws(s[i]) && (i == 0 || is_ws(s[i - 1]))
}

/// The end (exclusive) of the run of non-whitespace characters from `i`.
pub open spec fn word_end(s: Seq<char>, i: int) -> int
    decreases s.len() - i,
{
    if i < 0 || i >= s.len() || is_ws(s[i]) {
        i
    } else {
        word_end(s, i + 1)
    }
}

/// Every whitespace-separated word of `search` occurs in `text`.
pub open spec fn all_words_found(text: Seq<char>, search: Seq<char>) -> bool {
    forall|i: int| #[trigger] word_starts(search, i) ==> contains_seq(text, search.subrange(i, word_end(search, i)))
}

proof fn lemma_word_end_bounds(s: Seq<char>, i: int)
    requires
        0 <= i <= s.len(),
    ensures
        i <= word_end(s, i) <= s.len(),
    decreases s.len() - i,
{
    if i < s.len() && !is_ws(s[i]) {
        lemma_word_end_bounds(s, i + 1);
    }
}

/// Whether an outliner entry with this search text matches the search: every word of the
/// search must occur in it (an empty search matches everything).
pub fn outliner_matches(search_text: &str, search: &str) -> (r: bool)
    ensures
        r == all_words_found(search_text@, search@),
{
    let n = search.unicode_len();
    let mut i: usize = 0;
    while i < n
        invariant
            n == search@.len(),
            i <= n,
            forall|k: int| 0 <= k < i && #[trigger] word_starts(search@, k) ==> contains_seq(
                search_text@,
                search@.subrange(k, word_end(search@, k)),
            ),
        decreases n - i,
    {
        let c = search.get_char(i);
        let starts = !is_whitespace(c) && (i == 0 || is_whitespace(search.get_char(i - 1)));
        assert(starts == word_starts(search@, i as int));
        if starts {
            let mut j: usize = i;
            while j < n && !is_whitespace(search.get_char(j))
                invariant
                    n == search@.len(),
                    i <= j <= n,
                    word_end(search@, i as int) == word_end(search@, j as int),
                decreases n - j,
            {
                j = j + 1;
            }
            let word = search.substring_char(i, j);
            if !contains(search_text, word) {
                assert(word_starts(search@, i as int));
                return false;
            }
        }
        i = i + 1;
    }
    assert forall|k: int| #[trigger] word_starts(search@, k) implies contains_seq(
        search_text@,
        search@.subrange(k, word_end(search@, k)),
    ) by {
        assert(0 <= k < n);
    }
    true
}

} // verus!
