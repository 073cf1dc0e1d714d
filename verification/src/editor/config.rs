use vstd::prelude::*;

use crate::text::str_eq;
use crate::validation::string_views;

verus! {

/// How many maps the recent list keeps.
pub const RECENT_MAP_LIMIT: usize = 10;

/// The editor's saved preferences: the recently opened maps, newest first, and the
/// interface language.
pub struct EditorConfig {
    pub recent_maps: Vec<String>,
    pub language: String,
}

impl Default for EditorConfig {
    /// No recent maps, Simplified Chinese.
    fn default() -> (r: Self)
        ensures
            r.recent_maps@.len() == 0,
            r.language@ == "zh-Hans"@,
    {
        EditorConfig { recent_maps: Vec::new(), language: "zh-Hans".to_owned() }
    }
}

/// Whether an entry is some other map than `label`.
pub open spec fn other_than(label: Seq<char>) -> spec_fn(Seq<char>) -> bool {
    |e: Seq<char>| e != label
}

/// The recent list without `label`.
pub open spec fn without(recent: Seq<Seq<char>>, label: Seq<char>) -> Seq<Seq<char>> {
    recent.filter(other_than(label))
}

/// The recent list after opening `label`: it moves to the front, any earlier mention is
/// dropped, and only the first ten are kept.
pub open spec fn remembered(recent: Seq<Seq<char>>, label: Seq<char>) -> Seq<Seq<char>> {
    let all = seq![label] + without(recent, label);
    if all.len() > RECENT_MAP_LIMIT {
        all.subrange(0, RECENT_MAP_LIMIT as int)
    } else {
        all
    }
}

/// No map occurs twice in the list.
pub open spec fn no_repeats(s: Seq<Seq<char>>) -> bool {
    forall|i: int, j: int| 0 <= i < j < s.len() ==> s[i] != s[j]
}

fn drop_label(recent: &mut Vec<String>, label: &str)
    ensures
        string_views(final(recent)@) == without(string_views(old(recent)@), label@),
{
    let ghost start = string_views(recent@);
    let mut kept: Vec<String> = Vec::new();
    let mut input: Vec<String> = Vec::new();
    std::mem::swap(&mut input, recent);
    let mut k: usize = 0;
    let total = input.len();
    assert(start.subrange(0, 0).filter(other_than(label@)) =~= string_views(kept@));
    while input.len() > 0
        invariant
            start.len() == total,
            k + input@.len() == start.len(),
            string_views(input@) == start.subrange(k as int, start.len() as int),
            string_views(kept@) == start.subrange(0, k as int).filter(other_than(label@)),
        decreases input@.len(),
    {
        let ghost before = input@;
        let entry = input.remove(0);
        proof {
            let pre = start.subrange(0, k + 1);
            assert(pre.drop_last() =~= start.subrange(0, k as int));
            assert(string_views(before)[0] == entry@);
            assert(pre.last() == entry@);
            assert(string_views(input@) =~= string_views(before).subrange(1, before.len() as int));
            assert(string_views(input@) =~= start.subrange(k + 1, start.len() as int));
            reveal_with_fuel(Seq::filter, 1);
        }
        if !str_eq(entry.as_str(), label) {
            let ghost kv = string_views(kept@);
            kept.push(entry);
            assert(string_views(kept@) =~= kv.push(start[k as int]));
        }
        k = k + 1;
    }
    assert(start.subrange(0, k as int) =~= start);
    *recent = kept;
}

impl EditorConfig {
    /// Records that the map `label` was opened.
    pub fn push_recent_map(&mut self, label: &str)
        ensures
            string_views(final(self).recent_maps@) == remembered(string_views(old(self).recent_maps@), label@),
            final(self).language == old(self).language,
    {
        drop_label(&mut self.recent_maps, label);
        let ghost kept = string_views(self.recent_maps@);
        self.recent_maps.insert(0, label.to_owned());
        assert(string_views(self.recent_maps@) =~= seq![label@] + kept);
        let ghost all = string_views(self.recent_maps@);
        self.recent_maps.truncate(RECENT_MAP_LIMIT);
        assert(string_views(self.recent_maps@) =~= (if all.len() > RECENT_MAP_LIMIT {
            all.subrange(0, RECENT_MAP_LIMIT as int)
        } else {
            all
        }));
    }

    /// Removes the map `label` from the recent list (its file was deleted).
    pub fn forget_recent_map(&mut self, label: &str)
        ensures
            string_views(final(self).recent_maps@) == without(string_views(old(self).recent_maps@), label@),
            final(self).language == old(self).language,
    {
        drop_label(&mut self.recent_maps, label);
    }
}

/// Opening a map puts it first in the recent list, exactly once, keeps the list within its
/// limit, and keeps a list without repeats free of repeats.
pub proof fn lemma_recent_map_first_and_unique(recent: Seq<Seq<char>>, label: Seq<char>)
    ensures
        remembered(recent, label).len() >= 1,
        remembered(recent, label)[0] == label,
        remembered(recent, label).len() <= RECENT_MAP_LIMIT,
        forall|i: int| 1 <= i < remembered(recent, label).len() ==> #[trigger] remembered(recent, label)[i] != label,
        no_repeats(recent) ==> no_repeats(remembered(recent, label)),
{
    let w = without(recent, label);
    let all = seq![label] + w;
    let r = remembered(recent, label);
    assert forall|i: int| 0 <= i < w.len() implies #[trigger] w[i] != label by {
        recent.lemma_filter_pred(other_than(label), i);
    }
    assert forall|i: int| 0 <= i < r.len() implies #[trigger] r[i] == all[i] by {}
    assert forall|i: int| 1 <= i < r.len() implies #[trigger] r[i] != label by {
        assert(r[i] == all[i] && all[i] == w[i - 1]);
    }
    if no_repeats(recent) {
        lemma_filter_keeps_no_repeats(recent, label);
        assert forall|i: int, j: int| 0 <= i < j < r.len() implies r[i] != r[j] by {
            assert(r[i] == all[i] && r[j] == all[j]);
            if i > 0 {
                assert(all[i] == w[i - 1] && all[j] == w[j - 1]);
            } else {
                assert(all[j] == w[j - 1]);
            }
        }
    }
}

proof fn lemma_filter_keeps_no_repeats(recent: Seq<Seq<char>>, label: Seq<char>)
    requires
        no_repeats(recent),
    ensures
        no_repeats(without(recent, label)),
    decreases recent.len(),
{
    if recent.len() > 0 {
        let init = recent.drop_last();
        assert(no_repeats(init)) by {
            assert forall|i: int, j: int| 0 <= i < j < init.len() implies init[i] != init[j] by {
                assert(init[i] == recent[i] && init[j] == recent[j]);
            }
        }
        lemma_filter_keeps_no_repeats(init, label);
        assert(recent =~= init.push(recent.last()));
        reveal_with_fuel(Seq::filter, 1);
        let w0 = without(init, label);
        let w = without(recent, label);
        if recent.last() != label {
            assert(w == w0.push(recent.last()));
            assert forall|i: int| 0 <= i < w0.len() implies #[trigger] w0[i] != recent.last() by {
                init.lemma_filter_pred(other_than(label), i);
                let x = w0[i];
                assert(init.filter(other_than(label)).contains(x));
                init.lemma_filter_contains_rev(other_than(label), x);
                let k = choose|k: int| 0 <= k < init.len() && init[k] == x;
                assert(recent[k] == init[k]);
            }
            assert forall|i: int, j: int| 0 <= i < j < w.len() implies w[i] != w[j] by {
                if j == w.len() - 1 {
                    assert(w[j] == recent.last());
                    assert(w[i] == w0[i]);
                }
            }
        } else {
            assert(w == w0);
        }
    }
}

} // verus!
