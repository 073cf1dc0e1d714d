use vstd::prelude::*;

use crate::text::{blank, cat2, cat3, dec, decimal, is_blank, str_eq, trim, trimmed};

verus! {

/// Whether some id of `ids`, trimmed, is `s`.
pub open spec fn id_taken(ids: Seq<Seq<char>>, s: Seq<char>) -> bool {
    exists|i: int| 0 <= i < ids.len() && #[trigger] trimmed(ids[i]) == s
}

/// The first of `base.k`, `base.k+1`, ..., `base.999` that no id takes, else `base.copy`.
pub open spec fn free_suffix_from(ids: Seq<Seq<char>>, base: Seq<char>, k: int) -> Seq<char>
    decreases 1000 - k,
{
    if k >= 1000 {
        base + ".copy"@
    } else if !id_taken(ids, base + "."@ + dec(k as nat)) {
        base + "."@ + dec(k as nat)
    } else {
        free_suffix_from(ids, base, k + 1)
    }
}

/// The base an id is made from: `base_id` trimmed, or `fallback` when it is blank.
pub open spec fn id_base(base_id: Seq<char>, fallback: Seq<char>) -> Seq<char> {
    if blank(base_id) {
        fallback
    } else {
        trimmed(base_id)
    }
}

/// A fresh id made from `base_id`: the base itself when no id takes it, else the base
/// with the first free suffix `.2` to `.999`, else the base with `.copy`.
pub open spec fn fresh_id(ids: Seq<Seq<char>>, base_id: Seq<char>, fallback: Seq<char>) -> Seq<char> {
    let base = id_base(base_id, fallback);
    if !id_taken(ids, base) {
        base
    } else {
        free_suffix_from(ids, base, 2)
    }
}

fn is_taken(ids: &Vec<String>, s: &str) -> (r: bool)
    ensures
        r == id_taken(ids@.map_values(|x: String| x@), s@),
{
    let ghost views = ids@.map_values(|x: String| x@);
    let mut i: usize = 0;
    while i < ids.len()
        invariant
            views == ids@.map_values(|x: String| x@),
            i <= ids@.len(),
            forall|j: int| 0 <= j < i ==> #[trigger] trimmed(views[j]) != s@,
        decreases ids@.len() - i,
    {
        if str_eq(trim(ids[i].as_str()), s) {
            assert(trimmed(views[i as int]) == s@);
            return true;
        }
        i = i + 1;
    }
    false
}

/// An id made from `base_id` that no id of `ids` (trimmed) takes, where one of the
/// candidates is free.
pub fn unique_id(ids: &Vec<String>, base_id: &str, fallback: &str) -> (r: String)
    ensures
        r@ == fresh_id(ids@.map_values(|x: String| x@), base_id@, fallback@),
{
    let ghost views = ids@.map_values(|x: String| x@);
    let base: &str = if is_blank(base_id) { fallback } else { trim(base_id) };
    if !is_taken(ids, base) {
        return base.to_owned();
    }
    let mut k: u64 = 2;
    while k < 1000
        invariant
            views == ids@.map_values(|x: String| x@),
            id_base(base_id@, fallback@) == base@,
            id_taken(views, base@),
            2 <= k <= 1000,
            free_suffix_from(views, base@, 2) == free_suffix_from(views, base@, k as int),
        decreases 1000 - k,
    {
        let digits = decimal(k);
        let candidate = cat3(base, ".", digits.as_str());
        if !is_taken(ids, candidate.as_str()) {
            return candidate;
        }
        k = k + 1;
    }
    cat2(base, ".copy")
}

/// A made id is free unless the base and all its numbered variants are taken and it
/// fell back to `.copy`.
pub proof fn lemma_fresh_id_is_free(ids: Seq<Seq<char>>, base_id: Seq<char>, fallback: Seq<char>)
    ensures
        !id_taken(ids, fresh_id(ids, base_id, fallback)) || fresh_id(ids, base_id, fallback) == id_base(base_id, fallback)
            + ".copy"@,
{
    let base = id_base(base_id, fallback);
    if id_taken(ids, base) {
        lemma_free_suffix(ids, base, 2);
    }
}

proof fn lemma_free_suffix(ids: Seq<Seq<char>>, base: Seq<char>, k: int)
    ensures
        !id_taken(ids, free_suffix_from(ids, base, k)) || free_suffix_from(ids, base, k) == base + ".copy"@,
    decreases 1000 - k,
{
    if k < 1000 && id_taken(ids, base + "."@ + dec(k as nat)) {
        lemma_free_suffix(ids, base, k + 1);
    }
}

} // verus!
