use vstd::prelude::*;

use crate::text::str_eq;

verus! {

/// The slot recorded last for `key`, as a map built by inserting the entries in order gives it.
pub open spec fn lookup_last(entries: Seq<(Seq<char>, usize)>, key: Seq<char>) -> Option<usize>
    decreases entries.len(),
{
    if entries.len() == 0 {
        None
    } else if entries.last().0 == key {
        Some(entries.last().1)
    } else {
        lookup_last(entries.drop_last(), key)
    }
}

/// The index a map from id to position holds after inserting every `(ids[i], i)` in order.
pub open spec fn positions(ids: Seq<Seq<char>>) -> Seq<(Seq<char>, usize)> {
    Seq::new(ids.len(), |i: int| (ids[i], i as usize))
}

/// An index from string ids to slot numbers; a later insertion of a key shadows an earlier one.
pub struct IdIndex {
    entries: Vec<(String, usize)>,
}

impl View for IdIndex {
    type V = Seq<(Seq<char>, usize)>;

    closed spec fn view(&self) -> Seq<(Seq<char>, usize)> {
        self.entries@.map_values(|e: (String, usize)| (e.0@, e.1))
    }
}

impl IdIndex {
    pub fn new() -> (r: Self)
        ensures
            r@ == Seq::<(Seq<char>, usize)>::empty(),
    {
        let r = IdIndex { entries: Vec::new() };
        assert(r@ =~= Seq::<(Seq<char>, usize)>::empty());
        r
    }

    pub fn insert(&mut self, key: String, slot: usize)
        ensures
            final(self)@ == old(self)@.push((key@, slot)),
    {
        self.entries.push((key, slot));
        assert(self@ =~= old(self)@.push((key@, slot)));
    }

    /// The slot of the last insertion of `key`.
    pub fn lookup(&self, key: &str) -> (r: Option<usize>)
        ensures
            r == lookup_last(self@, key@),
    {
        let mut i: usize = self.entries.len();
        assert(self@.subrange(0, i as int) =~= self@);
        while i > 0
            invariant
                self@.len() == self.entries@.len(),
                i <= self.entries@.len(),
                lookup_last(self@, key@) == lookup_last(self@.subrange(0, i as int), key@),
            decreases i,
        {
            let ghost pre = self@.subrange(0, i as int);
            assert(pre.drop_last() =~= self@.subrange(0, i - 1));
            if str_eq(self.entries[i - 1].0.as_str(), key) {
                return Some(self.entries[i - 1].1);
            }
            i = i - 1;
        }
        None
    }
}

/// In an index of positions, the slot found for `key` is the last position holding `key`.
pub proof fn lemma_positions_lookup(ids: Seq<Seq<char>>, key: Seq<char>)
    requires
        ids.len() <= usize::MAX,
    ensures
        lookup_last(positions(ids), key) matches Some(i) ==> i < ids.len() && ids[i as int] == key
            && forall|j: int| i < j < ids.len() ==> ids[j] != key,
        lookup_last(positions(ids), key) is None <==> forall|j: int| 0 <= j < ids.len() ==> ids[j] != key,
    decreases ids.len(),
{
    if ids.len() > 0 {
        let last = (ids.len() - 1) as int;
        let p = positions(ids);
        assert(p.drop_last() =~= positions(ids.drop_last()));
        assert(p.last() == (ids[last], last as usize));
        lemma_positions_lookup(ids.drop_last(), key);
        if ids[last] != key {
            assert(lookup_last(p, key) == lookup_last(positions(ids.drop_last()), key));
            assert forall|j: int| 0 <= j < last implies ids.drop_last()[j] == ids[j] by {}
        }
    }
}

} // verus!
