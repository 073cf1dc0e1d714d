use vstd::prelude::*;

use crate::index::{lookup_last, positions, IdIndex};
use crate::text::str_eq;

verus! {

pub const DEFAULT_CODEX_DB_PATH: &'static str = "assets/data/codex/overworld_codex.ron";

/// A codex entry. The scan time in seconds is carried as the IEEE-754 bit pattern of an `f32`.
#[derive(Clone, Debug, PartialEq, Eq)]
pub struct CodexEntry {
    pub id: String,
    pub category: String,
    pub title: String,
    pub description: String,
    pub scan_time_bits: Option<u32>,
    pub unlock_tags: Vec<String>,
    pub image: Option<String>,
}

pub open spec fn entry_ids(entries: Seq<CodexEntry>) -> Seq<Seq<char>> {
    entries.map_values(|e: CodexEntry| e.id@)
}

/// Position of the first entry whose id is `key`.
pub open spec fn first_entry_index(entries: Seq<CodexEntry>, key: Seq<char>) -> Option<int>
    decreases entries.len(),
{
    if entries.len() == 0 {
        None
    } else if entries[0].id@ == key {
        Some(0)
    } else {
        match first_entry_index(entries.drop_first(), key) {
            Some(i) => Some(i + 1),
            None => None,
        }
    }
}

/// The codex of one game mode.
pub struct CodexDatabase {
    pub mode: String,
    pub entries: Vec<CodexEntry>,
    pub by_id: IdIndex,
}

impl CodexDatabase {
    pub open spec fn index_fresh(&self) -> bool {
        self.by_id@ == positions(entry_ids(self.entries@))
    }

    /// Position of the entry `get` answers for `key`: the indexed slot when it is in range,
    /// else the first entry with that id.
    pub open spec fn get_index(&self, key: Seq<char>) -> Option<int> {
        match lookup_last(self.by_id@, key) {
            Some(i) => if i < self.entries@.len() {
                Some(i as int)
            } else {
                first_entry_index(self.entries@, key)
            },
            None => first_entry_index(self.entries@, key),
        }
    }

    /// An empty codex for `mode`.
    pub fn new(mode: &str) -> (r: Self)
        ensures
            r.mode@ == mode@,
            r.entries@.len() == 0,
            r.by_id@.len() == 0,
    {
        CodexDatabase { mode: mode.to_owned(), entries: Vec::new(), by_id: IdIndex::new() }
    }

    /// Rebuilds the id index from the current list.
    pub fn reindex(&mut self)
        ensures
            final(self).mode == old(self).mode,
            final(self).entries@ == old(self).entries@,
            final(self).index_fresh(),
    {
        let mut index = IdIndex::new();
        let mut i: usize = 0;
        while i < self.entries.len()
            invariant
                i <= self.entries@.len(),
                index@ == positions(entry_ids(self.entries@).subrange(0, i as int)),
            decreases self.entries@.len() - i,
        {
            index.insert(self.entries[i].id.clone(), i);
            assert(index@ =~= positions(entry_ids(self.entries@).subrange(0, i + 1)));
            i = i + 1;
        }
        assert(entry_ids(self.entries@).subrange(0, i as int) =~= entry_ids(self.entries@));
        self.by_id = index;
    }

    /// The entry with id `id` (through the index, falling back to a scan).
    pub fn get(&self, id: &str) -> (r: Option<&CodexEntry>)
        ensures
            r is Some <==> self.get_index(id@) is Some,
            r matches Some(d) ==> *d == self.entries@[self.get_index(id@)->0],
    {
        match self.by_id.lookup(id) {
            Some(i) => {
                if i < self.entries.len() {
                    return Some(&self.entries[i]);
                }
            },
            None => {},
        }
        assert(self.get_index(id@) == first_entry_index(self.entries@, id@));
        assert(self.entries@.subrange(0, self.entries@.len() as int) =~= self.entries@);
        let mut j: usize = 0;
        while j < self.entries.len()
            invariant
                j <= self.entries@.len(),
                self.get_index(id@) == first_entry_index(self.entries@, id@),
                first_entry_index(self.entries@, id@) == match first_entry_index(
                    self.entries@.subrange(j as int, self.entries@.len() as int),
                    id@,
                ) {
                    Some(k) => Some(k + j),
                    None => None,
                },
            decreases self.entries@.len() - j,
        {
            proof {
                assert(self.entries@.subrange(j as int, self.entries@.len() as int).drop_first()
                    =~= self.entries@.subrange(j + 1, self.entries@.len() as int));
            }
            if str_eq(self.entries[j].id.as_str(), id) {
                return Some(&self.entries[j]);
            }
            j = j + 1;
        }
        None
    }

    pub fn entries(&self) -> (r: &[CodexEntry])
        ensures
            r@ == self.entries@,
    {
        self.entries.as_slice()
    }

    /// The ids of the entries, in order.
    pub fn ids(&self) -> (r: Vec<&str>)
        ensures
            r@.map_values(|s: &str| s@) == entry_ids(self.entries@),
    {
        let mut out: Vec<&str> = Vec::new();
        let mut i: usize = 0;
        while i < self.entries.len()
            invariant
                i <= self.entries@.len(),
                out@.map_values(|s: &str| s@) == entry_ids(self.entries@).subrange(0, i as int),
            decreases self.entries@.len() - i,
        {
            let ghost before = out@.map_values(|s: &str| s@);
            let id = self.entries[i].id.as_str();
            out.push(id);
            assert(out@.map_values(|s: &str| s@) =~= before.push(id@));
            assert(entry_ids(self.entries@).subrange(0, i + 1) =~= entry_ids(self.entries@).subrange(0, i as int).push(id@));
            i = i + 1;
        }
        out
    }
}

} // verus!
