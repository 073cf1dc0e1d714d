use vstd::prelude::*;

use crate::index::{lookup_last, positions, IdIndex};
use crate::text::{blank, is_blank, trim, trimmed};

verus! {

pub const DEFAULT_CUTSCENE_DB_PATH: &'static str = "crates/content/data/cutscenes.ron";

/// Cutscene text in English and Chinese.
#[derive(Clone, Debug, PartialEq, Eq, Default)]
pub struct CutsceneText {
    pub english: String,
    pub chinese: String,
}

impl CutsceneText {
    pub fn new(english: &str, chinese: &str) -> (r: Self)
        ensures
            r.english@ == english@,
            r.chinese@ == chinese@,
    {
        CutsceneText { english: english.to_owned(), chinese: chinese.to_owned() }
    }
}

/// One step of a cutscene. Durations are carried as the IEEE-754 bit pattern of an `f32`
/// (seconds); the library never does arithmetic on them.
#[derive(Clone, Debug, PartialEq, Eq)]
pub enum CutsceneStep {
    FadeIn { duration_bits: u32 },
    FadeOut { duration_bits: u32 },
    Wait { duration_bits: u32 },
    TextPanel { speaker: Option<CutsceneText>, body: CutsceneText, min_duration_bits: u32, require_confirm: bool },
    SetFlag { flag: String },
}

/// What happens when a cutscene ends.
#[derive(Clone, Debug, PartialEq, Eq)]
pub enum CutsceneCompletion {
    Pop,
    SwitchScene { scene: String },
}

/// A cutscene: its steps and how it ends.
#[derive(Clone, Debug, PartialEq, Eq)]
pub struct CutsceneDefinition {
    pub id: String,
    pub blocking: bool,
    pub play_once: bool,
    pub steps: Vec<CutsceneStep>,
    pub completion: CutsceneCompletion,
}

/// `require_confirm` when the source leaves it out.
pub fn default_require_confirm() -> (r: bool)
    ensures
        r,
{
    true
}

impl Default for CutsceneDefinition {
    /// The definition a field left out of a source takes: empty id, blocking, played once,
    /// no steps, popped when done.
    fn default() -> (r: Self)
        ensures
            r.id@ == Seq::<char>::empty(),
            r.blocking,
            r.play_once,
            r.steps@.len() == 0,
            r.completion == CutsceneCompletion::Pop,
    {
        CutsceneDefinition {
            id: String::new(),
            blocking: true,
            play_once: true,
            steps: Vec::new(),
            completion: CutsceneCompletion::Pop,
        }
    }
}

/// `a` is `b` with its id replaced by the trimmed id.
pub open spec fn trimmed_copy(a: CutsceneDefinition, b: CutsceneDefinition) -> bool {
    &&& a.id@ == trimmed(b.id@)
    &&& a.blocking == b.blocking
    &&& a.play_once == b.play_once
    &&& a.steps == b.steps
    &&& a.completion == b.completion
}

/// `kept` is `defs` without the definitions whose id is blank, with every id trimmed.
pub open spec fn normalized(kept: Seq<CutsceneDefinition>, defs: Seq<CutsceneDefinition>) -> bool
    decreases defs.len(),
{
    if defs.len() == 0 {
        kept.len() == 0
    } else if blank(defs.last().id@) {
        normalized(kept, defs.drop_last())
    } else {
        kept.len() > 0 && trimmed_copy(kept.last(), defs.last()) && normalized(kept.drop_last(), defs.drop_last())
    }
}

/// The ids a cutscene index is keyed by: trimmed ids, with `None` for blank ones.
pub open spec fn trimmed_ids(defs: Seq<CutsceneDefinition>) -> Seq<Seq<char>> {
    defs.map_values(|d: CutsceneDefinition| trimmed(d.id@))
}

/// Index entries `(trimmed id, position)` for the definitions with a non-blank id, in order.
pub open spec fn nonblank_positions(defs: Seq<CutsceneDefinition>) -> Seq<(Seq<char>, usize)>
    decreases defs.len(),
{
    if defs.len() == 0 {
        Seq::empty()
    } else if blank(defs.last().id@) {
        nonblank_positions(defs.drop_last())
    } else {
        nonblank_positions(defs.drop_last()).push((trimmed(defs.last().id@), (defs.len() - 1) as usize))
    }
}

/// The cutscene table, indexed by trimmed id.
pub struct CutsceneDatabase {
    cutscenes: Vec<CutsceneDefinition>,
    by_id: IdIndex,
}

impl CutsceneDatabase {
    pub closed spec fn defs(&self) -> Seq<CutsceneDefinition> {
        self.cutscenes@
    }

    pub closed spec fn id_index(&self) -> Seq<(Seq<char>, usize)> {
        self.by_id@
    }

    /// The index reflects the current list.
    pub open spec fn index_fresh(&self) -> bool {
        self.id_index() == nonblank_positions(self.defs())
    }

    /// Position of the cutscene `get` answers for `id`.
    pub open spec fn get_index(&self, id: Seq<char>) -> Option<int> {
        match lookup_last(self.id_index(), trimmed(id)) {
            Some(i) => if i < self.defs().len() {
                Some(i as int)
            } else {
                None
            },
            None => None,
        }
    }

    /// Keeps the definitions with a non-blank id, trims their ids and indexes them.
    pub fn from_definitions(cutscenes: Vec<CutsceneDefinition>) -> (r: Self)
        ensures
            normalized(r.defs(), cutscenes@),
            r.index_fresh(),
    {
        let ghost orig = cutscenes@;
        let total = cutscenes.len();
        let mut input = cutscenes;
        let mut kept: Vec<CutsceneDefinition> = Vec::new();
        let mut k: usize = 0;
        assert(orig.subrange(0, orig.len() as int) =~= orig);
        while input.len() > 0
            invariant
                orig.len() == total,
                k + input@.len() == orig.len(),
                input@ == orig.subrange(k as int, orig.len() as int),
                normalized(kept@, orig.subrange(0, k as int)),
            decreases input@.len(),
        {
            let mut d = input.remove(0);
            proof {
                assert(orig.subrange(0, k + 1).drop_last() =~= orig.subrange(0, k as int));
                assert(orig.subrange(0, k + 1).last() == d);
                assert(input@ =~= orig.subrange(k + 1, orig.len() as int));
            }
            if !is_blank(d.id.as_str()) {
                let id = trim(d.id.as_str()).to_owned();
                d.id = id;
                let ghost before = kept@;
                kept.push(d);
                assert(kept@.drop_last() =~= before);
            }
            k = k + 1;
        }
        assert(orig.subrange(0, k as int) =~= orig);
        let mut database = CutsceneDatabase { cutscenes: kept, by_id: IdIndex::new() };
        database.reindex();
        database
    }

    /// Rebuilds the index from the current list: every non-blank id, trimmed, to its position.
    pub fn reindex(&mut self)
        ensures
            final(self).defs() == old(self).defs(),
            final(self).index_fresh(),
    {
        let mut index = IdIndex::new();
        let mut i: usize = 0;
        while i < self.cutscenes.len()
            invariant
                i <= self.cutscenes@.len(),
                index@ == nonblank_positions(self.cutscenes@.subrange(0, i as int)),
            decreases self.cutscenes@.len() - i,
        {
            let ghost pre = self.cutscenes@.subrange(0, i + 1);
            assert(pre.drop_last() =~= self.cutscenes@.subrange(0, i as int));
            if !is_blank(self.cutscenes[i].id.as_str()) {
                index.insert(trim(self.cutscenes[i].id.as_str()).to_owned(), i);
            }
            i = i + 1;
        }
        assert(self.cutscenes@.subrange(0, i as int) =~= self.cutscenes@);
        self.by_id = index;
    }

    /// The cutscene whose trimmed id is the trimmed `id`, looked up through the index.
    pub fn get(&self, id: &str) -> (r: Option<&CutsceneDefinition>)
        ensures
            r is Some <==> self.get_index(id@) is Some,
            r matches Some(d) ==> *d == self.defs()[self.get_index(id@)->0],
    {
        match self.by_id.lookup(trim(id)) {
            Some(i) => {
                if i < self.cutscenes.len() {
                    Some(&self.cutscenes[i])
                } else {
                    None
                }
            },
            None => None,
        }
    }

    pub fn cutscenes(&self) -> (r: &[CutsceneDefinition])
        ensures
            r@ == self.defs(),
    {
        self.cutscenes.as_slice()
    }

    /// The list, for editing in place; the index is left as it is until `reindex`.
    pub fn cutscenes_mut(&mut self) -> (r: &mut Vec<CutsceneDefinition>)
        ensures
            r@ == old(self).defs(),
            final(self).defs() == final(r)@,
            final(self).id_index() == old(self).id_index(),
    {
        &mut self.cutscenes
    }
}

proof fn lemma_nonblank_positions_lookup(defs: Seq<CutsceneDefinition>, key: Seq<char>)
    requires
        defs.len() <= usize::MAX,
    ensures
        lookup_last(nonblank_positions(defs), key) matches Some(i) ==> i < defs.len() && !blank(defs[i as int].id@)
            && trimmed(defs[i as int].id@) == key,
        lookup_last(nonblank_positions(defs), key) is None ==> forall|j: int|
            0 <= j < defs.len() && !blank(#[trigger] defs[j].id@) ==> trimmed(defs[j].id@) != key,
    decreases defs.len(),
{
    if defs.len() > 0 {
        let last = defs.len() - 1;
        lemma_nonblank_positions_lookup(defs.drop_last(), key);
        assert forall|j: int| 0 <= j < last implies defs.drop_last()[j] == defs[j] by {}
        if !blank(defs.last().id@) {
            let p = nonblank_positions(defs.drop_last());
            let x = (trimmed(defs.last().id@), last as usize);
            assert(p.push(x).drop_last() =~= p);
            assert(p.push(x).last() == x);
        }
    }
}

/// Lookup law: with a fresh index, `get` finds a cutscene exactly when some cutscene has a
/// non-blank id that trims to the trimmed key, and what it finds has that id.
pub proof fn lemma_fresh_get(db: &CutsceneDatabase, key: Seq<char>)
    requires
        db.index_fresh(),
        db.defs().len() <= usize::MAX,
    ensures
        db.get_index(key) is Some <==> exists|j: int|
            0 <= j < db.defs().len() && !blank(#[trigger] db.defs()[j].id@) && trimmed(db.defs()[j].id@) == trimmed(key),
        db.get_index(key) matches Some(i) ==> trimmed(db.defs()[i].id@) == trimmed(key),
{
    lemma_nonblank_positions_lookup(db.defs(), trimmed(key));
}

} // verus!
