use vstd::prelude::*;

use crate::index::{lookup_last, positions, IdIndex};
use crate::text::{blank, is_blank, trim, trimmed};

verus! {

pub const DEFAULT_OBJECTIVE_DB_PATH: &'static str = "crates/content/data/objectives.ron";

/// Objective text in English and Chinese.
#[derive(Clone, Debug, PartialEq, Eq, Default)]
pub struct ObjectiveText {
    pub english: String,
    pub chinese: String,
}

/// One step of an objective.
#[derive(Clone, Debug, PartialEq, Eq, Default)]
pub struct ObjectiveCheckpoint {
    pub id: String,
    pub title: ObjectiveText,
    pub detail: ObjectiveText,
}

/// An objective and its checkpoints.
#[derive(Clone, Debug, PartialEq, Eq, Default)]
pub struct ObjectiveDefinition {
    pub id: String,
    pub title: ObjectiveText,
    pub summary: ObjectiveText,
    pub initial_status: String,
    pub checkpoints: Vec<ObjectiveCheckpoint>,
}

/// `a` is `b` with its id replaced by the trimmed id.
pub open spec fn trimmed_copy(a: ObjectiveDefinition, b: ObjectiveDefinition) -> bool {
    &&& a.id@ == trimmed(b.id@)
    &&& a.title == b.title
    &&& a.summary == b.summary
    &&& a.initial_status == b.initial_status
    &&& a.checkpoints == b.checkpoints
}

/// `kept` is `defs` without the definitions whose id is blank, with every id trimmed.
pub open spec fn normalized(kept: Seq<ObjectiveDefinition>, defs: Seq<ObjectiveDefinition>) -> bool
    decreases defs.len(),
{
    if defs.len() == 0 {
        kept.len() == 0
    } else if blank(defs.last().id@) {
        normalized(kept, defs.drop_last())
    } else {
        kept.len() > 0 && trimmed_copy(kept.last(), defs.last()) && normalized(kept.drop_last(), defs.drop_last())
    }
}

pub open spec fn objective_ids(defs: Seq<ObjectiveDefinition>) -> Seq<Seq<char>> {
    defs.map_values(|d: ObjectiveDefinition| d.id@)
}

/// An objectives source file: the list of objectives it holds.
#[derive(Clone, Debug, PartialEq, Eq, Default)]
pub struct ObjectiveDocument {
    pub objectives: Vec<ObjectiveDefinition>,
}

/// The objective table, indexed by trimmed id.
pub struct ObjectiveDatabase {
    objectives: Vec<ObjectiveDefinition>,
    by_id: IdIndex,
}

impl ObjectiveDatabase {
    pub closed spec fn defs(&self) -> Seq<ObjectiveDefinition> {
        self.objectives@
    }

    pub closed spec fn id_index(&self) -> Seq<(Seq<char>, usize)> {
        self.by_id@
    }

    /// Position of the objective `get` answers for `id`.
    pub open spec fn get_index(&self, id: Seq<char>) -> Option<int> {
        match lookup_last(self.id_index(), trimmed(id)) {
            Some(i) => if i < self.defs().len() {
                Some(i as int)
            } else {
                None
            },
            None => None,
        }
    }

    /// Keeps the definitions with a non-blank id, trims their ids and indexes them.
    pub fn from_definitions(objectives: Vec<ObjectiveDefinition>) -> (r: Self)
        ensures
            normalized(r.defs(), objectives@),
            r.id_index() == positions(objective_ids(r.defs())),
    {
        let ghost orig = objectives@;
        let total = objectives.len();
        let mut input = objectives;
        let mut kept: Vec<ObjectiveDefinition> = Vec::new();
        let mut k: usize = 0;
        assert(orig.subrange(0, orig.len() as int) =~= orig);
        while input.len() > 0
            invariant
                orig.len() == total,
                k + input@.len() == orig.len(),
                input@ == orig.subrange(k as int, orig.len() as int),
                normalized(kept@, orig.subrange(0, k as int)),
            decreases input@.len(),
        {
            let mut d = input.remove(0);
            proof {
                assert(orig.subrange(0, k + 1).drop_last() =~= orig.subrange(0, k as int));
                assert(orig.subrange(0, k + 1).last() == d);
                assert(input@ =~= orig.subrange(k + 1, orig.len() as int));
            }
            if !is_blank(d.id.as_str()) {
                let id = trim(d.id.as_str()).to_owned();
                d.id = id;
                let ghost before = kept@;
                kept.push(d);
                assert(kept@.drop_last() =~= before);
            }
            k = k + 1;
        }
        assert(orig.subrange(0, k as int) =~= orig);
        let mut by_id = IdIndex::new();
        let mut i: usize = 0;
        while i < kept.len()
            invariant
                i <= kept@.len(),
                by_id@ == positions(objective_ids(kept@).subrange(0, i as int)),
            decreases kept@.len() - i,
        {
            by_id.insert(kept[i].id.clone(), i);
            assert(by_id@ =~= positions(objective_ids(kept@).subrange(0, i + 1)));
            i = i + 1;
        }
        assert(objective_ids(kept@).subrange(0, i as int) =~= objective_ids(kept@));
        ObjectiveDatabase { objectives: kept, by_id }
    }

    /// The objective whose (trimmed) id is `id`, looked up through the index.
    pub fn get(&self, id: &str) -> (r: Option<&ObjectiveDefinition>)
        ensures
            r is Some <==> self.get_index(id@) is Some,
            r matches Some(d) ==> *d == self.defs()[self.get_index(id@)->0],
    {
        match self.by_id.lookup(trim(id)) {
            Some(i) => {
                if i < self.objectives.len() {
                    Some(&self.objectives[i])
                } else {
                    None
                }
            },
            None => None,
        }
    }

    /// The table a parsed source file gives.
    pub fn from_document(document: ObjectiveDocument) -> (r: Self)
        ensures
            normalized(r.defs(), document.objectives@),
            r.id_index() == positions(objective_ids(r.defs())),
    {
        ObjectiveDatabase::from_definitions(document.objectives)
    }

    pub fn objectives(&self) -> (r: &[ObjectiveDefinition])
        ensures
            r@ == self.defs(),
    {
        self.objectives.as_slice()
    }
}

/// After `from_definitions`, every stored id is trimmed and non-blank.
pub proof fn lemma_normalized_ids(kept: Seq<ObjectiveDefinition>, defs: Seq<ObjectiveDefinition>)
    requires
        normalized(kept, defs),
    ensures
        kept.len() <= defs.len(),
        forall|i: int| 0 <= i < kept.len() ==> !blank((#[trigger] kept[i]).id@),
    decreases defs.len(),
{
    if defs.len() > 0 {
        if blank(defs.last().id@) {
            lemma_normalized_ids(kept, defs.drop_last());
        } else {
            lemma_normalized_ids(kept.drop_last(), defs.drop_last());
            crate::text::lemma_trimmed_not_blank(defs.last().id@);
            assert forall|i: int| 0 <= i < kept.len() implies !blank((#[trigger] kept[i]).id@) by {
                if i < kept.len() - 1 {
                    assert(kept[i] == kept.drop_last()[i]);
                }
            }
        }
    }
}

/// Lookup law: in a table built by `from_definitions`, `get` finds an objective exactly
/// when some stored objective's id is the trimmed key, and it finds the last such one.
pub proof fn lemma_indexed_get(db: &ObjectiveDatabase, key: Seq<char>)
    requires
        db.id_index() == positions(objective_ids(db.defs())),
        db.defs().len() <= usize::MAX,
    ensures
        db.get_index(key) is Some <==> exists|j: int| 0 <= j < db.defs().len() && #[trigger] db.defs()[j].id@ == trimmed(key),
        db.get_index(key) matches Some(i) ==> db.defs()[i].id@ == trimmed(key) && forall|j: int| i < j < db.defs().len()
            ==> #[trigger] db.defs()[j].id@ != trimmed(key),
{
    let ids = objective_ids(db.defs());
    crate::index::lemma_positions_lookup(ids, trimmed(key));
    assert forall|j: int| 0 <= j < db.defs().len() implies ids[j] == #[trigger] db.defs()[j].id@ by {}
}

} // verus!
