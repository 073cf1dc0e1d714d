use vstd::prelude::*;

use crate::index::{lookup_last, positions, IdIndex};
use crate::map::LayerKind;
use crate::text::str_eq;

verus! {

pub const DEFAULT_ASSET_DB_PATH: &'static str = "assets/data/assets/overworld_assets.ron";

/// What an asset is placed as.
#[derive(Clone, Copy, Debug, PartialEq, Eq, Structural)]
pub enum AssetKind {
    Tile,
    Decal,
    Object,
    Entity,
    Zone,
}

pub open spec fn asset_kind_zh_label(k: AssetKind) -> &'static str {
    match k {
        AssetKind::Tile => "地块",
        AssetKind::Decal => "贴花",
        AssetKind::Object => "物件",
        AssetKind::Entity => "实体",
        AssetKind::Zone => "区域",
    }
}

/// Every asset kind (`AssetKind::ALL`).
pub fn all_asset_kinds() -> (r: [AssetKind; 5])
    ensures
        r@ == seq![AssetKind::Tile, AssetKind::Decal, AssetKind::Object, AssetKind::Entity, AssetKind::Zone],
{
    let r = [AssetKind::Tile, AssetKind::Decal, AssetKind::Object, AssetKind::Entity, AssetKind::Zone];
    assert(r@ =~= seq![AssetKind::Tile, AssetKind::Decal, AssetKind::Object, AssetKind::Entity, AssetKind::Zone]);
    r
}

impl AssetKind {
    pub fn zh_label(self) -> (r: &'static str)
        ensures
            r == asset_kind_zh_label(self),
    {
        match self {
            AssetKind::Tile => "地块",
            AssetKind::Decal => "贴花",
            AssetKind::Object => "物件",
            AssetKind::Entity => "实体",
            AssetKind::Zone => "区域",
        }
    }
}

/// Which point of the sprite sits on the placement position.
#[derive(Clone, Copy, Debug, PartialEq, Eq)]
pub enum AnchorKind {
    TopLeft,
    Center,
    BottomCenter,
}

/// How placement positions snap.
#[derive(Clone, Copy, Debug, PartialEq, Eq)]
pub enum SnapMode {
    Grid,
    HalfGrid,
    Free,
}

/// One placeable asset. The default size in pixels is carried as the IEEE-754 bit patterns of
/// two `f32` values; the library does no arithmetic on it.
#[derive(Clone, Debug, PartialEq, Eq)]
pub struct AssetDefinition {
    pub id: String,
    pub category: String,
    pub path: String,
    pub kind: AssetKind,
    pub default_layer: LayerKind,
    pub default_size_bits: [u32; 2],
    pub footprint: Option<[i32; 2]>,
    pub anchor: AnchorKind,
    pub snap: SnapMode,
    pub tags: Vec<String>,
    pub entity_type: Option<String>,
    pub codex_id: Option<String>,
}

pub open spec fn asset_ids(assets: Seq<AssetDefinition>) -> Seq<Seq<char>> {
    assets.map_values(|a: AssetDefinition| a.id@)
}

/// Position of the first asset whose id is `key`.
pub open spec fn first_asset_index(assets: Seq<AssetDefinition>, key: Seq<char>) -> Option<int>
    decreases assets.len(),
{
    if assets.len() == 0 {
        None
    } else if assets[0].id@ == key {
        Some(0)
    } else {
        match first_asset_index(assets.drop_first(), key) {
            Some(i) => Some(i + 1),
            None => None,
        }
    }
}

/// The asset catalogue of one game mode.
pub struct AssetDatabase {
    pub mode: String,
    pub assets: Vec<AssetDefinition>,
    pub by_id: IdIndex,
}

impl AssetDatabase {
    pub open spec fn index_fresh(&self) -> bool {
        self.by_id@ == positions(asset_ids(self.assets@))
    }

    /// Position of the asset `get` answers for `key`: the indexed slot when it is in range,
    /// else the first asset with that id.
    pub open spec fn get_index(&self, key: Seq<char>) -> Option<int> {
        match lookup_last(self.by_id@, key) {
            Some(i) => if i < self.assets@.len() {
                Some(i as int)
            } else {
                first_asset_index(self.assets@, key)
            },
            None => first_asset_index(self.assets@, key),
        }
    }

    /// An empty catalogue for `mode`.
    pub fn new(mode: &str) -> (r: Self)
        ensures
            r.mode@ == mode@,
            r.assets@.len() == 0,
            r.by_id@.len() == 0,
    {
        AssetDatabase { mode: mode.to_owned(), assets: Vec::new(), by_id: IdIndex::new() }
    }

    /// Rebuilds the id index from the current list.
    pub fn reindex(&mut self)
        ensures
            final(self).mode == old(self).mode,
            final(self).assets@ == old(self).assets@,
            final(self).index_fresh(),
    {
        let mut index = IdIndex::new();
        let mut i: usize = 0;
        while i < self.assets.len()
            invariant
                i <= self.assets@.len(),
                index@ == positions(asset_ids(self.assets@).subrange(0, i as int)),
            decreases self.assets@.len() - i,
        {
            index.insert(self.assets[i].id.clone(), i);
            assert(index@ =~= positions(asset_ids(self.assets@).subrange(0, i + 1)));
            i = i + 1;
        }
        assert(asset_ids(self.assets@).subrange(0, i as int) =~= asset_ids(self.assets@));
        self.by_id = index;
    }

    /// The asset with id `id` (through the index, falling back to a scan).
    pub fn get(&self, id: &str) -> (r: Option<&AssetDefinition>)
        ensures
            r is Some <==> self.get_index(id@) is Some,
            r matches Some(d) ==> *d == self.assets@[self.get_index(id@)->0],
    {
        match self.by_id.lookup(id) {
            Some(i) => {
                if i < self.assets.len() {
                    return Some(&self.assets[i]);
                }
            },
            None => {},
        }
        assert(self.get_index(id@) == first_asset_index(self.assets@, id@));
        assert(self.assets@.subrange(0, self.assets@.len() as int) =~= self.assets@);
        let mut j: usize = 0;
        while j < self.assets.len()
            invariant
                j <= self.assets@.len(),
                self.get_index(id@) == first_asset_index(self.assets@, id@),
                first_asset_index(self.assets@, id@) == match first_asset_index(
                    self.assets@.subrange(j as int, self.assets@.len() as int),
                    id@,
                ) {
                    Some(k) => Some(k + j),
                    None => None,
                },
            decreases self.assets@.len() - j,
        {
            proof {
                assert(self.assets@.subrange(j as int, self.assets@.len() as int).drop_first()
                    =~= self.assets@.subrange(j + 1, self.assets@.len() as int));
            }
            if str_eq(self.assets[j].id.as_str(), id) {
                return Some(&self.assets[j]);
            }
            j = j + 1;
        }
        None
    }

    pub fn assets(&self) -> (r: &[AssetDefinition])
        ensures
            r@ == self.assets@,
    {
        self.assets.as_slice()
    }

    /// The distinct categories, in order of first appearance.
    pub fn categories(&self) -> (r: Vec<&str>)
        ensures
            r@.map_values(|c: &str| c@) == distinct_categories(self.assets@),
    {
        let mut categories: Vec<&str> = Vec::new();
        let mut i: usize = 0;
        while i < self.assets.len()
            invariant
                i <= self.assets@.len(),
                categories@.map_values(|c: &str| c@) == distinct_categories(self.assets@.subrange(0, i as int)),
            decreases self.assets@.len() - i,
        {
            let ghost pre = self.assets@.subrange(0, i + 1);
            assert(pre.drop_last() =~= self.assets@.subrange(0, i as int));
            let category = self.assets[i].category.as_str();
            if !str_list_contains(&categories, category) {
                let ghost before = categories@.map_values(|c: &str| c@);
                categories.push(category);
                assert(categories@.map_values(|c: &str| c@) =~= before.push(category@));
            }
            i = i + 1;
        }
        assert(self.assets@.subrange(0, i as int) =~= self.assets@);
        categories
    }

    /// The assets of `category`, in catalogue order.
    pub fn in_category(&self, category: &str) -> (r: Vec<&AssetDefinition>)
        ensures
            r@.map_values(|a: &AssetDefinition| *a) == self.assets@.filter(|a: AssetDefinition| a.category@ == category@),
    {
        let mut out: Vec<&AssetDefinition> = Vec::new();
        let mut i: usize = 0;
        while i < self.assets.len()
            invariant
                i <= self.assets@.len(),
                out@.map_values(|a: &AssetDefinition| *a) == self.assets@.subrange(0, i as int).filter(
                    |a: AssetDefinition| a.category@ == category@,
                ),
            decreases self.assets@.len() - i,
        {
            let ghost pre = self.assets@.subrange(0, i + 1);
            assert(pre.drop_last() =~= self.assets@.subrange(0, i as int));
            proof {
                reveal_with_fuel(Seq::filter, 1);
            }
            if str_eq(self.assets[i].category.as_str(), category) {
                let ghost before = out@.map_values(|a: &AssetDefinition| *a);
                out.push(&self.assets[i]);
                assert(out@.map_values(|a: &AssetDefinition| *a) =~= before.push(self.assets@[i as int]));
            }
            i = i + 1;
        }
        assert(self.assets@.subrange(0, i as int) =~= self.assets@);
        out
    }
}

/// The categories of `assets`, each once, in order of first appearance.
pub open spec fn distinct_categories(assets: Seq<AssetDefinition>) -> Seq<Seq<char>>
    decreases assets.len(),
{
    if assets.len() == 0 {
        Seq::empty()
    } else {
        let before = distinct_categories(assets.drop_last());
        if before.contains(assets.last().category@) {
            before
        } else {
            before.push(assets.last().category@)
        }
    }
}

fn str_list_contains(list: &Vec<&str>, s: &str) -> (r: bool)
    ensures
        r == list@.map_values(|x: &str| x@).contains(s@),
{
    let ghost views = list@.map_values(|x: &str| x@);
    let mut i: usize = 0;
    while i < list.len()
        invariant
            views == list@.map_values(|x: &str| x@),
            i <= list@.len(),
            forall|j: int| 0 <= j < i ==> views[j] != s@,
        decreases list@.len() - i,
    {
        if str_eq(list[i], s) {
            assert(views[i as int] == s@);
            return true;
        }
        i = i + 1;
    }
    false
}

} // verus!
