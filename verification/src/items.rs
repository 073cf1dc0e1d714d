use vstd::prelude::*;

use crate::index::{lookup_last, positions, IdIndex};
use crate::semantics::{
    ITEM_BIO_SAMPLE_VIAL, ITEM_DATA_SHARD, ITEM_ENERGY_CELL, ITEM_GLOW_FUNGUS_SAMPLE, ITEM_RUIN_KEY,
    METER_BIO, METER_DATA, METER_MINERAL, METER_RUIN,
};
use crate::text::{contains, contains_seq, starts, starts_with, str_eq};

verus! {

pub const DEFAULT_ITEM_DB_PATH: &'static str = "crates/content/data/items.ron";

/// Text in English and Chinese.
#[derive(Clone, Debug, PartialEq, Eq, Default)]
pub struct LocalizedTextDef {
    pub english: String,
    pub chinese: String,
}

impl LocalizedTextDef {
    pub fn new(english: &str, chinese: &str) -> (r: Self)
        ensures
            r.english@ == english@,
            r.chinese@ == chinese@,
    {
        LocalizedTextDef { english: english.to_owned(), chinese: chinese.to_owned() }
    }
}

/// Text in English and Chinese that lives in the program itself.
#[derive(Clone, Copy, Debug, PartialEq, Eq)]
pub struct StaticLocalizedTextDef {
    pub english: &'static str,
    pub chinese: &'static str,
}

impl StaticLocalizedTextDef {
    pub fn new(english: &'static str, chinese: &'static str) -> (r: Self)
        ensures
            r.english == english,
            r.chinese == chinese,
    {
        StaticLocalizedTextDef { english, chinese }
    }
}

/// Inventory tab of an item.
#[derive(Clone, Copy, Debug, PartialEq, Eq, Hash)]
pub enum ItemCategory {
    Samples,
    Components,
    Artifacts,
    Consumables,
    Tools,
    Data,
}

pub open spec fn category_key(c: ItemCategory) -> &'static str {
    match c {
        ItemCategory::Samples => "samples",
        ItemCategory::Components => "components",
        ItemCategory::Artifacts => "artifacts",
        ItemCategory::Consumables => "consumables",
        ItemCategory::Tools => "tools",
        ItemCategory::Data => "data",
    }
}

/// The first category (in declaration order) whose key is `v`.
pub open spec fn category_for_key(v: Seq<char>) -> Option<ItemCategory> {
    if v == "samples"@ {
        Some(ItemCategory::Samples)
    } else if v == "components"@ {
        Some(ItemCategory::Components)
    } else if v == "artifacts"@ {
        Some(ItemCategory::Artifacts)
    } else if v == "consumables"@ {
        Some(ItemCategory::Consumables)
    } else if v == "tools"@ {
        Some(ItemCategory::Tools)
    } else if v == "data"@ {
        Some(ItemCategory::Data)
    } else {
        None
    }
}

/// Every category, in declaration order (`ItemCategory::ALL`).
pub fn all_item_categories() -> (r: [ItemCategory; 6])
    ensures
        r@ == seq![ItemCategory::Samples, ItemCategory::Components, ItemCategory::Artifacts,
            ItemCategory::Consumables, ItemCategory::Tools, ItemCategory::Data],
{
    let r = [ItemCategory::Samples, ItemCategory::Components, ItemCategory::Artifacts,
        ItemCategory::Consumables, ItemCategory::Tools, ItemCategory::Data];
    assert(r@ =~= seq![ItemCategory::Samples, ItemCategory::Components, ItemCategory::Artifacts,
        ItemCategory::Consumables, ItemCategory::Tools, ItemCategory::Data]);
    r
}

impl ItemCategory {
    pub fn key(self) -> (r: &'static str)
        ensures
            r == category_key(self),
    {
        match self {
            ItemCategory::Samples => "samples",
            ItemCategory::Components => "components",
            ItemCategory::Artifacts => "artifacts",
            ItemCategory::Consumables => "consumables",
            ItemCategory::Tools => "tools",
            ItemCategory::Data => "data",
        }
    }

    /// The first category of `ALL` whose key is `value`.
    pub fn from_key(value: &str) -> (r: Option<Self>)
        ensures
            r == category_for_key(value@),
    {
        let all = all_item_categories();
        let mut i: usize = 0;
        while i < 6
            invariant
                all@ == seq![ItemCategory::Samples, ItemCategory::Components, ItemCategory::Artifacts,
                    ItemCategory::Consumables, ItemCategory::Tools, ItemCategory::Data],
                i <= 6,
                forall|j: int| 0 <= j < i ==> category_key(#[trigger] all@[j])@ != value@,
            decreases 6 - i,
        {
            if str_eq(all[i].key(), value) {
                return Some(all[i]);
            }
            i = i + 1;
        }
        assert(category_key(all@[0])@ != value@);
        assert(category_key(all@[1])@ != value@);
        assert(category_key(all@[2])@ != value@);
        assert(category_key(all@[3])@ != value@);
        assert(category_key(all@[4])@ != value@);
        assert(category_key(all@[5])@ != value@);
        None
    }

    pub fn label(self) -> (r: StaticLocalizedTextDef)
        ensures
            r == category_label(self),
    {
        match self {
            ItemCategory::Samples => StaticLocalizedTextDef::new("Samples", "样本"),
            ItemCategory::Components => StaticLocalizedTextDef::new("Components", "组件"),
            ItemCategory::Artifacts => StaticLocalizedTextDef::new("Artifacts", "遗物"),
            ItemCategory::Consumables => StaticLocalizedTextDef::new("Consumables", "消耗品"),
            ItemCategory::Tools => StaticLocalizedTextDef::new("Tools", "工具"),
            ItemCategory::Data => StaticLocalizedTextDef::new("Data", "数据"),
        }
    }

    pub fn icon_texture_id(self) -> (r: &'static str)
        ensures
            r == category_icon(self),
    {
        match self {
            ItemCategory::Samples => "ui_inventory_cat_samples",
            ItemCategory::Components => "ui_inventory_cat_components",
            ItemCategory::Artifacts => "ui_inventory_cat_artifacts",
            ItemCategory::Consumables => "ui_inventory_cat_consumables",
            ItemCategory::Tools => "ui_inventory_cat_tools",
            ItemCategory::Data => "ui_inventory_cat_data",
        }
    }
}

pub open spec fn category_label(c: ItemCategory) -> StaticLocalizedTextDef {
    match c {
        ItemCategory::Samples => StaticLocalizedTextDef { english: "Samples", chinese: "样本" },
        ItemCategory::Components => StaticLocalizedTextDef { english: "Components", chinese: "组件" },
        ItemCategory::Artifacts => StaticLocalizedTextDef { english: "Artifacts", chinese: "遗物" },
        ItemCategory::Consumables => StaticLocalizedTextDef { english: "Consumables", chinese: "消耗品" },
        ItemCategory::Tools => StaticLocalizedTextDef { english: "Tools", chinese: "工具" },
        ItemCategory::Data => StaticLocalizedTextDef { english: "Data", chinese: "数据" },
    }
}

pub open spec fn category_icon(c: ItemCategory) -> &'static str {
    match c {
        ItemCategory::Samples => "ui_inventory_cat_samples",
        ItemCategory::Components => "ui_inventory_cat_components",
        ItemCategory::Artifacts => "ui_inventory_cat_artifacts",
        ItemCategory::Consumables => "ui_inventory_cat_consumables",
        ItemCategory::Tools => "ui_inventory_cat_tools",
        ItemCategory::Data => "ui_inventory_cat_data",
    }
}

/// Rarity tier of an item.
#[derive(Clone, Copy, Debug, PartialEq, Eq)]
pub enum ItemRarity {
    Common,
    Uncommon,
    Rare,
    Artifact,
}

pub open spec fn rarity_label(r: ItemRarity) -> StaticLocalizedTextDef {
    match r {
        ItemRarity::Common => StaticLocalizedTextDef { english: "Common", chinese: "普通" },
        ItemRarity::Uncommon => StaticLocalizedTextDef { english: "Uncommon", chinese: "优秀" },
        ItemRarity::Rare => StaticLocalizedTextDef { english: "Rare", chinese: "稀有" },
        ItemRarity::Artifact => StaticLocalizedTextDef { english: "Artifact", chinese: "遗物" },
    }
}

impl ItemRarity {
    pub fn label(self) -> (r: StaticLocalizedTextDef)
        ensures
            r == rarity_label(self),
    {
        match self {
            ItemRarity::Common => StaticLocalizedTextDef::new("Common", "普通"),
            ItemRarity::Uncommon => StaticLocalizedTextDef::new("Uncommon", "优秀"),
            ItemRarity::Rare => StaticLocalizedTextDef::new("Rare", "稀有"),
            ItemRarity::Artifact => StaticLocalizedTextDef::new("Artifact", "遗物"),
        }
    }
}

/// What using a consumable restores.
#[derive(Clone, Debug, PartialEq, Eq)]
pub struct ConsumableEffectDef {
    pub meter_id: String,
    pub amount: u32,
}

impl ConsumableEffectDef {
    pub fn new(meter_id: &str, amount: u32) -> (r: Self)
        ensures
            r.meter_id@ == meter_id@,
            r.amount == amount,
    {
        ConsumableEffectDef { meter_id: meter_id.to_owned(), amount }
    }
}

/// One item kind of the inventory.
#[derive(Clone, Debug, PartialEq, Eq)]
pub struct ItemDef {
    pub id: String,
    pub name: LocalizedTextDef,
    pub category: ItemCategory,
    pub texture_id: String,
    pub icon_path: String,
    pub max_stack: u32,
    pub weight: u32,
    pub rarity: ItemRarity,
    pub research: u32,
    pub equipment_module: bool,
    pub consumable: Option<ConsumableEffectDef>,
}

/// A stack of items handed to the player.
#[derive(Clone, Debug, PartialEq, Eq)]
pub struct ItemRewardDef {
    pub item_id: String,
    pub quantity: u32,
    pub locked: bool,
}

impl View for ItemRewardDef {
    type V = (Seq<char>, u32, bool);

    open spec fn view(&self) -> (Seq<char>, u32, bool) {
        (self.item_id@, self.quantity, self.locked)
    }
}

impl ItemRewardDef {
    pub fn new(item_id: &str, quantity: u32) -> (r: Self)
        ensures
            r@ == (item_id@, quantity, false),
    {
        ItemRewardDef { item_id: item_id.to_owned(), quantity, locked: false }
    }

    pub fn locked(item_id: &str, quantity: u32) -> (r: Self)
        ensures
            r@ == (item_id@, quantity, true),
    {
        ItemRewardDef { item_id: item_id.to_owned(), quantity, locked: true }
    }

    fn duplicate(&self) -> (r: Self)
        ensures
            r == *self,
    {
        ItemRewardDef { item_id: self.item_id.clone(), quantity: self.quantity, locked: self.locked }
    }
}

/// The reward for picking up an asset of the map.
#[derive(Clone, Debug, PartialEq, Eq)]
pub struct PickupRewardRule {
    pub asset_id: String,
    pub reward: ItemRewardDef,
}

pub open spec fn item_ids(items: Seq<ItemDef>) -> Seq<Seq<char>> {
    items.map_values(|d: ItemDef| d.id@)
}

/// Position of the first item whose id is `key`.
pub open spec fn first_item_index(items: Seq<ItemDef>, key: Seq<char>) -> Option<int>
    decreases items.len(),
{
    if items.len() == 0 {
        None
    } else if items[0].id@ == key {
        Some(0)
    } else {
        match first_item_index(items.drop_first(), key) {
            Some(i) => Some(i + 1),
            None => None,
        }
    }
}

/// The item table, with the starting inventory, quickbar and pickup rewards.
pub struct ItemDatabase {
    pub mode: String,
    pub items: Vec<ItemDef>,
    pub default_inventory: Vec<ItemRewardDef>,
    pub default_quickbar: Vec<Option<usize>>,
    pub pickup_rewards: Vec<PickupRewardRule>,
    pub by_id: IdIndex,
}

impl ItemDatabase {
    /// The id index as last built by `reindex`.
    pub open spec fn id_index(&self) -> Seq<(Seq<char>, usize)> {
        self.by_id@
    }

    /// The index reflects the current item list.
    pub open spec fn index_fresh(&self) -> bool {
        self.id_index() == positions(item_ids(self.items@))
    }

    /// Position of the item `get` answers for `key`: the indexed slot when it is in range,
    /// else the first item with that id.
    pub open spec fn get_index(&self, key: Seq<char>) -> Option<int> {
        match lookup_last(self.id_index(), key) {
            Some(i) => if i < self.items@.len() {
                Some(i as int)
            } else {
                first_item_index(self.items@, key)
            },
            None => first_item_index(self.items@, key),
        }
    }

    /// A database over the given tables, indexed.
    pub fn from_parts(
        mode: String,
        items: Vec<ItemDef>,
        default_inventory: Vec<ItemRewardDef>,
        default_quickbar: Vec<Option<usize>>,
        pickup_rewards: Vec<PickupRewardRule>,
    ) -> (r: Self)
        ensures
            r.mode == mode,
            r.items@ == items@,
            r.default_inventory@ == default_inventory@,
            r.default_quickbar@ == default_quickbar@,
            r.pickup_rewards@ == pickup_rewards@,
            r.index_fresh(),
    {
        let mut database = ItemDatabase {
            mode,
            items,
            default_inventory,
            default_quickbar,
            pickup_rewards,
            by_id: IdIndex::new(),
        };
        database.reindex();
        database
    }

    /// Rebuilds the id index from the current item list.
    pub fn reindex(&mut self)
        ensures
            final(self).mode == old(self).mode,
            final(self).items@ == old(self).items@,
            final(self).default_inventory@ == old(self).default_inventory@,
            final(self).default_quickbar@ == old(self).default_quickbar@,
            final(self).pickup_rewards@ == old(self).pickup_rewards@,
            final(self).index_fresh(),
    {
        let mut index = IdIndex::new();
        let mut i: usize = 0;
        while i < self.items.len()
            invariant
                i <= self.items@.len(),
                index@ == positions(item_ids(self.items@).subrange(0, i as int)),
            decreases self.items@.len() - i,
        {
            index.insert(self.items[i].id.clone(), i);
            proof {
                assert(index@ =~= positions(item_ids(self.items@).subrange(0, i + 1)));
            }
            i = i + 1;
        }
        assert(item_ids(self.items@).subrange(0, i as int) =~= item_ids(self.items@));
        self.by_id = index;
    }

    /// The item with id `item_id` (through the index, falling back to a scan).
    pub fn get(&self, item_id: &str) -> (r: Option<&ItemDef>)
        ensures
            r is Some <==> self.get_index(item_id@) is Some,
            r matches Some(d) ==> *d == self.items@[self.get_index(item_id@)->0],
    {
        match self.by_id.lookup(item_id) {
            Some(i) => {
                if i < self.items.len() {
                    return Some(&self.items[i]);
                }
            },
            None => {},
        }
        assert(self.get_index(item_id@) == first_item_index(self.items@, item_id@));
        assert(self.items@.subrange(0, self.items@.len() as int) =~= self.items@);
        let mut j: usize = 0;
        while j < self.items.len()
            invariant
                j <= self.items@.len(),
                self.get_index(item_id@) == first_item_index(self.items@, item_id@),
                first_item_index(self.items@, item_id@) == match first_item_index(
                    self.items@.subrange(j as int, self.items@.len() as int),
                    item_id@,
                ) {
                    Some(k) => Some(k + j),
                    None => None,
                },
            decreases self.items@.len() - j,
        {
            proof {
                assert(self.items@.subrange(j as int, self.items@.len() as int).drop_first()
                    =~= self.items@.subrange(j + 1, self.items@.len() as int));
            }
            if str_eq(self.items[j].id.as_str(), item_id) {
                return Some(&self.items[j]);
            }
            j = j + 1;
        }
        None
    }

    pub fn items(&self) -> (r: &[ItemDef])
        ensures
            r@ == self.items@,
    {
        self.items.as_slice()
    }

    pub fn default_inventory(&self) -> (r: &[ItemRewardDef])
        ensures
            r@ == self.default_inventory@,
    {
        self.default_inventory.as_slice()
    }

    pub fn default_quickbar(&self) -> (r: &[Option<usize>])
        ensures
            r@ == self.default_quickbar@,
    {
        self.default_quickbar.as_slice()
    }

    pub fn pickup_rewards(&self) -> (r: &[PickupRewardRule])
        ensures
            r@ == self.pickup_rewards@,
    {
        self.pickup_rewards.as_slice()
    }
}

/// The first position of `key` among the items' ids.
pub proof fn lemma_first_item_index(items: Seq<ItemDef>, key: Seq<char>)
    ensures
        first_item_index(items, key) matches Some(i) ==> 0 <= i < items.len() && items[i].id@ == key
            && forall|j: int| 0 <= j < i ==> items[j].id@ != key,
        first_item_index(items, key) is None <==> forall|j: int| 0 <= j < items.len() ==> items[j].id@ != key,
    decreases items.len(),
{
    if items.len() > 0 {
        lemma_first_item_index(items.drop_first(), key);
        if items[0].id@ != key {
            assert forall|j: int| 1 <= j < items.len() implies items[j] == items.drop_first()[j - 1] by {}
            if first_item_index(items.drop_first(), key) is None {
                assert forall|j: int| 0 <= j < items.len() implies items[j].id@ != key by {
                    if j > 0 {
                        assert(items[j] == items.drop_first()[j - 1]);
                    }
                }
            }
        }
    }
}

/// Lookup law: once the index is fresh, `get` finds an item exactly when some item carries the
/// key, and the item it finds is the last one carrying the key.
pub proof fn lemma_fresh_get(db: &ItemDatabase, key: Seq<char>)
    requires
        db.index_fresh(),
        db.items@.len() <= usize::MAX,
    ensures
        db.get_index(key) is Some <==> exists|j: int| 0 <= j < db.items@.len() && (#[trigger] db.items@[j]).id@ == key,
        db.get_index(key) matches Some(i) ==> 0 <= i < db.items@.len() && db.items@[i].id@ == key
            && forall|j: int| i < j < db.items@.len() ==> db.items@[j].id@ != key,
{
    let ids = item_ids(db.items@);
    assert(ids.len() == db.items@.len());
    crate::index::lemma_positions_lookup(ids, key);
    lemma_first_item_index(db.items@, key);
    assert forall|j: int| 0 <= j < db.items@.len() implies ids[j] == (#[trigger] db.items@[j]).id@ by {}
}

/// The item list of `database` (`item_defs`).
pub fn item_defs(database: &ItemDatabase) -> (r: &[ItemDef])
    ensures
        r@ == database.items@,
{
    database.items()
}

/// The starting inventory of `database`.
pub fn default_inventory_stacks(database: &ItemDatabase) -> (r: &[ItemRewardDef])
    ensures
        r@ == database.default_inventory@,
{
    database.default_inventory()
}

/// The starting quickbar of `database`.
pub fn default_quickbar_slots(database: &ItemDatabase) -> (r: &[Option<usize>])
    ensures
        r@ == database.default_quickbar@,
{
    database.default_quickbar()
}

/// The pickup reward table of `database`.
pub fn pickup_reward_rules(database: &ItemDatabase) -> (r: &[PickupRewardRule])
    ensures
        r@ == database.pickup_rewards@,
{
    database.pickup_rewards()
}

/// The definition of `item_id`.
pub fn item_def<'a>(database: &'a ItemDatabase, item_id: &str) -> (r: Option<&'a ItemDef>)
    ensures
        r is Some <==> database.get_index(item_id@) is Some,
        r matches Some(d) ==> *d == database.items@[database.get_index(item_id@)->0],
{
    database.get(item_id)
}

/// The stack limit of `item_id`, if it is known.
pub fn item_max_stack(database: &ItemDatabase, item_id: &str) -> (r: Option<u32>)
    ensures
        r == (match database.get_index(item_id@) {
            Some(i) => Some(database.items@[i].max_stack),
            None => None,
        }),
{
    match database.get(item_id) {
        Some(d) => Some(d.max_stack),
        None => None,
    }
}

/// The weight of `item_id`; 1 for an unknown item.
pub fn item_weight(database: &ItemDatabase, item_id: &str) -> (r: u32)
    ensures
        r == (match database.get_index(item_id@) {
            Some(i) => database.items@[i].weight,
            None => 1,
        }),
{
    match database.get(item_id) {
        Some(d) => d.weight,
        None => 1,
    }
}

/// The display name of `item_id`.
pub fn item_name<'a>(database: &'a ItemDatabase, item_id: &str) -> (r: Option<&'a LocalizedTextDef>)
    ensures
        r is Some <==> database.get_index(item_id@) is Some,
        r matches Some(n) ==> *n == database.items@[database.get_index(item_id@)->0].name,
{
    match database.get(item_id) {
        Some(d) => Some(&d.name),
        None => None,
    }
}

/// A locked stack always counts as an equipment module; otherwise the item definition decides.
pub fn is_equipment_module(database: &ItemDatabase, item_id: &str, locked: bool) -> (r: bool)
    ensures
        r == (locked || (database.get_index(item_id@) matches Some(i) && database.items@[i].equipment_module)),
{
    if locked {
        return true;
    }
    match database.get(item_id) {
        Some(d) => d.equipment_module,
        None => false,
    }
}

/// The effect of consuming `item_id`, if it is a consumable.
pub fn consumable_effect<'a>(database: &'a ItemDatabase, item_id: &str) -> (r: Option<&'a ConsumableEffectDef>)
    ensures
        r is Some <==> (database.get_index(item_id@) matches Some(i) && database.items@[i].consumable is Some),
        r matches Some(e) ==> Some(*e) == database.items@[database.get_index(item_id@)->0].consumable,
{
    match database.get(item_id) {
        Some(d) => match &d.consumable {
            Some(e) => Some(e),
            None => None,
        },
        None => None,
    }
}

/// Position of the first rule for `asset_id`.
pub open spec fn first_rule_index(rules: Seq<PickupRewardRule>, asset_id: Seq<char>) -> Option<int>
    decreases rules.len(),
{
    if rules.len() == 0 {
        None
    } else if rules[0].asset_id@ == asset_id {
        Some(0)
    } else {
        match first_rule_index(rules.drop_first(), asset_id) {
            Some(i) => Some(i + 1),
            None => None,
        }
    }
}

/// The reward of the first pickup rule for `asset_id`.
pub fn pickup_reward_for_asset(database: &ItemDatabase, asset_id: &str) -> (r: Option<ItemRewardDef>)
    ensures
        r == (match first_rule_index(database.pickup_rewards@, asset_id@) {
            Some(i) => Some(database.pickup_rewards@[i].reward),
            None => None,
        }),
{
    let rules = &database.pickup_rewards;
    assert(rules@.subrange(0, rules@.len() as int) =~= rules@);
    let mut j: usize = 0;
    while j < rules.len()
        invariant
            rules@ == database.pickup_rewards@,
            j <= rules@.len(),
            first_rule_index(rules@, asset_id@) == match first_rule_index(
                rules@.subrange(j as int, rules@.len() as int),
                asset_id@,
            ) {
                Some(k) => Some(k + j),
                None => None,
            },
        decreases rules@.len() - j,
    {
        proof {
            assert(rules@.subrange(j as int, rules@.len() as int).drop_first()
                =~= rules@.subrange(j + 1, rules@.len() as int));
        }
        assert(rules@.subrange(j as int, rules@.len() as int)[0] == rules@[j as int]);
        if str_eq(rules[j].asset_id.as_str(), asset_id) {
            return Some(rules[j].reward.duplicate());
        }
        j = j + 1;
    }
    None
}

/// The item granted for scanning the codex entry `id`, by the id's shape.
pub open spec fn spec_scan_reward(id: Seq<char>) -> Option<(Seq<char>, u32, bool)> {
    if id == "codex.flora.glowfungus"@ {
        Some((ITEM_GLOW_FUNGUS_SAMPLE@, 1u32, false))
    } else if starts(id, "codex.flora."@) {
        Some((ITEM_BIO_SAMPLE_VIAL@, 1u32, false))
    } else if contains_seq(id, "generator"@) || contains_seq(id, "power_node"@) {
        Some((ITEM_ENERGY_CELL@, 1u32, false))
    } else if contains_seq(id, "terminal"@) || contains_seq(id, "data"@) || contains_seq(id, "signal"@) {
        Some((ITEM_DATA_SHARD@, 1u32, false))
    } else if contains_seq(id, "locked_door"@) || contains_seq(id, "gate"@) {
        Some((ITEM_RUIN_KEY@, 1u32, true))
    } else if starts(id, "codex.ruin."@) || starts(id, "ruin."@) {
        Some((ITEM_DATA_SHARD@, 1u32, false))
    } else {
        None
    }
}

/// The item granted for scanning the codex entry `codex_id`.
pub fn scan_reward_for_codex(codex_id: &str) -> (r: Option<ItemRewardDef>)
    ensures
        (match r {
            Some(x) => Some(x@),
            None => None,
        }) == spec_scan_reward(codex_id@),
{
    if str_eq(codex_id, "codex.flora.glowfungus") {
        Some(ItemRewardDef::new(ITEM_GLOW_FUNGUS_SAMPLE, 1))
    } else if starts_with(codex_id, "codex.flora.") {
        Some(ItemRewardDef::new(ITEM_BIO_SAMPLE_VIAL, 1))
    } else if contains(codex_id, "generator") || contains(codex_id, "power_node") {
        Some(ItemRewardDef::new(ITEM_ENERGY_CELL, 1))
    } else if contains(codex_id, "terminal") || contains(codex_id, "data") || contains(codex_id, "signal") {
        Some(ItemRewardDef::new(ITEM_DATA_SHARD, 1))
    } else if contains(codex_id, "locked_door") || contains(codex_id, "gate") {
        Some(ItemRewardDef::locked(ITEM_RUIN_KEY, 1))
    } else if starts_with(codex_id, "codex.ruin.") || starts_with(codex_id, "ruin.") {
        Some(ItemRewardDef::new(ITEM_DATA_SHARD, 1))
    } else {
        None
    }
}

/// The research meter that scanning the codex entry `id` advances.
pub open spec fn spec_research_meter(id: Seq<char>) -> &'static str {
    if starts(id, "codex.flora."@) {
        METER_BIO
    } else if contains_seq(id, "mineral"@) {
        METER_MINERAL
    } else if starts(id, "codex.ruin."@) || starts(id, "ruin."@) {
        METER_RUIN
    } else {
        METER_DATA
    }
}

pub fn research_meter_for_codex(codex_id: &str) -> (r: &'static str)
    ensures
        r == spec_research_meter(codex_id@),
{
    if starts_with(codex_id, "codex.flora.") {
        METER_BIO
    } else if contains(codex_id, "mineral") {
        METER_MINERAL
    } else if starts_with(codex_id, "codex.ruin.") || starts_with(codex_id, "ruin.") {
        METER_RUIN
    } else {
        METER_DATA
    }
}

} // verus!
