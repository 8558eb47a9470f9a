pub mod beings;
pub mod items;
pub mod levels;
pub mod recipes;
pub mod world_objs;

use vstd::prelude::*;
use crate::droptables::{DropQty, Drops, Loot};
use crate::items::{info_by_name, ItemID};
use crate::stats::Stats;
use crate::text::parse_unsigned;
use self::beings::{BeingDatabase, RawDrops, RawLoot};
use self::items::ItemDatabase;
use self::world_objs::WorldObjectDatabase;

verus! {

/// A name in the static data did not resolve.
#[derive(Debug, Copy, Clone, PartialEq, Eq, Structural)]
pub struct EntityBuildError;

/// All static game data: items, world objects and beings.
pub struct GameData {
    pub items: ItemDatabase,
    pub world_objs: WorldObjectDatabase,
    pub beings: BeingDatabase,
}

impl GameData {
    /// Empty databases.
    pub fn new() -> (g: Self)
        ensures
            g.items.data@.len() == 0,
            g.world_objs.data@.len() == 0,
            g.beings.data@.len() == 0,
    {
        Self { items: ItemDatabase::empty(), world_objs: WorldObjectDatabase::empty(), beings: BeingDatabase::empty() }
    }

    /// Replaces all of the data.
    pub fn load(&mut self, data: GameData)
        ensures
            *final(self) == data,
    {
        *self = data;
    }
}

/// Attributes where each may be missing.
#[derive(Debug, Copy, Clone, PartialEq, Eq, Structural)]
pub struct OptionalStats {
    pub intelligence: Option<usize>,
    pub strength: Option<usize>,
    pub dexterity: Option<usize>,
    pub vitality: Option<usize>,
    pub precision: Option<usize>,
    pub charisma: Option<usize>,
}

/// A present value, or zero.
pub open spec fn or_zero(o: Option<usize>) -> usize {
    match o {
        Some(v) => v,
        None => 0,
    }
}

impl Stats {
    /// The attributes given, the missing ones zero.
    pub fn from_optional(some_stats: &OptionalStats) -> (s: Self)
        ensures
            s.intelligence == or_zero(some_stats.intelligence),
            s.strength == or_zero(some_stats.strength),
            s.dexterity == or_zero(some_stats.dexterity),
            s.vitality == or_zero(some_stats.vitality),
            s.precision == or_zero(some_stats.precision),
            s.charisma == or_zero(some_stats.charisma),
    {
        Self {
            intelligence: some_stats.intelligence.unwrap_or(0),
            charisma: some_stats.charisma.unwrap_or(0),
            dexterity: some_stats.dexterity.unwrap_or(0),
            strength: some_stats.strength.unwrap_or(0),
            precision: some_stats.precision.unwrap_or(0),
            vitality: some_stats.vitality.unwrap_or(0),
        }
    }
}

/// Whether a raw loot entry resolves: its item name is in the item database and its quantity
/// is a number.
pub open spec fn raw_loot_ok(raw: RawLoot, items: Seq<crate::items::ItemInfo>) -> bool {
    info_by_name(items, raw.item@) is Some && parse_unsigned(raw.item_qty@, usize::MAX as nat) is Some
}

/// The loot entry that a raw entry resolves to.
pub open spec fn loot_matches(loot: Loot, raw: RawLoot, items: Seq<crate::items::ItemInfo>) -> bool {
    &&& loot.id == items[info_by_name(items, raw.item@)->0].identifier
    &&& loot.qty == DropQty::Single(parse_unsigned(raw.item_qty@, usize::MAX as nat)->0 as usize)
    &&& loot.weight == raw.weight
}

/// The loot table that a raw one resolves to against the items `items`: the same drop chance,
/// and each entry the entry its raw entry resolves to.
pub open spec fn drops_match(d: Drops, raw: RawDrops, items: Seq<crate::items::ItemInfo>) -> bool {
    &&& d.drop_chance == raw.drop_chance
    &&& d.loot_table@.len() == raw.loot_table@.len()
    &&& forall|i: int| 0 <= i < raw.loot_table@.len() ==> loot_matches(#[trigger] d.loot_table@[i], raw.loot_table@[i], items)
}

/// A loot table where the raw data has one, resolved as `drops_match` says; none otherwise.
pub open spec fn opt_drops_match(d: Option<Drops>, raw: Option<RawDrops>, items: Seq<crate::items::ItemInfo>) -> bool {
    match (d, raw) {
        (Some(d), Some(r)) => drops_match(d, r, items),
        (None, None) => true,
        _ => false,
    }
}

impl Drops {
    /// The loot table of the raw table, item names turned into item ids.
    pub fn from_raw(raw: &RawDrops, game_db: &GameData) -> (d: Self)
        requires
            forall|i: int| 0 <= i < raw.loot_table@.len() ==> raw_loot_ok(#[trigger] raw.loot_table@[i], game_db.items.data@),
        ensures
            d.drop_chance == raw.drop_chance,
            d.loot_table@.len() == raw.loot_table@.len(),
            forall|i: int| 0 <= i < raw.loot_table@.len() ==> loot_matches(#[trigger] d.loot_table@[i], raw.loot_table@[i], game_db.items.data@),
    {
        let mut loot_table: Vec<Loot> = Vec::new();
        let mut i: usize = 0;
        while i < raw.loot_table.len()
            invariant
                i <= raw.loot_table@.len(),
                forall|k: int| 0 <= k < raw.loot_table@.len() ==> raw_loot_ok(#[trigger] raw.loot_table@[k], game_db.items.data@),
                loot_table@.len() == i,
                forall|k: int| 0 <= k < i ==> loot_matches(#[trigger] loot_table@[k], raw.loot_table@[k], game_db.items.data@),
            decreases raw.loot_table@.len() - i,
        {
            let raw_loot = &raw.loot_table[i];
            assert(raw_loot_ok(raw.loot_table@[i as int], game_db.items.data@));
            let info = game_db.items.get_by_name(raw_loot.item.as_str()).unwrap();
            loot_table.push(Loot {
                id: info.identifier,
                qty: DropQty::from_str(raw_loot.item_qty.as_str()),
                weight: raw_loot.weight,
            });
            i = i + 1;
        }
        Self { drop_chance: raw.drop_chance, loot_table }
    }
}

impl DropQty {
    /// A single quantity read from decimal text.
    pub fn from_str(qty: &str) -> (d: DropQty)
        requires
            parse_unsigned(qty@, usize::MAX as nat) is Some,
        ensures
            d == DropQty::Single(parse_unsigned(qty@, usize::MAX as nat)->0 as usize),
    {
        let v = crate::text::parse_unsigned_bounded(qty, usize::MAX as u64).unwrap();
        DropQty::Single(v as usize)
    }
}

/// The item database holds the items read from the data file, in order.
pub open spec fn items_built(db: ItemDatabase, raw: self::items::RawItemDatabase) -> bool {
    db.data@.len() == raw.data@.len()
        && forall|i: int| 0 <= i < raw.data@.len() ==> self::items::info_matches(#[trigger] db.data@[i], raw.data@[i])
}

/// Whether the data files resolve against the items they define: every loot item and recipe
/// ingredient names an item, loot amounts are numbers, and world object health fits.
pub open spec fn raw_data_ok(
    raw_items: self::items::RawItemDatabase,
    raw_objs: Seq<self::world_objs::RawWorldObject>,
    raw_beings: Seq<self::beings::RawBeing>,
    raw_recipes: Seq<self::recipes::RawRecipe>,
) -> bool {
    forall|g: GameData| #[trigger] items_built(g.items, raw_items) ==> {
        &&& forall|i: int| 0 <= i < raw_objs.len() ==> self::world_objs::raw_obj_ok(#[trigger] raw_objs[i], g)
        &&& forall|i: int| 0 <= i < raw_beings.len() ==> self::beings::raw_being_ok(#[trigger] raw_beings[i], g)
        &&& forall|i: int| 0 <= i < raw_recipes.len() ==> self::recipes::raw_recipe_ok(#[trigger] raw_recipes[i], g.items)
    }
}

/// Builds the static databases from what the data files hold: the items first, since the other
/// tables look up item names to find their ids; then the world objects, the beings, and the
/// recipes.
pub fn initialize_game_databases(
    raw_items: &self::items::RawItemDatabase,
    raw_objs: &Vec<self::world_objs::RawWorldObject>,
    raw_beings: &Vec<self::beings::RawBeing>,
    raw_recipes: &Vec<self::recipes::RawRecipe>,
) -> (r: (GameData, self::recipes::RecipeDatabase))
    requires
        raw_data_ok(*raw_items, raw_objs@, raw_beings@, raw_recipes@),
    ensures
        items_built(r.0.items, *raw_items),
        r.0.world_objs.data@.len() == raw_objs@.len(),
        forall|i: int| 0 <= i < raw_objs@.len() ==> self::world_objs::obj_matches(#[trigger] r.0.world_objs.data@[i], raw_objs@[i], r.0.items.data@),
        r.0.beings.data@.len() == raw_beings@.len(),
        forall|i: int| 0 <= i < raw_beings@.len() ==> self::beings::being_matches(#[trigger] r.0.beings.data@[i], raw_beings@[i], r.0.items.data@),
        r.1.use_with_recipes@.len() == raw_recipes@.len(),
        forall|i: int| 0 <= i < raw_recipes@.len() ==> self::recipes::recipe_matches(#[trigger] r.1.use_with_recipes@[i], raw_recipes@[i], r.0.items),
{
    let mut game_db = GameData::new();
    game_db.items = ItemDatabase::from_raw(raw_items);
    assert(items_built(game_db.items, *raw_items));
    game_db.world_objs = WorldObjectDatabase::from_raw(raw_objs, &game_db);
    assert(items_built(game_db.items, *raw_items));
    game_db.beings = BeingDatabase::from_raw(raw_beings, &game_db);
    let mut rdb = self::recipes::RecipeDatabase::new();
    assert(items_built(game_db.items, *raw_items));
    rdb.load(raw_recipes, &game_db.items);
    (game_db, rdb)
}


/// Item sequences whose names agree index by index.
pub open spec fn same_names(a: Seq<crate::items::ItemInfo>, b: Seq<crate::items::ItemInfo>) -> bool {
    &&& a.len() == b.len()
    &&& forall|i: int| 0 <= i < a.len() ==> (#[trigger] a[i]).name@ == b[i].name@
}

/// A lookup by name sees only the names: sequences with the same names give the same index.
pub proof fn lemma_same_names_lookup(a: Seq<crate::items::ItemInfo>, b: Seq<crate::items::ItemInfo>, n: Seq<char>)
    requires
        same_names(a, b),
    ensures
        info_by_name(a, n) == info_by_name(b, n),
{
    let p = crate::items::info_name_pred(n);
    crate::search::lemma_first_index(a, p);
    match crate::search::first_index(a, p) {
        Some(k) => {
            assert(p(b[k]));
            assert forall|j: int| 0 <= j < k implies !p(b[j]) by {
                assert(!p(a[j]));
            }
            crate::search::lemma_first_index_is(b, p, k);
        },
        None => {
            assert forall|j: int| 0 <= j < b.len() implies !p(b[j]) by {
                assert(!p(a[j]));
            }
            crate::search::lemma_first_index_none(b, p);
        },
    }
}

/// Any two item databases built from the same data have the same names.
proof fn lemma_built_same_names(a: ItemDatabase, b: ItemDatabase, raw: self::items::RawItemDatabase)
    requires
        items_built(a, raw),
        items_built(b, raw),
    ensures
        same_names(a.data@, b.data@),
{
    assert forall|i: int| 0 <= i < a.data@.len() implies (#[trigger] a.data@[i]).name@ == b.data@[i].name@ by {
        assert(self::items::info_matches(a.data@[i], raw.data@[i]));
        assert(self::items::info_matches(b.data@[i], raw.data@[i]));
    }
}

/// Whether every entry of a raw loot table resolves against `items`.
fn loot_table_ok(loot: &Vec<RawLoot>, items: &Vec<crate::items::ItemInfo>) -> (r: bool)
    ensures
        r == forall|k: int| 0 <= k < loot@.len() ==> raw_loot_ok(#[trigger] loot@[k], items@),
{
    let mut i: usize = 0;
    while i < loot.len()
        invariant
            i <= loot@.len(),
            forall|k: int| 0 <= k < i ==> raw_loot_ok(#[trigger] loot@[k], items@),
        decreases loot@.len() - i,
    {
        let found = crate::items::find_info_by_name(items, loot[i].item.as_str());
        let amount = crate::text::parse_unsigned_bounded(loot[i].item_qty.as_str(), usize::MAX as u64);
        if found.is_none() || amount.is_none() {
            assert(!raw_loot_ok(loot@[i as int], items@));
            return false;
        }
        i = i + 1;
    }
    true
}

/// Whether a raw loot table, where there is one, resolves against `items`.
fn opt_loot_ok(loot: &Option<RawDrops>, items: &Vec<crate::items::ItemInfo>) -> (r: bool)
    ensures
        r == (loot matches Some(l) ==> forall|k: int| 0 <= k < l.loot_table@.len() ==> raw_loot_ok(#[trigger] l.loot_table@[k], items@)),
{
    match loot {
        Some(l) => loot_table_ok(&l.loot_table, items),
        None => true,
    }
}

/// Whether a raw loot entry resolves the same against databases with the same names.
proof fn lemma_loot_same(l: RawLoot, a: Seq<crate::items::ItemInfo>, b: Seq<crate::items::ItemInfo>)
    requires
        same_names(a, b),
    ensures
        raw_loot_ok(l, a) == raw_loot_ok(l, b),
{
    lemma_same_names_lookup(a, b, l.item@);
}

/// The raw data checked against one database built from the raw items.
pub open spec fn raw_data_ok_in(
    g: GameData,
    raw_objs: Seq<self::world_objs::RawWorldObject>,
    raw_beings: Seq<self::beings::RawBeing>,
    raw_recipes: Seq<self::recipes::RawRecipe>,
) -> bool {
    &&& forall|i: int| 0 <= i < raw_objs.len() ==> self::world_objs::raw_obj_ok(#[trigger] raw_objs[i], g)
    &&& forall|i: int| 0 <= i < raw_beings.len() ==> self::beings::raw_being_ok(#[trigger] raw_beings[i], g)
    &&& forall|i: int| 0 <= i < raw_recipes.len() ==> self::recipes::raw_recipe_ok(#[trigger] raw_recipes[i], g.items)
}

/// Checking against one built database decides the check against all of them.
proof fn lemma_raw_data_ok_in(
    g: GameData,
    raw_items: self::items::RawItemDatabase,
    raw_objs: Seq<self::world_objs::RawWorldObject>,
    raw_beings: Seq<self::beings::RawBeing>,
    raw_recipes: Seq<self::recipes::RawRecipe>,
)
    requires
        items_built(g.items, raw_items),
    ensures
        raw_data_ok(raw_items, raw_objs, raw_beings, raw_recipes) == raw_data_ok_in(g, raw_objs, raw_beings, raw_recipes),
{
    if raw_data_ok_in(g, raw_objs, raw_beings, raw_recipes) {
        assert forall|h: GameData| #[trigger] items_built(h.items, raw_items) implies raw_data_ok_in(h, raw_objs, raw_beings, raw_recipes) by {
            lemma_built_same_names(g.items, h.items, raw_items);
            assert forall|i: int| 0 <= i < raw_objs.len() implies self::world_objs::raw_obj_ok(#[trigger] raw_objs[i], h) by {
                assert(self::world_objs::raw_obj_ok(raw_objs[i], g));
                if let Some(l) = raw_objs[i].loot {
                    assert forall|k: int| 0 <= k < l.loot_table@.len() implies raw_loot_ok(#[trigger] l.loot_table@[k], h.items.data@) by {
                        lemma_loot_same(l.loot_table@[k], g.items.data@, h.items.data@);
                    }
                }
            }
            assert forall|i: int| 0 <= i < raw_beings.len() implies self::beings::raw_being_ok(#[trigger] raw_beings[i], h) by {
                assert(self::beings::raw_being_ok(raw_beings[i], g));
                if let Some(l) = raw_beings[i].loot {
                    assert forall|k: int| 0 <= k < l.loot_table@.len() implies raw_loot_ok(#[trigger] l.loot_table@[k], h.items.data@) by {
                        lemma_loot_same(l.loot_table@[k], g.items.data@, h.items.data@);
                    }
                }
            }
            assert forall|i: int| 0 <= i < raw_recipes.len() implies self::recipes::raw_recipe_ok(#[trigger] raw_recipes[i], h.items) by {
                assert(self::recipes::raw_recipe_ok(raw_recipes[i], g.items));
                lemma_same_names_lookup(g.items.data@, h.items.data@, raw_recipes[i].first.name@);
                lemma_same_names_lookup(g.items.data@, h.items.data@, raw_recipes[i].second.name@);
                lemma_same_names_lookup(g.items.data@, h.items.data@, raw_recipes[i].output@);
            }
        }
    }
}

/// Whether the data files resolve against the items they define, the condition on which
/// `initialize_game_databases` builds the databases.
pub fn check_raw_data(
    raw_items: &self::items::RawItemDatabase,
    raw_objs: &Vec<self::world_objs::RawWorldObject>,
    raw_beings: &Vec<self::beings::RawBeing>,
    raw_recipes: &Vec<self::recipes::RawRecipe>,
) -> (r: bool)
    ensures
        r == raw_data_ok(*raw_items, raw_objs@, raw_beings@, raw_recipes@),
{
    let mut g = GameData::new();
    g.items = ItemDatabase::from_raw(raw_items);
    proof {
        lemma_raw_data_ok_in(g, *raw_items, raw_objs@, raw_beings@, raw_recipes@);
    }
    let mut i: usize = 0;
    while i < raw_objs.len()
        invariant
            i <= raw_objs@.len(),
            raw_data_ok(*raw_items, raw_objs@, raw_beings@, raw_recipes@) == raw_data_ok_in(g, raw_objs@, raw_beings@, raw_recipes@),
            forall|k: int| 0 <= k < i ==> self::world_objs::raw_obj_ok(#[trigger] raw_objs@[k], g),
        decreases raw_objs@.len() - i,
    {
        let fits = match &raw_objs[i].health_stats {
            Some(h) => h.max_hp <= u32::MAX as usize && h.defense <= u32::MAX as usize,
            None => true,
        };
        if !fits || !opt_loot_ok(&raw_objs[i].loot, &g.items.data) {
            assert(!self::world_objs::raw_obj_ok(raw_objs@[i as int], g));
            return false;
        }
        i = i + 1;
    }
    let mut i: usize = 0;
    while i < raw_beings.len()
        invariant
            i <= raw_beings@.len(),
            raw_data_ok(*raw_items, raw_objs@, raw_beings@, raw_recipes@) == raw_data_ok_in(g, raw_objs@, raw_beings@, raw_recipes@),
            forall|k: int| 0 <= k < raw_objs@.len() ==> self::world_objs::raw_obj_ok(#[trigger] raw_objs@[k], g),
            forall|k: int| 0 <= k < i ==> self::beings::raw_being_ok(#[trigger] raw_beings@[k], g),
        decreases raw_beings@.len() - i,
    {
        if !opt_loot_ok(&raw_beings[i].loot, &g.items.data) {
            assert(!self::beings::raw_being_ok(raw_beings@[i as int], g));
            return false;
        }
        i = i + 1;
    }
    let mut i: usize = 0;
    while i < raw_recipes.len()
        invariant
            i <= raw_recipes@.len(),
            raw_data_ok(*raw_items, raw_objs@, raw_beings@, raw_recipes@) == raw_data_ok_in(g, raw_objs@, raw_beings@, raw_recipes@),
            forall|k: int| 0 <= k < raw_objs@.len() ==> self::world_objs::raw_obj_ok(#[trigger] raw_objs@[k], g),
            forall|k: int| 0 <= k < raw_beings@.len() ==> self::beings::raw_being_ok(#[trigger] raw_beings@[k], g),
            forall|k: int| 0 <= k < i ==> self::recipes::raw_recipe_ok(#[trigger] raw_recipes@[k], g.items),
        decreases raw_recipes@.len() - i,
    {
        let rec = &raw_recipes[i];
        let a = crate::items::find_info_by_name(&g.items.data, rec.first.name.as_str());
        let b = crate::items::find_info_by_name(&g.items.data, rec.second.name.as_str());
        let c = crate::items::find_info_by_name(&g.items.data, rec.output.as_str());
        if a.is_none() || b.is_none() || c.is_none() {
            assert(!self::recipes::raw_recipe_ok(raw_recipes@[i as int], g.items));
            return false;
        }
        i = i + 1;
    }
    true
}

} // verus!
