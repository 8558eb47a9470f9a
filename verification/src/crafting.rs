use vstd::prelude::*;
use crate::components::{CraftAction, EntityId, Item};
use crate::data_read::recipes::RecipeDatabase;
use crate::items::{record_of, ItemID, ItemQty, ItemRecord, ItemSpawnRequest, ItemSpawner, ItemWorld, SpawnType};
use crate::message_log::{lines_view, LogLine, MessageType};
use crate::search::first_index;

verus! {

broadcast use crate::search::lemma_first_index;

/// A recipe that turns two ingredients used together into an output item.
pub struct UseWithRecipe {
    pub ingredients: Vec<Ingredient>,
    pub output: ItemID,
}

/// One ingredient of a recipe, and how many of it crafting uses up (none: it is kept).
#[derive(Debug, Copy, Clone, PartialEq, Eq, Structural)]
pub struct Ingredient {
    pub id: ItemID,
    pub consume: Option<ItemQty>,
}

/// Whether the item entity `r` takes part in the craft `action` of `crafter`: it is in a bag,
/// and it is the first item and the bag is the crafter's, or it is the second item (whatever
/// bag it is in).
pub open spec fn is_crafting_item(r: ItemRecord, crafter: EntityId, action: CraftAction) -> bool {
    match r.in_bag {
        Some(b) => (b.owner == crafter && r.entity == action.first_item) || r.entity == action.second_item,
        None => false,
    }
}

/// The item entities that take part in a craft, with their items, in world order.
pub open spec fn crafting_items(s: Seq<ItemRecord>, crafter: EntityId, action: CraftAction) -> Seq<(EntityId, Item)>
    decreases s.len(),
{
    if s.len() == 0 {
        Seq::empty()
    } else if is_crafting_item(s.last(), crafter, action) {
        crafting_items(s.drop_last(), crafter, action).push((s.last().entity, s.last().item))
    } else {
        crafting_items(s.drop_last(), crafter, action)
    }
}

/// The predicate "is an item of kind `id`".
pub open spec fn kind_pred(id: ItemID) -> spec_fn((EntityId, Item)) -> bool {
    |p: (EntityId, Item)| p.1.id == id
}

/// The predicate "both ingredients of the recipe are among the items".
pub open spec fn recipe_pred(ci: Seq<(EntityId, Item)>) -> spec_fn(UseWithRecipe) -> bool {
    |r: UseWithRecipe|
        first_index(ci, kind_pred(r.ingredients@[0].id)) is Some && first_index(ci, kind_pred(r.ingredients@[1].id)) is Some
}

/// Every recipe has at least two ingredients.
pub open spec fn recipes_wf(recipes: Seq<UseWithRecipe>) -> bool {
    forall|i: int| 0 <= i < recipes.len() ==> (#[trigger] recipes[i]).ingredients@.len() >= 2
}

/// The item updates that crafting with the ingredients `ings` makes, in order: each ingredient
/// that is used up takes its amount from the first item of its kind; `None` when one of them
/// has too few.
pub open spec fn consumed(ings: Seq<Ingredient>, ci: Seq<(EntityId, Item)>) -> Option<Seq<(EntityId, Item)>>
    decreases ings.len(),
{
    if ings.len() == 0 {
        Some(Seq::empty())
    } else {
        match consumed(ings.drop_last(), ci) {
            None => None,
            Some(ups) => match ings.last().consume {
                None => Some(ups),
                Some(c) => match first_index(ci, kind_pred(ings.last().id)) {
                    None => Some(ups),
                    Some(k) => if ci[k].1.qty.0 < c.0 {
                        None
                    } else {
                        Some(ups.push((ci[k].0, Item { id: ci[k].1.id, qty: ItemQty((ci[k].1.qty.0 - c.0) as usize) })))
                    },
                },
            },
        }
    }
}

/// The items after entity `e` gets the item `item`.
pub open spec fn item_set(s: Seq<ItemRecord>, e: EntityId, item: Item) -> Seq<ItemRecord> {
    match record_of(s, e) {
        Some(k) => s.update(k, ItemRecord { item, ..s[k] }),
        None => s,
    }
}

/// The items after the updates `ups`, in order.
pub open spec fn items_updated(s: Seq<ItemRecord>, ups: Seq<(EntityId, Item)>) -> Seq<ItemRecord>
    decreases ups.len(),
{
    if ups.len() == 0 { s } else { item_set(items_updated(s, ups.drop_last()), ups.last().0, ups.last().1) }
}

/// The message when no recipe takes the items.
pub open spec fn no_recipe_text() -> Seq<char> {
    "No recipe matched for the items used to craft"@
}

/// What one craft does to the items, the spawn requests and the messages.
pub open spec fn craft_step(
    st: (Seq<ItemRecord>, Seq<ItemSpawnRequest>, Seq<(MessageType, Seq<char>)>),
    crafter: EntityId,
    action: CraftAction,
    recipes: Seq<UseWithRecipe>,
) -> (Seq<ItemRecord>, Seq<ItemSpawnRequest>, Seq<(MessageType, Seq<char>)>) {
    let (s, reqs, lines) = st;
    let ci = crafting_items(s, crafter, action);
    match first_index(recipes, recipe_pred(ci)) {
        None => (s, reqs, lines.push((MessageType::INFO, no_recipe_text()))),
        Some(r) => match consumed(recipes[r].ingredients@, ci) {
            None => st,
            Some(ups) => (
                items_updated(s, ups),
                reqs.push(ItemSpawnRequest { item_id: recipes[r].output, spawn_type: SpawnType::InBag(crafter) }),
                lines,
            ),
        },
    }
}

/// What the crafts `actions` do, in order.
pub open spec fn crafts_done(
    st: (Seq<ItemRecord>, Seq<ItemSpawnRequest>, Seq<(MessageType, Seq<char>)>),
    actions: Seq<(EntityId, CraftAction)>,
    recipes: Seq<UseWithRecipe>,
) -> (Seq<ItemRecord>, Seq<ItemSpawnRequest>, Seq<(MessageType, Seq<char>)>)
    decreases actions.len(),
{
    if actions.len() == 0 {
        st
    } else {
        craft_step(crafts_done(st, actions.drop_last(), recipes), actions.last().0, actions.last().1, recipes)
    }
}

/// The item entities that take part in the craft `action` of `crafter`.
fn collect_crafting_items(world: &ItemWorld, crafter: EntityId, action: CraftAction) -> (r: Vec<(EntityId, Item)>)
    ensures
        r@ == crafting_items(world@, crafter, action),
{
    let mut r: Vec<(EntityId, Item)> = Vec::new();
    let mut i: usize = 0;
    while i < world.items.len()
        invariant
            i <= world@.len(),
            world@.len() == world.items@.len(),
            r@ == crafting_items(world@.take(i as int), crafter, action),
        decreases world@.len() - i,
    {
        assert(world@.take(i as int + 1).drop_last() =~= world@.take(i as int));
        assert(world@.take(i as int + 1).last() == world@[i as int]);
        let e = &world.items[i];
        let takes_part = match e.in_bag {
            Some(b) => (b.owner == crafter && e.entity == action.first_item) || e.entity == action.second_item,
            None => false,
        };
        if takes_part {
            r.push((e.entity, e.item));
        }
        i = i + 1;
    }
    assert(world@.take(i as int) =~= world@);
    r
}

/// The first of the items of kind `id`.
fn find_kind(ci: &Vec<(EntityId, Item)>, id: ItemID) -> (r: Option<usize>)
    ensures
        match r {
            Some(k) => first_index(ci@, kind_pred(id)) == Some(k as int),
            None => first_index(ci@, kind_pred(id)) is None,
        },
{
    let ghost p = kind_pred(id);
    let mut i: usize = 0;
    while i < ci.len()
        invariant
            i <= ci@.len(),
            p == kind_pred(id),
            forall|j: int| 0 <= j < i ==> !p(ci@[j]),
        decreases ci@.len() - i,
    {
        if ci[i].1.id == id {
            proof { crate::search::lemma_first_index_is(ci@, p, i as int); }
            return Some(i);
        }
        i = i + 1;
    }
    proof { crate::search::lemma_first_index_none(ci@, p); }
    None
}

/// The first recipe whose two ingredients are both among the items.
fn find_recipe(recipes: &Vec<UseWithRecipe>, ci: &Vec<(EntityId, Item)>) -> (r: Option<usize>)
    requires
        recipes_wf(recipes@),
    ensures
        match r {
            Some(k) => first_index(recipes@, recipe_pred(ci@)) == Some(k as int),
            None => first_index(recipes@, recipe_pred(ci@)) is None,
        },
{
    let ghost p = recipe_pred(ci@);
    let mut i: usize = 0;
    while i < recipes.len()
        invariant
            i <= recipes@.len(),
            recipes_wf(recipes@),
            p == recipe_pred(ci@),
            forall|j: int| 0 <= j < i ==> !p(recipes@[j]),
        decreases recipes@.len() - i,
    {
        assert(recipes@[i as int].ingredients@.len() >= 2);
        let first = find_kind(ci, recipes[i].ingredients[0].id);
        let second = find_kind(ci, recipes[i].ingredients[1].id);
        if first.is_some() && second.is_some() {
            proof { crate::search::lemma_first_index_is(recipes@, p, i as int); }
            return Some(i);
        }
        i = i + 1;
    }
    proof { crate::search::lemma_first_index_none(recipes@, p); }
    None
}

/// The item updates of crafting with the ingredients `ings`, or `None` when one is short.
fn plan_consumption(ings: &Vec<Ingredient>, ci: &Vec<(EntityId, Item)>) -> (r: Option<Vec<(EntityId, Item)>>)
    ensures
        match r {
            Some(ups) => consumed(ings@, ci@) == Some(ups@),
            None => consumed(ings@, ci@) is None,
        },
{
    let mut ups: Vec<(EntityId, Item)> = Vec::new();
    let mut i: usize = 0;
    while i < ings.len()
        invariant
            i <= ings@.len(),
            consumed(ings@.take(i as int), ci@) == Some(ups@),
        decreases ings@.len() - i,
    {
        assert(ings@.take(i as int + 1).drop_last() =~= ings@.take(i as int));
        assert(ings@.take(i as int + 1).last() == ings@[i as int]);
        let ing = ings[i];
        match ing.consume {
            None => {},
            Some(c) => match find_kind(ci, ing.id) {
                None => {},
                Some(k) => {
                    let (e, bag_item) = ci[k];
                    if bag_item.qty.0 < c.0 {
                        proof { lemma_consumed_short(ings@, ci@, i as int + 1); }
                        return None;
                    }
                    ups.push((e, Item::new(bag_item.id, bag_item.qty.sub(c))));
                },
            },
        }
        i = i + 1;
    }
    assert(ings@.take(i as int) =~= ings@);
    Some(ups)
}

/// Once an ingredient is short, crafting with more ingredients is short too.
proof fn lemma_consumed_short(ings: Seq<Ingredient>, ci: Seq<(EntityId, Item)>, j: int)
    requires
        0 <= j <= ings.len(),
        consumed(ings.take(j), ci) is None,
    ensures
        consumed(ings, ci) is None,
    decreases ings.len() - j,
{
    if j < ings.len() {
        assert(ings.take(j + 1).drop_last() =~= ings.take(j));
        lemma_consumed_short(ings, ci, j + 1);
    } else {
        assert(ings.take(j) =~= ings);
    }
}

impl ItemWorld {
    /// Gives entity `e` the item `item`.
    pub fn set_item(&mut self, e: EntityId, item: Item)
        ensures
            final(self)@ == item_set(old(self)@, e, item),
    {
        match self.find_entity(e) {
            Some(k) => {
                let mut rec = self.items.remove(k);
                rec.item = item;
                self.items.insert(k, rec);
                assert(self@ =~= item_set(old(self)@, e, item));
            },
            None => {},
        }
    }
}

/// Crafts items from two items used together.
pub struct HandleCraftingSystem;

impl HandleCraftingSystem {
    /// Serves the craft actions (crafter, action) in order: the first recipe whose two
    /// ingredients are among the crafting items is used; its used up ingredients lose their
    /// amounts and its output is requested into the crafter's bag, unless an ingredient is short
    /// (then nothing happens). The actions are dropped.
    pub fn run(
        &mut self,
        actions: &mut Vec<(EntityId, CraftAction)>,
        world: &mut ItemWorld,
        spawner: &mut ItemSpawner,
        rdb: &RecipeDatabase,
    ) -> (lines: Vec<LogLine>)
        requires
            recipes_wf(rdb.use_with_recipes@),
        ensures
            (final(world)@, final(spawner).requests@, lines_view(lines@))
                == crafts_done((old(world)@, old(spawner).requests@, Seq::empty()), old(actions)@, rdb.use_with_recipes@),
            final(actions)@.len() == 0,
    {
        let mut lines: Vec<LogLine> = Vec::new();
        let mut i: usize = 0;
        while i < actions.len()
            invariant
                i <= actions@.len(),
                actions@ == old(actions)@,
                recipes_wf(rdb.use_with_recipes@),
                (world@, spawner.requests@, lines_view(lines@))
                    == crafts_done((old(world)@, old(spawner).requests@, Seq::empty()), actions@.take(i as int), rdb.use_with_recipes@),
            decreases actions@.len() - i,
        {
            assert(actions@.take(i as int + 1).drop_last() =~= actions@.take(i as int));
            let ghost st = (world@, spawner.requests@, lines_view(lines@));
            let (crafter, action) = actions[i];
            let ci = collect_crafting_items(world, crafter, action);
            match find_recipe(&rdb.use_with_recipes, &ci) {
                None => {
                    proof { reveal_strlit("No recipe matched for the items used to craft"); }
                    lines.push(LogLine::new(MessageType::INFO, String::from_str("No recipe matched for the items used to craft")));
                    assert(lines_view(lines@) =~= st.2.push((MessageType::INFO, no_recipe_text())));
                },
                Some(r) => {
                    let recipe = &rdb.use_with_recipes[r];
                    match plan_consumption(&recipe.ingredients, &ci) {
                        None => {},
                        Some(ups) => {
                            let mut j: usize = 0;
                            while j < ups.len()
                                invariant
                                    j <= ups@.len(),
                                    world@ == items_updated(st.0, ups@.take(j as int)),
                                decreases ups@.len() - j,
                            {
                                assert(ups@.take(j as int + 1).drop_last() =~= ups@.take(j as int));
                                let (e, it) = ups[j];
                                world.set_item(e, it);
                                j = j + 1;
                            }
                            assert(ups@.take(j as int) =~= ups@);
                            spawner.request(recipe.output, SpawnType::InBag(crafter));
                        },
                    }
                },
            }
            i = i + 1;
        }
        assert(actions@.take(i as int) =~= actions@);
        actions.clear();
        lines
    }
}

/// A craft requests at most one item, and only the output of a recipe into the crafter's bag;
/// a craft that makes nothing leaves the items as they were.
pub proof fn lemma_craft_requests_one(
    st: (Seq<ItemRecord>, Seq<ItemSpawnRequest>, Seq<(MessageType, Seq<char>)>),
    crafter: EntityId,
    action: CraftAction,
    recipes: Seq<UseWithRecipe>,
)
    ensures
        ({
            let after = craft_step(st, crafter, action, recipes);
            ||| (after.1 == st.1 && after.0 == st.0)
            ||| exists|r: int| 0 <= r < recipes.len()
                && after.1 == st.1.push(ItemSpawnRequest { item_id: (#[trigger] recipes[r]).output, spawn_type: SpawnType::InBag(crafter) })
        }),
{
    let ci = crafting_items(st.0, crafter, action);
    match first_index(recipes, recipe_pred(ci)) {
        None => {},
        Some(r) => {
            match consumed(recipes[r].ingredients@, ci) {
                None => {},
                Some(_) => {
                    assert(0 <= r < recipes.len());
                },
            }
        },
    }
}

/// Whether the first item of the ingredient's kind among the items `ci` has at least the amount
/// that the ingredient uses up (an ingredient that is kept, or whose kind is missing, asks for
/// nothing).
pub open spec fn ingredient_enough(ing: Ingredient, ci: Seq<(EntityId, Item)>) -> bool {
    match ing.consume {
        None => true,
        Some(c) => match first_index(ci, kind_pred(ing.id)) {
            None => true,
            Some(k) => ci[k].1.qty.0 >= c.0,
        },
    }
}

/// The change that the ingredient makes: the first item of its kind, lowered by the amount used
/// up; `None` for an ingredient that is kept or whose kind is missing.
pub open spec fn ingredient_update(ing: Ingredient, ci: Seq<(EntityId, Item)>) -> Option<(EntityId, Item)> {
    match ing.consume {
        None => None,
        Some(c) => match first_index(ci, kind_pred(ing.id)) {
            None => None,
            Some(k) => Some((ci[k].0, Item { id: ci[k].1.id, qty: ItemQty((ci[k].1.qty.0 - c.0) as usize) })),
        },
    }
}

/// Using up ingredients succeeds exactly when every ingredient finds enough of its kind (having
/// just the amount needed is enough); then the updates are the ingredients' own changes, each
/// item lowered by exactly the amount used up, and every such change is among them.
pub proof fn lemma_consumed_exact(ings: Seq<Ingredient>, ci: Seq<(EntityId, Item)>)
    ensures
        (consumed(ings, ci) is Some) == (forall|i: int| 0 <= i < ings.len() ==> ingredient_enough(#[trigger] ings[i], ci)),
        consumed(ings, ci) matches Some(ups) ==> {
            &&& forall|u: int| 0 <= u < ups.len()
                ==> exists|i: int| 0 <= i < ings.len() && ingredient_update(#[trigger] ings[i], ci) == Some(#[trigger] ups[u])
            &&& forall|i: int| 0 <= i < ings.len() && (#[trigger] ingredient_update(ings[i], ci)) is Some
                ==> ups.contains(ingredient_update(ings[i], ci)->0)
        },
    decreases ings.len(),
{
    if ings.len() > 0 {
        let init = ings.drop_last();
        let n = ings.len() - 1;
        lemma_consumed_exact(init, ci);
        assert forall|i: int| 0 <= i < n implies ings[i] == #[trigger] init[i] by {}
        assert(ings[n] == ings.last());
        if consumed(ings, ci) is Some {
            assert(forall|i: int| 0 <= i < n ==> ingredient_enough(#[trigger] init[i], ci));
            assert forall|i: int| 0 <= i < ings.len() implies ingredient_enough(#[trigger] ings[i], ci) by {
                if i < n {
                    assert(ingredient_enough(init[i], ci));
                }
            }
            let ups = consumed(ings, ci)->0;
            let prev = consumed(init, ci)->0;
            assert forall|u: int| 0 <= u < ups.len()
                implies exists|i: int| 0 <= i < ings.len() && ingredient_update(#[trigger] ings[i], ci) == Some(#[trigger] ups[u]) by {
                if u < prev.len() {
                    assert(ups[u] == prev[u]);
                    let i = choose|i: int| 0 <= i < init.len() && ingredient_update(#[trigger] init[i], ci) == Some(#[trigger] prev[u]);
                    assert(ingredient_update(ings[i], ci) == Some(ups[u]));
                } else {
                    assert(ingredient_update(ings[n], ci) == Some(ups[u]));
                }
            }
            assert forall|i: int| 0 <= i < ings.len() && (#[trigger] ingredient_update(ings[i], ci)) is Some
                implies ups.contains(ingredient_update(ings[i], ci)->0) by {
                if i < n {
                    assert(ingredient_update(init[i], ci) is Some);
                    let x = ingredient_update(init[i], ci)->0;
                    assert(prev.contains(x));
                    let w = choose|w: int| 0 <= w < prev.len() && prev[w] == x;
                    assert(ups[w] == x);
                } else {
                    assert(ups[ups.len() - 1] == ingredient_update(ings[i], ci)->0);
                }
            }
        } else {
            if consumed(init, ci) is None {
                let j = choose|j: int| 0 <= j < init.len() && !ingredient_enough(#[trigger] init[j], ci);
                assert(!ingredient_enough(ings[j], ci));
            } else {
                assert(!ingredient_enough(ings[n], ci));
            }
        }
    }
}

/// When a recipe matches the items of a craft and every ingredient finds enough of its kind, the
/// craft requests the recipe's output into the crafter's bag, writes no message, and changes the
/// items by exactly the ingredients' own changes (each item lowered by the amount used up).
/// When an ingredient is short, the craft changes nothing.
pub proof fn lemma_craft_uses_up_and_makes(
    st: (Seq<ItemRecord>, Seq<ItemSpawnRequest>, Seq<(MessageType, Seq<char>)>),
    crafter: EntityId,
    action: CraftAction,
    recipes: Seq<UseWithRecipe>,
    r: int,
)
    requires
        first_index(recipes, recipe_pred(crafting_items(st.0, crafter, action))) == Some(r),
    ensures
        ({
            let ci = crafting_items(st.0, crafter, action);
            let ings = recipes[r].ingredients@;
            let after = craft_step(st, crafter, action, recipes);
            if forall|i: int| 0 <= i < ings.len() ==> ingredient_enough(#[trigger] ings[i], ci) {
                &&& after.1 == st.1.push(ItemSpawnRequest { item_id: recipes[r].output, spawn_type: SpawnType::InBag(crafter) })
                &&& after.2 == st.2
                &&& exists|ups: Seq<(EntityId, Item)>| {
                    &&& after.0 == items_updated(st.0, ups)
                    &&& forall|u: int| 0 <= u < ups.len()
                        ==> exists|i: int| 0 <= i < ings.len() && ingredient_update(#[trigger] ings[i], ci) == Some(#[trigger] ups[u])
                    &&& forall|i: int| 0 <= i < ings.len() && (#[trigger] ingredient_update(ings[i], ci)) is Some
                        ==> ups.contains(ingredient_update(ings[i], ci)->0)
                }
            } else {
                after == st
            }
        }),
{
    let ci = crafting_items(st.0, crafter, action);
    lemma_consumed_exact(recipes[r].ingredients@, ci);
}

} // verus!
