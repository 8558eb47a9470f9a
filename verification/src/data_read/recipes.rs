use vstd::prelude::*;
use crate::crafting::{Ingredient, UseWithRecipe};
use crate::items::{info_by_name, ItemQty};
use super::items::ItemDatabase;

verus! {

/// All recipes.
pub struct RecipeDatabase {
    pub use_with_recipes: Vec<UseWithRecipe>,
}

/// A recipe as read from the data file.
pub struct RawRecipe {
    pub first: RawIngredient,
    pub second: RawIngredient,
    pub output: String,
}

/// An ingredient as read from the data file.
pub struct RawIngredient {
    pub name: String,
    pub consume: Option<usize>,
}

/// Whether every item name of the recipe is in the item database.
pub open spec fn raw_recipe_ok(r: RawRecipe, items: ItemDatabase) -> bool {
    &&& info_by_name(items.data@, r.first.name@) is Some
    &&& info_by_name(items.data@, r.second.name@) is Some
    &&& info_by_name(items.data@, r.output@) is Some
}

/// The ingredient that a raw ingredient gives.
pub open spec fn ingredient_matches(i: Ingredient, raw: RawIngredient, items: ItemDatabase) -> bool {
    &&& i.id == items.data@[info_by_name(items.data@, raw.name@)->0].identifier
    &&& i.consume == match raw.consume {
        Some(n) => Some(ItemQty(n)),
        None => None::<ItemQty>,
    }
}

/// The recipe that a raw recipe gives: its two ingredients in order and its output, names
/// turned into item ids.
pub open spec fn recipe_matches(r: UseWithRecipe, raw: RawRecipe, items: ItemDatabase) -> bool {
    &&& r.ingredients@.len() == 2
    &&& ingredient_matches(r.ingredients@[0], raw.first, items)
    &&& ingredient_matches(r.ingredients@[1], raw.second, items)
    &&& r.output == items.data@[info_by_name(items.data@, raw.output@)->0].identifier
}

impl RecipeDatabase {
    pub fn new() -> (db: Self)
        ensures
            db.use_with_recipes@.len() == 0,
    {
        Self { use_with_recipes: Vec::new() }
    }

    /// Replaces the recipes with those read from the data file, names turned into item ids.
    pub fn load(&mut self, recipes: &Vec<RawRecipe>, items: &ItemDatabase)
        requires
            forall|i: int| 0 <= i < recipes@.len() ==> raw_recipe_ok(#[trigger] recipes@[i], *items),
        ensures
            final(self).use_with_recipes@.len() == recipes@.len(),
            forall|i: int| 0 <= i < recipes@.len() ==> recipe_matches(#[trigger] final(self).use_with_recipes@[i], recipes@[i], *items),
    {
        let mut out: Vec<UseWithRecipe> = Vec::new();
        let mut i: usize = 0;
        while i < recipes.len()
            invariant
                i <= recipes@.len(),
                forall|k: int| 0 <= k < recipes@.len() ==> raw_recipe_ok(#[trigger] recipes@[k], *items),
                out@.len() == i,
                forall|k: int| 0 <= k < i ==> recipe_matches(#[trigger] out@[k], recipes@[k], *items),
            decreases recipes@.len() - i,
        {
            let r = &recipes[i];
            assert(raw_recipe_ok(recipes@[i as int], *items));
            let mut ingredients: Vec<Ingredient> = Vec::new();
            ingredients.push(Ingredient {
                id: items.get_by_name_unchecked(&r.first.name).identifier,
                consume: match r.first.consume { Some(n) => Some(ItemQty(n)), None => None },
            });
            ingredients.push(Ingredient {
                id: items.get_by_name_unchecked(&r.second.name).identifier,
                consume: match r.second.consume { Some(n) => Some(ItemQty(n)), None => None },
            });
            out.push(UseWithRecipe { ingredients, output: items.get_by_name_unchecked(&r.output).identifier });
            i = i + 1;
        }
        self.use_with_recipes = out;
    }
}

} // verus!
