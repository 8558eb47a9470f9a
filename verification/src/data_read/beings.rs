use vstd::prelude::*;
use crate::being::{AIDefinition, Being, BeingID};
use crate::components::{EntityStats, HealthStats};
use crate::droptables::Drops;
use crate::search::{first_index, lemma_first_index};
use crate::stats::{EntityStatsBuilder, Stats};
use super::{EntityBuildError, GameData, OptionalStats, raw_loot_ok};

verus! {

broadcast use lemma_first_index;

/// The static data of all beings.
pub struct BeingDatabase {
    pub data: Vec<Being>,
}

/// One being as read from the data file.
pub struct RawBeing {
    pub identifier: BeingID,
    pub name: String,
    pub ai: Option<AIDefinition>,
    pub is_blocking: bool,
    pub atlas_index: u8,
    pub fg: (u8, u8, u8),
    pub quips: Option<Vec<String>>,
    pub stats: Option<OptionalStats>,
    pub loot: Option<RawDrops>,
}

/// A loot table as read from the data file.
pub struct RawDrops {
    /// 1 - 100 indicates the chance there is a drop
    pub drop_chance: u32,
    pub loot_table: Vec<RawLoot>,
}

/// A loot entry as read from the data file: item name, quantity text and weight.
pub struct RawLoot {
    pub item: String,
    pub item_qty: String,
    pub weight: u32,
}

/// The predicate "is named `name`".
pub open spec fn being_name_pred(name: Seq<char>) -> spec_fn(Being) -> bool {
    |b: Being| b.name@ == name
}

/// The predicate "has identifier `id`".
pub open spec fn being_id_pred(id: u32) -> spec_fn(Being) -> bool {
    |b: Being| b.identifier.0 == id
}

/// The index of the first being named `name`.
pub open spec fn being_by_name(db: Seq<Being>, name: Seq<char>) -> Option<int> {
    first_index(db, being_name_pred(name))
}

/// The index of the first being with identifier `id`.
pub open spec fn being_by_id(db: Seq<Being>, id: u32) -> Option<int> {
    first_index(db, being_id_pred(id))
}

impl AIDefinition {
    /// A copy of the definition.
    pub fn copy(&self) -> (r: Self)
        ensures
            crate::being::ai_view(r) == crate::being::ai_view(*self),
    {
        AIDefinition {
            start_mode: self.start_mode.clone(),
            goals: match &self.goals {
                Some(g) => Some(copy_strings(g)),
                None => None,
            },
            goal_range: self.goal_range,
        }
    }
}

/// A copy of a list of texts.
pub fn copy_strings(v: &Vec<String>) -> (r: Vec<String>)
    ensures
        r@ == v@,
{
    let mut r: Vec<String> = Vec::new();
    let mut i: usize = 0;
    while i < v.len()
        invariant
            i <= v@.len(),
            r@ == v@.take(i as int),
        decreases v@.len() - i,
    {
        r.push(v[i].clone());
        assert(r@ =~= v@.take(i as int + 1));
        i = i + 1;
    }
    assert(v@.take(v@.len() as int) =~= v@);
    r
}

/// Whether the raw being's loot table resolves against the item database.
pub open spec fn raw_being_ok(raw: RawBeing, game_db: GameData) -> bool {
    raw.loot matches Some(l) ==> forall|i: int| 0 <= i < l.loot_table@.len() ==> raw_loot_ok(#[trigger] l.loot_table@[i], game_db.items.data@)
}

/// The being that a raw being gives: the same fields, missing attributes zero, its loot table
/// resolved against the items `items`.
pub open spec fn being_matches(b: Being, raw: RawBeing, items: Seq<crate::items::ItemInfo>) -> bool {
    &&& b.identifier == raw.identifier
    &&& b.name == raw.name
    &&& crate::being::opt_ai_view(b.ai) == crate::being::opt_ai_view(raw.ai)
    &&& b.is_blocking == raw.is_blocking
    &&& b.atlas_index == raw.atlas_index
    &&& b.fg == raw.fg
    &&& crate::being::opt_strings_view(b.quips) == crate::being::opt_strings_view(raw.quips)
    &&& b.stats == match raw.stats {
        Some(s) => Stats {
            intelligence: super::or_zero(s.intelligence),
            strength: super::or_zero(s.strength),
            dexterity: super::or_zero(s.dexterity),
            vitality: super::or_zero(s.vitality),
            precision: super::or_zero(s.precision),
            charisma: super::or_zero(s.charisma),
        },
        None => Stats::spec_zero(),
    }
    &&& super::opt_drops_match(b.loot, raw.loot, items)
}

impl BeingDatabase {
    pub fn empty() -> (db: Self)
        ensures
            db.data@.len() == 0,
    {
        Self { data: Vec::new() }
    }

    /// The database of the raw beings, their loot item names turned into item ids
    /// (see `Drops::from_raw`).
    pub fn from_raw(beings: &Vec<RawBeing>, game_db: &GameData) -> (db: Self)
        requires
            forall|i: int| 0 <= i < beings@.len() ==> raw_being_ok(#[trigger] beings@[i], *game_db),
        ensures
            db.data@.len() == beings@.len(),
            forall|i: int| 0 <= i < beings@.len() ==> being_matches(#[trigger] db.data@[i], beings@[i], game_db.items.data@),
    {
        let mut data: Vec<Being> = Vec::new();
        let mut i: usize = 0;
        while i < beings.len()
            invariant
                i <= beings@.len(),
                forall|k: int| 0 <= k < beings@.len() ==> raw_being_ok(#[trigger] beings@[k], *game_db),
                data@.len() == i,
                forall|k: int| 0 <= k < i ==> being_matches(#[trigger] data@[k], beings@[k], game_db.items.data@),
            decreases beings@.len() - i,
        {
            let raw = &beings[i];
            assert(raw_being_ok(beings@[i as int], *game_db));
            let stats = match &raw.stats {
                Some(s) => Stats::from_optional(s),
                None => Stats::zero(),
            };
            let loot = match &raw.loot {
                Some(l) => Some(Drops::from_raw(l, game_db)),
                None => None,
            };
            data.push(Being {
                identifier: raw.identifier,
                name: raw.name.clone(),
                ai: match &raw.ai {
                    Some(a) => Some(a.copy()),
                    None => None,
                },
                is_blocking: raw.is_blocking,
                atlas_index: raw.atlas_index,
                fg: raw.fg,
                quips: match &raw.quips {
                    Some(q) => Some(copy_strings(q)),
                    None => None,
                },
                stats,
                loot,
            });
            i = i + 1;
        }
        Self { data }
    }

    /// The first being named `name`.
    pub fn get_by_name(&self, name: &str) -> (r: Option<&Being>)
        ensures
            r == match being_by_name(self.data@, name@) {
                Some(k) => Some(&self.data@[k]),
                None => None::<&Being>,
            },
    {
        let ghost p = being_name_pred(name@);
        let mut i: usize = 0;
        while i < self.data.len()
            invariant
                i <= self.data@.len(),
                p == being_name_pred(name@),
                forall|j: int| 0 <= j < i ==> !p(self.data@[j]),
            decreases self.data@.len() - i,
        {
            if crate::components::str_eq(self.data[i].name.as_str(), name) {
                proof { crate::search::lemma_first_index_is(self.data@, p, i as int); }
                return Some(&self.data[i]);
            }
            i = i + 1;
        }
        proof { crate::search::lemma_first_index_none(self.data@, p); }
        None
    }

    /// The first being with identifier `id`.
    pub fn get_by_id(&self, id: u32) -> (r: Option<&Being>)
        ensures
            r == match being_by_id(self.data@, id) {
                Some(k) => Some(&self.data@[k]),
                None => None::<&Being>,
            },
    {
        let ghost p = being_id_pred(id);
        let mut i: usize = 0;
        while i < self.data.len()
            invariant
                i <= self.data@.len(),
                p == being_id_pred(id),
                forall|j: int| 0 <= j < i ==> !p(self.data@[j]),
            decreases self.data@.len() - i,
        {
            if self.data[i].identifier.0 == id {
                proof { crate::search::lemma_first_index_is(self.data@, p, i as int); }
                return Some(&self.data[i]);
            }
            i = i + 1;
        }
        proof { crate::search::lemma_first_index_none(self.data@, p); }
        None
    }
}

/// The behaviour component a being starts with.
pub enum AiPlan {
    /// No behaviour component.
    Idle,
    /// Walks around at random.
    RandomWalk,
    /// Seeks the nearest entity with one of these names within this range.
    Goal { desires: Vec<String>, range: usize },
}

/// The behaviour a being's definition gives: `random_walk` walks at random, `goal` seeks its
/// goals, any other mode or no definition gives none.
pub open spec fn ai_plan_matches(plan: AiPlan, ai: Option<AIDefinition>) -> bool {
    match ai {
        None => plan is Idle,
        Some(a) => if a.start_mode@ == "random_walk"@ {
            plan is RandomWalk
        } else if a.start_mode@ == "goal"@ {
            match plan {
                AiPlan::Goal { desires, range } => desires@ == a.goals->0@ && range == a.goal_range->0,
                _ => false,
            }
        } else {
            plan is Idle
        },
    }
}

/// Whether a being's definition can be turned into a behaviour: a goal seeker needs goals and a
/// range.
pub open spec fn ai_ok(ai: Option<AIDefinition>) -> bool {
    match ai {
        Some(a) => a.start_mode@ == "goal"@ ==> a.goals is Some && a.goal_range is Some,
        None => true,
    }
}

/// The behaviour component for a being's definition.
pub fn plan_ai(ai: &Option<AIDefinition>) -> (plan: AiPlan)
    requires
        ai_ok(*ai),
    ensures
        ai_plan_matches(plan, *ai),
{
    match ai {
        None => AiPlan::Idle,
        Some(a) => {
            proof {
                reveal_strlit("random_walk");
                reveal_strlit("goal");
            }
            if crate::components::str_eq(a.start_mode.as_str(), "random_walk") {
                AiPlan::RandomWalk
            } else if crate::components::str_eq(a.start_mode.as_str(), "goal") {
                let goals = match &a.goals {
                    Some(g) => copy_strings(g),
                    None => Vec::new(),
                };
                AiPlan::Goal { desires: goals, range: a.goal_range.unwrap() }
            } else {
                AiPlan::Idle
            }
        },
    }
}

/// The behaviour to give back to a being after a saved game is loaded: as `plan_ai`, except that
/// a goal seeker without goals gets none (`None`) instead of failing.
pub fn ai_on_load(being: &Being) -> (plan: Option<AiPlan>)
    requires
        match being.ai {
            Some(a) => a.start_mode@ == "goal"@ && a.goals is Some ==> a.goal_range is Some,
            None => true,
        },
    ensures
        match plan {
            None => match being.ai {
                Some(a) => a.start_mode@ == "goal"@ && a.goals is None,
                None => false,
            },
            Some(p) => ai_plan_matches(p, being.ai),
        },
{
    match &being.ai {
        Some(a) => {
            proof {
                reveal_strlit("random_walk");
                reveal_strlit("goal");
            }
            let is_goal = crate::components::str_eq(a.start_mode.as_str(), "goal");
            if is_goal && a.goals.is_none() {
                return None;
            }
            assert(is_goal == (being.ai->0.start_mode@ == "goal"@));
        },
        None => {},
    }
    Some(plan_ai(&being.ai))
}

/// What an entity built from a being gets: its name, identifier, sprite, whether it blocks, its
/// behaviour, its attributes and its health.
pub struct BeingPlan {
    pub name: String,
    pub identifier: BeingID,
    pub atlas_index: u8,
    pub fg: (u8, u8, u8),
    pub blocking: bool,
    pub ai: AiPlan,
    pub stats: EntityStats,
    pub health: HealthStats,
}

/// Attempts to create the specified entity: what it is made of, or an error when no being has
/// that name.
pub fn build_being(db: &BeingDatabase, name: &str) -> (r: Result<BeingPlan, EntityBuildError>)
    requires
        being_by_name(db.data@, name@) matches Some(k) ==> {
            let b = db.data@[k];
            &&& ai_ok(b.ai)
            &&& b.stats.vitality + 10 <= u32::MAX
            &&& b.stats.vitality * 2 <= usize::MAX
        },
    ensures
        match being_by_name(db.data@, name@) {
            None => r is Err,
            Some(k) => r matches Ok(p) && {
                let b = db.data@[k];
                &&& p.name == b.name
                &&& p.identifier == b.identifier
                &&& p.atlas_index == b.atlas_index
                &&& p.fg == b.fg
                &&& p.blocking == b.is_blocking
                &&& ai_plan_matches(p.ai, b.ai)
                &&& p.stats.set == b.stats
                &&& p.health.hp == b.stats.vitality + 10
                &&& p.health.max_hp == b.stats.vitality + 10
                &&& p.health.defense == b.stats.vitality * 2 / 3
            },
        },
{
    let raw = match db.get_by_name(name) {
        Some(raw) => raw,
        None => return Err(EntityBuildError),
    };
    let ai = plan_ai(&raw.ai);
    let mut builder = EntityStatsBuilder::new();
    builder.with_intelligence(raw.stats.intelligence);
    builder.with_strength(raw.stats.strength);
    builder.with_dexterity(raw.stats.dexterity);
    builder.with_vitality(raw.stats.vitality);
    builder.with_charisma(raw.stats.charisma);
    builder.with_precision(raw.stats.precision);
    let esb = builder.build();
    Ok(BeingPlan {
        name: raw.name.clone(),
        identifier: raw.identifier,
        atlas_index: raw.atlas_index,
        fg: raw.fg,
        blocking: raw.is_blocking,
        ai,
        stats: esb.0,
        health: esb.1,
    })
}

} // verus!
