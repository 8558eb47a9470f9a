use vstd::prelude::*;
use crate::components::{Breakable, HealthStats, ToolType};
use crate::droptables::Drops;
use crate::map::{ObjectID, WorldObject};
use crate::search::{first_index, lemma_first_index};
use super::{EntityBuildError, GameData};
use super::beings::RawDrops;

verus! {

broadcast use lemma_first_index;

/// The static data of all world objects.
pub struct WorldObjectDatabase {
    pub data: Vec<WorldObject>,
}

/// Health as read from the data file.
#[derive(Debug, Copy, Clone, PartialEq, Eq, Structural)]
pub struct RawHealthStats {
    pub max_hp: usize,
    pub defense: usize,
}

/// One world object as read from the data file.
pub struct RawWorldObject {
    /// Unique id to find the world object's static data
    pub identifier: usize,
    pub name: String,
    pub atlas_index: u8,
    pub is_blocking: bool,
    pub breakable: Option<String>,
    pub health_stats: Option<RawHealthStats>,
    pub grass: Option<String>,
    pub foreground: Option<(u8, u8, u8)>,
    pub loot: Option<RawDrops>,
    pub impact_sound: String,
}

/// The predicate "is named `name`".
pub open spec fn obj_name_pred(name: Seq<char>) -> spec_fn(WorldObject) -> bool {
    |o: WorldObject| o.name@ == name
}

/// The index of the first world object named `name`.
pub open spec fn obj_by_name(db: Seq<WorldObject>, name: Seq<char>) -> Option<int> {
    first_index(db, obj_name_pred(name))
}

/// The predicate "has identifier `id`".
pub open spec fn obj_id_pred(id: usize) -> spec_fn(WorldObject) -> bool {
    |o: WorldObject| o.identifier.0 == id
}

/// The index of the first world object with identifier `id`.
pub open spec fn obj_by_id(db: Seq<WorldObject>, id: usize) -> Option<int> {
    first_index(db, obj_id_pred(id))
}

/// The tool that `name` stands for: `Hand`, `Pickaxe`, `Axe` or `Shovel`.
pub open spec fn tool_named(name: Seq<char>) -> Option<ToolType> {
    if name == "Hand"@ {
        Some(ToolType::Hand)
    } else if name == "Pickaxe"@ {
        Some(ToolType::Pickaxe)
    } else if name == "Axe"@ {
        Some(ToolType::Axe)
    } else if name == "Shovel"@ {
        Some(ToolType::Shovel)
    } else {
        None
    }
}

impl Breakable {
    /// Reads what breaks a thing from the tool's name.
    pub fn from_str(name: &str) -> (r: Result<Breakable, EntityBuildError>)
        ensures
            match tool_named(name@) {
                Some(t) => r == Ok::<Breakable, EntityBuildError>(Breakable { by: t }),
                None => r is Err,
            },
    {
        if crate::components::str_eq(name, "Hand") {
            Ok(Breakable::new(ToolType::Hand))
        } else if crate::components::str_eq(name, "Pickaxe") {
            Ok(Breakable::new(ToolType::Pickaxe))
        } else if crate::components::str_eq(name, "Axe") {
            Ok(Breakable::new(ToolType::Axe))
        } else if crate::components::str_eq(name, "Shovel") {
            Ok(Breakable::new(ToolType::Shovel))
        } else {
            Err(EntityBuildError)
        }
    }
}

/// The world object that a raw object gives: the same fields, its health as health stats at
/// full hit points, its loot table resolved against the items `items`.
pub open spec fn obj_matches(o: WorldObject, raw: RawWorldObject, items: Seq<crate::items::ItemInfo>) -> bool {
    &&& o.identifier == ObjectID(raw.identifier)
    &&& o.name == raw.name
    &&& o.atlas_index == raw.atlas_index
    &&& o.is_blocking == raw.is_blocking
    &&& o.breakable == raw.breakable
    &&& o.health_stats == match raw.health_stats {
        Some(h) => Some(HealthStats { hp: h.max_hp as u32, max_hp: h.max_hp as u32, defense: h.defense as u32 }),
        None => None::<HealthStats>,
    }
    &&& o.grass == raw.grass
    &&& o.foreground == raw.foreground
    &&& super::opt_drops_match(o.loot, raw.loot, items)
    &&& o.impact_sound == raw.impact_sound
}

/// Whether a raw object can be read: its health fits and its loot resolves.
pub open spec fn raw_obj_ok(raw: RawWorldObject, game_data: GameData) -> bool {
    &&& (raw.health_stats matches Some(h) ==> h.max_hp <= u32::MAX && h.defense <= u32::MAX)
    &&& (raw.loot matches Some(l) ==> forall|i: int| 0 <= i < l.loot_table@.len() ==> super::raw_loot_ok(#[trigger] l.loot_table@[i], game_data.items.data@))
}

impl WorldObjectDatabase {
    pub fn empty() -> (db: Self)
        ensures
            db.data@.len() == 0,
    {
        Self { data: Vec::new() }
    }

    /// The database of the raw world objects, their loot item names turned into item ids.
    pub fn from_raw(world_objs: &Vec<RawWorldObject>, game_data: &GameData) -> (db: Self)
        requires
            forall|i: int| 0 <= i < world_objs@.len() ==> raw_obj_ok(#[trigger] world_objs@[i], *game_data),
        ensures
            db.data@.len() == world_objs@.len(),
            forall|i: int| 0 <= i < world_objs@.len() ==> obj_matches(#[trigger] db.data@[i], world_objs@[i], game_data.items.data@),
    {
        let mut data: Vec<WorldObject> = Vec::new();
        let mut i: usize = 0;
        while i < world_objs.len()
            invariant
                i <= world_objs@.len(),
                forall|k: int| 0 <= k < world_objs@.len() ==> raw_obj_ok(#[trigger] world_objs@[k], *game_data),
                data@.len() == i,
                forall|k: int| 0 <= k < i ==> obj_matches(#[trigger] data@[k], world_objs@[k], game_data.items.data@),
            decreases world_objs@.len() - i,
        {
            let raw = &world_objs[i];
            assert(raw_obj_ok(world_objs@[i as int], *game_data));
            let health_stats = match raw.health_stats {
                Some(hs) => Some(HealthStats::new(hs.max_hp as u32, hs.defense as u32)),
                None => None,
            };
            let loot = match &raw.loot {
                Some(l) => Some(Drops::from_raw(l, game_data)),
                None => None,
            };
            data.push(WorldObject {
                identifier: ObjectID(raw.identifier),
                name: raw.name.clone(),
                atlas_index: raw.atlas_index,
                is_blocking: raw.is_blocking,
                breakable: crate::text::clone_opt_string(&raw.breakable),
                health_stats,
                grass: crate::text::clone_opt_string(&raw.grass),
                foreground: raw.foreground,
                loot,
                impact_sound: raw.impact_sound.clone(),
            });
            i = i + 1;
        }
        WorldObjectDatabase { data }
    }

    /// The first world object named `name`.
    pub fn get_by_name(&self, name: &str) -> (r: Option<&WorldObject>)
        ensures
            r == match obj_by_name(self.data@, name@) {
                Some(k) => Some(&self.data@[k]),
                None => None::<&WorldObject>,
            },
    {
        let ghost p = obj_name_pred(name@);
        let mut i: usize = 0;
        while i < self.data.len()
            invariant
                i <= self.data@.len(),
                p == obj_name_pred(name@),
                forall|j: int| 0 <= j < i ==> !p(self.data@[j]),
            decreases self.data@.len() - i,
        {
            if crate::components::str_eq(self.data[i].name.as_str(), name) {
                proof { crate::search::lemma_first_index_is(self.data@, p, i as int); }
                return Some(&self.data[i]);
            }
            i = i + 1;
        }
        proof { crate::search::lemma_first_index_none(self.data@, p); }
        None
    }

    /// The first world object with identifier `id`.
    pub fn get_by_id(&self, id: usize) -> (r: Option<&WorldObject>)
        ensures
            r == match obj_by_id(self.data@, id) {
                Some(k) => Some(&self.data@[k]),
                None => None::<&WorldObject>,
            },
    {
        let ghost p = obj_id_pred(id);
        let mut i: usize = 0;
        while i < self.data.len()
            invariant
                i <= self.data@.len(),
                p == obj_id_pred(id),
                forall|j: int| 0 <= j < i ==> !p(self.data@[j]),
            decreases self.data@.len() - i,
        {
            if self.data[i].identifier.0 == id {
                proof { crate::search::lemma_first_index_is(self.data@, p, i as int); }
                return Some(&self.data[i]);
            }
            i = i + 1;
        }
        proof { crate::search::lemma_first_index_none(self.data@, p); }
        None
    }
}

/// What an entity built from a world object gets: its name, its sprite when it has a
/// foreground color, whether it blocks, what breaks it, whether it is grass, and its health.
pub struct WorldObjPlan {
    pub name: String,
    pub sprite: Option<(u8, (u8, u8, u8))>,
    pub blocking: bool,
    pub breakable: Option<Breakable>,
    pub grass: bool,
    pub health: Option<HealthStats>,
}

/// Attempts to create the specified entity: what it is made of, or an error when no object has
/// that name or its breakable tool is not a known tool.
pub fn build_world_obj(db: &WorldObjectDatabase, name: &str) -> (r: Result<WorldObjPlan, EntityBuildError>)
    ensures
        match obj_by_name(db.data@, name@) {
            None => r is Err,
            Some(k) => {
                let o = db.data@[k];
                if o.breakable matches Some(b) && tool_named(b@) is None {
                    r is Err
                } else {
                    r matches Ok(p) && {
                        &&& p.name == o.name
                        &&& p.sprite == match o.foreground {
                            Some(f) => Some((o.atlas_index, f)),
                            None => None::<(u8, (u8, u8, u8))>,
                        }
                        &&& p.blocking == o.is_blocking
                        &&& p.breakable == match o.breakable {
                            Some(b) => Some(Breakable { by: tool_named(b@)->0 }),
                            None => None::<Breakable>,
                        }
                        &&& p.grass == (o.grass is Some)
                        &&& p.health == o.health_stats
                    }
                }
            },
        },
{
    let raw = match db.get_by_name(name) {
        Some(raw) => raw,
        None => return Err(EntityBuildError),
    };
    let sprite = match raw.foreground {
        Some(f) => Some((raw.atlas_index, f)),
        None => None,
    };
    let breakable = match &raw.breakable {
        Some(b) => match Breakable::from_str(b.as_str()) {
            Ok(t) => Some(t),
            Err(e) => return Err(e),
        },
        None => None,
    };
    Ok(WorldObjPlan {
        name: raw.name.clone(),
        sprite,
        blocking: raw.is_blocking,
        breakable,
        grass: raw.grass.is_some(),
        health: raw.health_stats,
    })
}

} // verus!
