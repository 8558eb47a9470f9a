use vstd::prelude::*;
use crate::components::{spec_idx_to_xy, Position};
use crate::layout::{FONT_TERRAIN_FOREST, FONT_TERRAIN_TOWN_FOREST};
use crate::map::{TileMap, WorldTile};
use crate::text::{lowercase, to_lowercase};

verus! {

/// The file the levels are designed in.
pub const LDTK_FILE: &'static str = "./resources/ldtk/rpg_world_v2.ldtk";

/// One tile of a designed level: its terrain sprite, the entity placed on it (name and tag),
/// and its collision value.
pub struct LevelTile {
    pub atlas_index: usize,
    pub entity_name: Option<String>,
    pub entity_tag: Option<String>,
    pub value: usize,
}

/// A designed level: its size, where it lies in the world, its tileset, and its tiles in row
/// major order.
pub struct LevelDesign {
    pub width: usize,
    pub height: usize,
    pub world_xy: (usize, usize),
    pub tileset_name: String,
    pub tiles: Vec<LevelTile>,
}

/// What a level puts into the world besides its map.
pub enum LevelSpawn {
    /// An item of this name lying here.
    Item(String, Position),
    /// A world object of this name standing here.
    WorldObject(String, Position),
    /// A being of this name standing here.
    Being(String, Position),
    /// Something that blocks the way here.
    Blocker(Position),
    /// Water, which blocks the way, here.
    Water(Position),
    /// An entity with a tag that is none of the above (the name and the tag).
    InvalidTag(String, String),
    /// A collision value that is not known, at this tile index.
    InvalidValue(usize),
}

/// A spawn as values.
pub enum SpawnView {
    Item(Seq<char>, Position),
    WorldObject(Seq<char>, Position),
    Being(Seq<char>, Position),
    Blocker(Position),
    Water(Position),
    InvalidTag(Seq<char>, Seq<char>),
    InvalidValue(usize),
}

impl View for LevelSpawn {
    type V = SpawnView;

    open spec fn view(&self) -> SpawnView {
        match self {
            LevelSpawn::Item(n, p) => SpawnView::Item(n@, *p),
            LevelSpawn::WorldObject(n, p) => SpawnView::WorldObject(n@, *p),
            LevelSpawn::Being(n, p) => SpawnView::Being(n@, *p),
            LevelSpawn::Blocker(p) => SpawnView::Blocker(*p),
            LevelSpawn::Water(p) => SpawnView::Water(*p),
            LevelSpawn::InvalidTag(n, t) => SpawnView::InvalidTag(n@, t@),
            LevelSpawn::InvalidValue(i) => SpawnView::InvalidValue(*i),
        }
    }
}

/// The font of a tileset: the town forest or, for any other name, the forest (names compared
/// in lower case).
pub open spec fn tileset_font(name: Seq<char>) -> usize {
    if lowercase(name) == "terrain_town_forest"@ { FONT_TERRAIN_TOWN_FOREST } else { FONT_TERRAIN_FOREST }
}

/// The position of tile `idx` of a level of width `w`.
pub open spec fn tile_pos(idx: int, w: int) -> Position {
    Position { x: spec_idx_to_xy(idx, w).0 as usize, y: spec_idx_to_xy(idx, w).1 as usize }
}

/// What tile `idx` of a level puts into the world: the tagged entity on it, then what its
/// collision value makes (nothing for 0, a blocker for 1, water for 2).
pub open spec fn tile_spawns(t: LevelTile, idx: int, w: int) -> Seq<SpawnView> {
    let pos = tile_pos(idx, w);
    let entity: Seq<SpawnView> = match (t.entity_name, t.entity_tag) {
        (Some(n), Some(tag)) => if tag@ == "Item"@ {
            seq![SpawnView::Item(n@, pos)]
        } else if tag@ == "Interactable"@ {
            seq![SpawnView::WorldObject(n@, pos)]
        } else if tag@ == "Being"@ {
            seq![SpawnView::Being(n@, pos)]
        } else {
            seq![SpawnView::InvalidTag(n@, tag@)]
        },
        _ => Seq::empty(),
    };
    let collision: Seq<SpawnView> = if t.value == 0 {
        Seq::empty()
    } else if t.value == 1 {
        seq![SpawnView::Blocker(pos)]
    } else if t.value == 2 {
        seq![SpawnView::Water(pos)]
    } else {
        seq![SpawnView::InvalidValue(idx as usize)]
    };
    entity + collision
}

/// What the first tiles `ts` of a level put into the world, in order.
pub open spec fn level_spawns(ts: Seq<LevelTile>, w: int) -> Seq<SpawnView>
    decreases ts.len(),
{
    if ts.len() == 0 { Seq::empty() } else { level_spawns(ts.drop_last(), w) + tile_spawns(ts.last(), ts.len() - 1, w) }
}

/// The spawns as values.
pub open spec fn spawns_view(v: Seq<LevelSpawn>) -> Seq<SpawnView> {
    v.map_values(|s: LevelSpawn| s@)
}

/// The map of a designed level and what it puts into the world: the map has the level's size,
/// place and tileset font, each tile the sprite of the level's tile; the spawns come tile by
/// tile (`tile_spawns`).
pub fn create_map(level: &LevelDesign) -> (r: (TileMap, Vec<LevelSpawn>))
    requires
        level.width * level.height <= usize::MAX,
        level.width > 0,
        level.tiles@.len() <= level.width * level.height,
    ensures
        r.0.wf(),
        r.0.width == level.width,
        r.0.height == level.height,
        r.0.world_coords == (Position { x: level.world_xy.0, y: level.world_xy.1 }),
        r.0.tile_atlas_index == tileset_font(level.tileset_name@),
        forall|i: int| 0 <= i < level.tiles@.len() ==> #[trigger] r.0.tiles@[i] == (WorldTile { atlas_index: level.tiles@[i].atlas_index }),
        forall|i: int| level.tiles@.len() <= i < level.width * level.height ==> #[trigger] r.0.tiles@[i] == (WorldTile { atlas_index: 4 }),
        forall|i: int| 0 <= i < level.width * level.height ==> (#[trigger] r.0.tile_entities@[i])@.len() == 0,
        spawns_view(r.1@) == level_spawns(level.tiles@, level.width as int),
{
    let mut map = TileMap::new(level.width, level.height, level.world_xy);
    let lower = to_lowercase(level.tileset_name.as_str());
    proof { reveal_strlit("terrain_town_forest"); }
    map.tile_atlas_index = if crate::components::str_eq(lower.as_str(), "terrain_town_forest") {
        FONT_TERRAIN_TOWN_FOREST
    } else {
        FONT_TERRAIN_FOREST
    };
    let ghost fresh = map.tiles@;
    let mut spawns: Vec<LevelSpawn> = Vec::new();
    let mut idx: usize = 0;
    while idx < level.tiles.len()
        invariant
            idx <= level.tiles@.len(),
            level.tiles@.len() <= level.width * level.height,
            level.width > 0,
            map.wf(),
            map.width == level.width,
            map.height == level.height,
            map.world_coords == (Position { x: level.world_xy.0, y: level.world_xy.1 }),
            map.tile_atlas_index == tileset_font(level.tileset_name@),
            forall|i: int| 0 <= i < level.width * level.height ==> (#[trigger] map.tile_entities@[i])@.len() == 0,
            forall|i: int| 0 <= i < idx ==> #[trigger] map.tiles@[i] == (WorldTile { atlas_index: level.tiles@[i].atlas_index }),
            forall|i: int| idx <= i < level.width * level.height ==> #[trigger] map.tiles@[i] == (WorldTile { atlas_index: 4 }),
            spawns_view(spawns@) == level_spawns(level.tiles@.take(idx as int), level.width as int),
        decreases level.tiles@.len() - idx,
    {
        let ghost before = spawns_view(spawns@);
        let tile = &level.tiles[idx];
        map.tiles.set(idx, WorldTile { atlas_index: tile.atlas_index });
        let pos = Position::from_idx(idx, level.width);
        proof {
            reveal_strlit("Item");
            reveal_strlit("Interactable");
            reveal_strlit("Being");
        }
        match (&tile.entity_name, &tile.entity_tag) {
            (Some(name), Some(tag)) => {
                if crate::components::str_eq(tag.as_str(), "Item") {
                    spawns.push(LevelSpawn::Item(name.clone(), pos));
                } else if crate::components::str_eq(tag.as_str(), "Interactable") {
                    spawns.push(LevelSpawn::WorldObject(name.clone(), pos));
                } else if crate::components::str_eq(tag.as_str(), "Being") {
                    spawns.push(LevelSpawn::Being(name.clone(), pos));
                } else {
                    spawns.push(LevelSpawn::InvalidTag(name.clone(), tag.clone()));
                }
            },
            _ => {},
        }
        if tile.value == 0 {
        } else if tile.value == 1 {
            spawns.push(LevelSpawn::Blocker(pos));
        } else if tile.value == 2 {
            spawns.push(LevelSpawn::Water(pos));
        } else {
            spawns.push(LevelSpawn::InvalidValue(idx));
        }
        proof {
            assert(level.tiles@.take(idx as int + 1).drop_last() =~= level.tiles@.take(idx as int));
            assert(level.tiles@.take(idx as int + 1).last() == level.tiles@[idx as int]);
            assert(pos == tile_pos(idx as int, level.width as int));
            assert(spawns_view(spawns@) =~= before + tile_spawns(level.tiles@[idx as int], idx as int, level.width as int));
        }
        idx = idx + 1;
    }
    assert(level.tiles@.take(idx as int) =~= level.tiles@);
    (map, spawns)
}

} // verus!
