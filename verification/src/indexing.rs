use vstd::prelude::*;
use crate::components::{EntityId, Position};
use crate::map::{spec_xy_to_idx, TileEntity, TileMap};

verus! {

// The systems that index entities on the tiles of the map, so that what stands on a tile can be
// looked up quickly.

/// The entity lists of the map's tiles, as values.
pub open spec fn cells_view(m: TileMap) -> Seq<Seq<TileEntity>> {
    m.tile_entities@.map_values(|c: Vec<TileEntity>| c@)
}

/// Which kind of entity an index records.
#[derive(Debug, Copy, Clone, PartialEq, Eq, Structural)]
pub enum IndexKind {
    Blocking,
    Breakable,
    Fishable,
}

/// The tile entity an index records for `e`.
pub open spec fn tile_entry(kind: IndexKind, e: EntityId) -> TileEntity {
    match kind {
        IndexKind::Blocking => TileEntity::Blocking(e),
        IndexKind::Breakable => TileEntity::Breakable(e),
        IndexKind::Fishable => TileEntity::Fishable(e),
    }
}

/// The entity lists after each entity of `ents`, in order, is added to the list of its tile.
pub open spec fn indexed(cells: Seq<Seq<TileEntity>>, ents: Seq<(EntityId, Position)>, width: int, kind: IndexKind) -> Seq<Seq<TileEntity>>
    decreases ents.len(),
{
    if ents.len() == 0 {
        cells
    } else {
        let c = indexed(cells, ents.drop_last(), width, kind);
        let (e, p) = ents.last();
        let i = spec_xy_to_idx(p.x as int, p.y as int, width);
        c.update(i, c[i].push(tile_entry(kind, e)))
    }
}

/// Clears the entity contents of every tile in the map
pub struct IndexReset;

impl IndexReset {
    pub fn run(&mut self, map: &mut TileMap)
        ensures
            final(map).tiles@ == old(map).tiles@,
            final(map).width == old(map).width,
            final(map).height == old(map).height,
            final(map).world_coords == old(map).world_coords,
            final(map).tile_atlas_index == old(map).tile_atlas_index,
            final(map).tile_entities@.len() == old(map).tile_entities@.len(),
            forall|i: int| 0 <= i < final(map).tile_entities@.len() ==> (#[trigger] final(map).tile_entities@[i])@.len() == 0,
    {
        let n = map.tile_entities.len();
        let mut cells: Vec<Vec<TileEntity>> = Vec::new();
        let mut i: usize = 0;
        while i < n
            invariant
                i <= n,
                cells@.len() == i,
                forall|k: int| 0 <= k < i ==> (#[trigger] cells@[k])@.len() == 0,
            decreases n - i,
        {
            cells.push(Vec::new());
            i = i + 1;
        }
        map.tile_entities = cells;
    }
}

/// Adds the entities `ents` (entity, position), in order, to the lists of their tiles.
fn index_entities(map: &mut TileMap, ents: &Vec<(EntityId, Position)>, kind: IndexKind)
    requires
        old(map).wf(),
        forall|i: int| 0 <= i < ents@.len() ==> old(map).spec_in_bounds((#[trigger] ents@[i]).1.x as int, ents@[i].1.y as int),
    ensures
        final(map).wf(),
        final(map).tiles@ == old(map).tiles@,
        final(map).width == old(map).width,
        final(map).height == old(map).height,
        final(map).world_coords == old(map).world_coords,
        final(map).tile_atlas_index == old(map).tile_atlas_index,
        cells_view(*final(map)) == indexed(cells_view(*old(map)), ents@, old(map).width as int, kind),
{
    let mut i: usize = 0;
    while i < ents.len()
        invariant
            i <= ents@.len(),
            map.wf(),
            map.tiles@ == old(map).tiles@,
            map.width == old(map).width,
            map.height == old(map).height,
            map.world_coords == old(map).world_coords,
            map.tile_atlas_index == old(map).tile_atlas_index,
            forall|k: int| 0 <= k < ents@.len() ==> old(map).spec_in_bounds((#[trigger] ents@[k]).1.x as int, ents@[k].1.y as int),
            cells_view(*map) == indexed(cells_view(*old(map)), ents@.take(i as int), old(map).width as int, kind),
        decreases ents@.len() - i,
    {
        let (e, pos) = ents[i];
        assert(old(map).spec_in_bounds(ents@[i as int].1.x as int, ents@[i as int].1.y as int));
        proof {
            let w = map.width as int;
            let h = map.height as int;
            let x = pos.x as int;
            let y = pos.y as int;
            assert(0 <= x + y * w < w * h) by (nonlinear_arith)
                requires
                    0 <= x < w,
                    0 <= y < h;
            assert(ents@.take(i as int + 1).drop_last() =~= ents@.take(i as int));
        }
        let idx = map.xy_to_idx(pos.x, pos.y);
        let ghost before = cells_view(*map);
        let mut cell = map.tile_entities.remove(idx);
        let entry = match kind {
            IndexKind::Blocking => TileEntity::Blocking(e),
            IndexKind::Breakable => TileEntity::Breakable(e),
            IndexKind::Fishable => TileEntity::Fishable(e),
        };
        cell.push(entry);
        map.tile_entities.insert(idx, cell);
        assert(cells_view(*map) =~= before.update(idx as int, before[idx as int].push(tile_entry(kind, e))));
        i = i + 1;
    }
    assert(ents@.take(i as int) =~= ents@);
}

/// Records where blocking entities stand.
pub struct IndexBlockedTiles;

impl IndexBlockedTiles {
    /// Adds each blocking entity (entity, position), in order, to the list of its tile.
    pub fn run(&mut self, map: &mut TileMap, blockers: &Vec<(EntityId, Position)>)
        requires
            old(map).wf(),
            forall|i: int| 0 <= i < blockers@.len() ==> old(map).spec_in_bounds((#[trigger] blockers@[i]).1.x as int, blockers@[i].1.y as int),
        ensures
            final(map).wf(),
            final(map).tiles@ == old(map).tiles@,
            final(map).width == old(map).width,
            final(map).height == old(map).height,
            cells_view(*final(map)) == indexed(cells_view(*old(map)), blockers@, old(map).width as int, IndexKind::Blocking),
    {
        index_entities(map, blockers, IndexKind::Blocking);
    }
}

/// Records where breakable entities stand.
pub struct IndexBreakableTiles;

impl IndexBreakableTiles {
    /// Adds each breakable entity (entity, position), in order, to the list of its tile.
    pub fn run(&mut self, map: &mut TileMap, breakables: &Vec<(EntityId, Position)>)
        requires
            old(map).wf(),
            forall|i: int| 0 <= i < breakables@.len() ==> old(map).spec_in_bounds((#[trigger] breakables@[i]).1.x as int, breakables@[i].1.y as int),
        ensures
            final(map).wf(),
            final(map).tiles@ == old(map).tiles@,
            final(map).width == old(map).width,
            final(map).height == old(map).height,
            cells_view(*final(map)) == indexed(cells_view(*old(map)), breakables@, old(map).width as int, IndexKind::Breakable),
    {
        index_entities(map, breakables, IndexKind::Breakable);
    }
}

/// Records where fishing spots are.
pub struct IndexFishableTiles;

impl IndexFishableTiles {
    /// Adds each fishable entity (entity, position), in order, to the list of its tile.
    pub fn run(&mut self, map: &mut TileMap, fishables: &Vec<(EntityId, Position)>)
        requires
            old(map).wf(),
            forall|i: int| 0 <= i < fishables@.len() ==> old(map).spec_in_bounds((#[trigger] fishables@[i]).1.x as int, fishables@[i].1.y as int),
        ensures
            final(map).wf(),
            final(map).tiles@ == old(map).tiles@,
            final(map).width == old(map).width,
            final(map).height == old(map).height,
            cells_view(*final(map)) == indexed(cells_view(*old(map)), fishables@, old(map).width as int, IndexKind::Fishable),
    {
        index_entities(map, fishables, IndexKind::Fishable);
    }
}

} // verus!
