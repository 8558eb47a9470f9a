use vstd::prelude::*;
use crate::components::{EntityId, Point, Position};

verus! {

/// The colour white.
pub const WHITE: (u8, u8, u8) = (255, 255, 255);

/// The static terrain sprite of a map tile.
#[derive(Debug, Copy, Clone, PartialEq, Eq, Structural)]
pub struct WorldTile {
    pub atlas_index: usize,
}

impl WorldTile {
    pub fn default() -> (t: Self)
        ensures
            t.atlas_index == 4,
    {
        Self { atlas_index: 4 }
    }
}

/// Identifies the static data of a world object.
#[derive(Debug, Copy, Clone, PartialEq, Eq, Structural)]
pub struct ObjectID(pub usize);

/// The static data of a world object.
pub struct WorldObject {
    /// Unique id to find the world object's static data
    pub identifier: ObjectID,
    pub name: String,
    pub atlas_index: u8,
    pub is_blocking: bool,
    pub breakable: Option<String>,
    pub health_stats: Option<crate::components::HealthStats>,
    pub grass: Option<String>,
    pub foreground: Option<(u8, u8, u8)>,
    pub loot: Option<crate::droptables::Drops>,
    pub impact_sound: String,
}

/// Defines the type of entity existing in a tile for quick lookup and action handling; the
/// `priority` of each kind orders them for action handling, lower taking priority.
#[derive(Debug, Copy, Clone, PartialEq, Eq, Structural)]
pub enum TileEntity {
    Fishable(EntityId),
    Breakable(EntityId),
    Item(EntityId),
    Blocking(EntityId),
}

/// The priority of a tile entity for action handling; lower takes priority.
pub open spec fn priority(te: TileEntity) -> int {
    match te {
        TileEntity::Fishable(_) => 9,
        TileEntity::Breakable(_) => 15,
        TileEntity::Item(_) => 19,
        TileEntity::Blocking(_) => 20,
    }
}

impl TileEntity {
    /// Attempts to grab the inner entity if it is an item
    pub fn as_item_entity(&self) -> (r: Option<EntityId>)
        ensures
            r == match *self {
                TileEntity::Item(e) => Some(e),
                _ => None::<EntityId>,
            },
    {
        match self {
            TileEntity::Item(item) => Some(*item),
            _ => None,
        }
    }

    /// Tests if a `tile_entity` is Blocking variant
    pub fn is_blocker(&self) -> (r: bool)
        ensures
            r == (*self is Blocking),
    {
        match self {
            TileEntity::Blocking(_) => true,
            _ => false,
        }
    }

    fn priority(&self) -> (p: u8)
        ensures
            p == priority(*self),
    {
        match self {
            TileEntity::Fishable(_) => 9,
            TileEntity::Breakable(_) => 15,
            TileEntity::Item(_) => 19,
            TileEntity::Blocking(_) => 20,
        }
    }
}

/// The tiles of a level and the entities standing on each tile.
pub struct TileMap {
    pub tiles: Vec<WorldTile>,
    pub tile_entities: Vec<Vec<TileEntity>>,
    pub width: usize,
    pub height: usize,
    pub world_coords: Position,
    pub tile_atlas_index: usize,
}

/// The index of tile `(x, y)` in a row major grid of width `width`.
pub open spec fn spec_xy_to_idx(x: int, y: int, width: int) -> int {
    x + y * width
}

/// The first of the entities with the lowest priority value.
pub open spec fn best_index(s: Seq<TileEntity>) -> int
    decreases s.len(),
{
    if s.len() <= 1 {
        0
    } else {
        let b = best_index(s.drop_last());
        if priority(s.last()) < priority(s[b]) { s.len() - 1 } else { b }
    }
}

proof fn lemma_best_index(s: Seq<TileEntity>)
    requires
        s.len() > 0,
    ensures
        0 <= best_index(s) < s.len(),
    decreases s.len(),
{
    if s.len() > 1 {
        lemma_best_index(s.drop_last());
    }
}

/// The item entities among `s`, in order.
pub open spec fn items_only(s: Seq<TileEntity>) -> Seq<TileEntity>
    decreases s.len(),
{
    if s.len() == 0 {
        s
    } else if s.last() is Item {
        items_only(s.drop_last()).push(s.last())
    } else {
        items_only(s.drop_last())
    }
}

impl TileMap {
    /// The well-formedness of a map: one tile and one entity list per cell of the grid.
    pub open spec fn wf(&self) -> bool {
        &&& self.tiles@.len() == self.width * self.height
        &&& self.tile_entities@.len() == self.width * self.height
        &&& self.width * self.height <= usize::MAX
    }

    /// The entities on tile `(x, y)`.
    pub open spec fn entities_at(&self, x: int, y: int) -> Seq<TileEntity> {
        self.tile_entities@[spec_xy_to_idx(x, y, self.width as int)]@
    }

    /// Whether `(x, y)` is a cell of the map.
    pub open spec fn spec_in_bounds(&self, x: int, y: int) -> bool {
        0 <= x < self.width && 0 <= y < self.height
    }

    /// Whether some entity on tile `(x, y)` blocks movement.
    pub open spec fn spec_blocked(&self, x: int, y: int) -> bool {
        exists|i: int| 0 <= i < self.entities_at(x, y).len() && #[trigger] self.entities_at(x, y)[i] is Blocking
    }

    pub fn empty() -> (m: Self)
        ensures
            m.wf(),
            m.width == 0,
            m.height == 0,
            m.world_coords == Position::spec_new(0, 0),
            m.tile_atlas_index == 0,
    {
        Self {
            tiles: Vec::new(),
            tile_entities: Vec::new(),
            width: 0,
            height: 0,
            world_coords: Position::new(0, 0),
            tile_atlas_index: 0,
        }
    }

    /// Whether the map is well formed (`wf`): one tile and one entity list per cell of the grid.
    pub fn is_wf(&self) -> (r: bool)
        ensures
            r == self.wf(),
    {
        match self.width.checked_mul(self.height) {
            Some(n) => self.tiles.len() == n && self.tile_entities.len() == n,
            None => false,
        }
    }

    /// Whether `pos` is a cell of the map.
    pub fn contains(&self, pos: &Position) -> (r: bool)
        ensures
            r == self.spec_in_bounds(pos.x as int, pos.y as int),
    {
        pos.x < self.width && pos.y < self.height
    }

    /// A map of default tiles with no entities.
    pub fn new(width: usize, height: usize, world_coords: (usize, usize)) -> (m: Self)
        requires
            width * height <= usize::MAX,
        ensures
            m.wf(),
            m.width == width,
            m.height == height,
            m.world_coords == Position::spec_new(world_coords.0, world_coords.1),
            m.tile_atlas_index == 0,
            forall|i: int| 0 <= i < width * height ==> #[trigger] m.tiles@[i] == (WorldTile { atlas_index: 4 }),
            forall|i: int| 0 <= i < width * height ==> (#[trigger] m.tile_entities@[i])@.len() == 0,
    {
        let n = width * height;
        let mut tiles: Vec<WorldTile> = Vec::new();
        let mut tile_entities: Vec<Vec<TileEntity>> = Vec::new();
        let mut i: usize = 0;
        while i < n
            invariant
                i <= n,
                tiles@.len() == i,
                tile_entities@.len() == i,
                forall|k: int| 0 <= k < i ==> #[trigger] tiles@[k] == (WorldTile { atlas_index: 4 }),
                forall|k: int| 0 <= k < i ==> (#[trigger] tile_entities@[k])@.len() == 0,
            decreases n - i,
        {
            tiles.push(WorldTile::default());
            tile_entities.push(Vec::new());
            i = i + 1;
        }
        TileMap {
            tiles,
            tile_entities,
            width,
            height,
            world_coords: Position::new(world_coords.0, world_coords.1),
            tile_atlas_index: 0,
        }
    }

    pub fn xy_to_idx(&self, x: usize, y: usize) -> (i: usize)
        requires
            x + y * self.width <= usize::MAX,
        ensures
            i == spec_xy_to_idx(x as int, y as int, self.width as int),
    {
        xy_to_idx_given_width(x, y, self.width)
    }

    pub fn world_x(&self) -> (x: usize)
        ensures
            x == self.world_coords.x,
    {
        self.world_coords.x
    }

    pub fn world_y(&self) -> (y: usize)
        ensures
            y == self.world_coords.y,
    {
        self.world_coords.y
    }

    /// Gets all the entities in the tile that are an item.
    pub fn all_items_at_pos(&self, pos: &Position) -> (r: Vec<TileEntity>)
        requires
            self.wf(),
            self.spec_in_bounds(pos.x as int, pos.y as int),
        ensures
            r@ == items_only(self.entities_at(pos.x as int, pos.y as int)),
    {
        proof { lemma_cell_index(self, pos.x as int, pos.y as int); }
        let idx = self.xy_to_idx(pos.x, pos.y);
        let cell = &self.tile_entities[idx];
        let mut r: Vec<TileEntity> = Vec::new();
        let mut i: usize = 0;
        while i < cell.len()
            invariant
                i <= cell@.len(),
                r@ == items_only(cell@.take(i as int)),
            decreases cell@.len() - i,
        {
            proof {
                assert(cell@.take(i as int + 1).drop_last() =~= cell@.take(i as int));
            }
            if cell[i].as_item_entity().is_some() {
                r.push(cell[i]);
            }
            i = i + 1;
        }
        assert(cell@.take(cell@.len() as int) =~= cell@);
        r
    }

    /// Attempts to get the first entity at the pos based on the contents of the tile: the first
    /// of those with the lowest priority value (fishable, then breakable, then item, then
    /// blocking). Will return `None` if no entities are present in the tile
    pub fn first_entity_in_pos(&self, pos: &Position) -> (r: Option<TileEntity>)
        requires
            self.wf(),
            self.spec_in_bounds(pos.x as int, pos.y as int),
        ensures
            r == if self.entities_at(pos.x as int, pos.y as int).len() == 0 {
                None::<TileEntity>
            } else {
                Some(self.entities_at(pos.x as int, pos.y as int)[best_index(self.entities_at(pos.x as int, pos.y as int))])
            },
    {
        proof { lemma_cell_index(self, pos.x as int, pos.y as int); }
        let idx = self.xy_to_idx(pos.x, pos.y);
        let cell = &self.tile_entities[idx];
        if cell.len() == 0 {
            return None;
        }
        let mut best: usize = 0;
        let mut i: usize = 1;
        while i < cell.len()
            invariant
                1 <= i <= cell@.len(),
                best == best_index(cell@.take(i as int)),
                best < i,
            decreases cell@.len() - i,
        {
            proof {
                assert(cell@.take(i as int + 1).drop_last() =~= cell@.take(i as int));
                assert(cell@.take(i as int)[best as int] == cell@[best as int]);
            }
            if cell[i].priority() < cell[best].priority() {
                best = i;
            }
            i = i + 1;
        }
        assert(cell@.take(cell@.len() as int) =~= cell@);
        Some(cell[best])
    }

    /// Checks a position on the map to see if it is blocked
    pub fn is_blocked(&self, pos: &Position) -> (r: bool)
        requires
            self.wf(),
            self.spec_in_bounds(pos.x as int, pos.y as int),
        ensures
            r == self.spec_blocked(pos.x as int, pos.y as int),
    {
        proof { lemma_cell_index(self, pos.x as int, pos.y as int); }
        let idx = self.xy_to_idx(pos.x, pos.y);
        let cell = &self.tile_entities[idx];
        let mut i: usize = 0;
        while i < cell.len()
            invariant
                i <= cell@.len(),
                cell@ == self.entities_at(pos.x as int, pos.y as int),
                forall|k: int| 0 <= k < i ==> !(#[trigger] cell@[k] is Blocking),
            decreases cell@.len() - i,
        {
            if cell[i].is_blocker() {
                return true;
            }
            i = i + 1;
        }
        false
    }

    /// Whether the point lies on the map.
    pub fn in_bounds(&self, pos: Point) -> (r: bool)
        requires
            self.width <= i32::MAX,
            self.height <= i32::MAX,
        ensures
            r == self.spec_in_bounds(pos.x as int, pos.y as int),
    {
        pos.x >= 0 && pos.x < self.width as i32 && pos.y >= 0 && pos.y < self.height as i32
    }
}

proof fn lemma_cell_index(m: &TileMap, x: int, y: int)
    requires
        m.wf(),
        m.spec_in_bounds(x, y),
    ensures
        0 <= spec_xy_to_idx(x, y, m.width as int) < m.width * m.height,
        spec_xy_to_idx(x, y, m.width as int) <= usize::MAX,
{
    let w = m.width as int;
    let h = m.height as int;
    assert(0 <= x + y * w < w * h) by (nonlinear_arith)
        requires
            0 <= x < w,
            0 <= y < h;
    assert(w * h == m.tiles@.len());
}

impl Position {
    pub open spec fn spec_new(x: usize, y: usize) -> Position {
        Position { x, y }
    }
}

/// If the struct requires the ability to convert xy to 1d idx make it call this
pub fn xy_to_idx_given_width(x: usize, y: usize, width: usize) -> (i: usize)
    requires
        x + y * width <= usize::MAX,
    ensures
        i == spec_xy_to_idx(x as int, y as int, width as int),
{
    proof {
        assert(y * width >= 0) by (nonlinear_arith) requires y >= 0, width >= 0;
    }
    x + y * width
}


/// The absolute difference of two integers.
pub open spec fn abs_diff(a: int, b: int) -> int {
    if a >= b { a - b } else { b - a }
}

/// The Manhattan distance between two positions.
pub open spec fn manhattan(a: Position, b: Position) -> int {
    abs_diff(a.x as int, b.x as int) + abs_diff(a.y as int, b.y as int)
}

/// Manhattan distance: the sum of the differences of the coordinates.
pub fn distance(lhs: &Position, rhs: &Position) -> (d: u32)
    requires
        manhattan(*lhs, *rhs) <= u32::MAX,
    ensures
        d == manhattan(*lhs, *rhs),
{
    let dx = if lhs.x >= rhs.x { lhs.x - rhs.x } else { rhs.x - lhs.x };
    let dy = if lhs.y >= rhs.y { lhs.y - rhs.y } else { rhs.y - lhs.y };
    dx as u32 + dy as u32
}

/// Whether the search has reached its destination.
pub fn is_goal(curr_pos: &Position, dest_pos: &Position) -> (r: bool)
    ensures
        r == (*curr_pos == *dest_pos),
{
    curr_pos == dest_pos
}

/// `acc` with the cell `(x, y)` appended at cost one, when it lies on the map and is not blocked.
pub open spec fn add_if_open(map: TileMap, acc: Seq<(Position, u32)>, x: int, y: int) -> Seq<(Position, u32)> {
    if map.spec_in_bounds(x, y) && !map.spec_blocked(x, y) {
        acc.push((Position { x: x as usize, y: y as usize }, 1u32))
    } else {
        acc
    }
}

/// The neighbours of `curr` that can be walked to, in the order down, right, up, left, each at
/// cost one.
pub open spec fn spec_successors(map: TileMap, curr: Position) -> Seq<(Position, u32)> {
    let x = curr.x as int;
    let y = curr.y as int;
    add_if_open(map, add_if_open(map, add_if_open(map, add_if_open(map, Seq::empty(), x, y + 1), x + 1, y), x, y - 1), x - 1, y)
}

/// Whether one can step from `a` to `b`: `b` is a neighbour of `a` on the map that is not
/// blocked.
pub open spec fn can_step(map: TileMap, a: Position, b: Position) -> bool {
    manhattan(a, b) == 1 && map.spec_in_bounds(b.x as int, b.y as int) && !map.spec_blocked(b.x as int, b.y as int)
}

/// `p` is a walk from `start` to `goal` over cells one can step to.
pub open spec fn is_walk(map: TileMap, start: Position, goal: Position, p: Seq<Position>) -> bool {
    &&& p.len() >= 1
    &&& p[0] == start
    &&& p.last() == goal
    &&& forall|i: int| 0 <= i < p.len() - 1 ==> can_step(map, #[trigger] p[i], p[i + 1])
}

/// `p` is a walk from `start` to `goal` with no shorter one, and `cost` is its number of steps.
pub open spec fn is_shortest_walk(map: TileMap, start: Position, goal: Position, p: Seq<Position>, cost: u32) -> bool {
    &&& is_walk(map, start, goal, p)
    &&& cost == p.len() - 1
    &&& forall|q: Seq<Position>| is_walk(map, start, goal, q) ==> q.len() >= p.len()
}

impl TileMap {
    fn in_bounds_xy(&self, x: i32, y: i32) -> (r: bool)
        requires
            self.width <= i32::MAX,
            self.height <= i32::MAX,
        ensures
            r == self.spec_in_bounds(x as int, y as int),
    {
        self.in_bounds(Point::new(x, y))
    }
}

fn push_if_open(map: &TileMap, acc: &mut Vec<(Position, u32)>, x: i32, y: i32)
    requires
        map.wf(),
        map.width <= i32::MAX,
        map.height <= i32::MAX,
    ensures
        final(acc)@ == add_if_open(*map, old(acc)@, x as int, y as int),
{
    if map.in_bounds_xy(x, y) {
        let new_pos = Position::new(x as usize, y as usize);
        if !map.is_blocked(&new_pos) {
            acc.push((new_pos, 1));
        }
    }
}

/// The neighbours of `curr` that can be walked to, each at cost one.
pub fn successors(map: &TileMap, curr: &Position) -> (r: Vec<(Position, u32)>)
    requires
        map.wf(),
        map.width <= i32::MAX,
        map.height <= i32::MAX,
        curr.x < i32::MAX,
        curr.y < i32::MAX,
    ensures
        r@ == spec_successors(*map, *curr),
{
    let x = curr.x as i32;
    let y = curr.y as i32;
    let mut successors: Vec<(Position, u32)> = Vec::new();
    push_if_open(map, &mut successors, x, y + 1);
    push_if_open(map, &mut successors, x + 1, y);
    push_if_open(map, &mut successors, x, y - 1);
    push_if_open(map, &mut successors, x - 1, y);
    successors
}

/// `pathfinding::prelude::astar` from `start` to `goal` over `successors` with the Manhattan
/// `distance` as heuristic. Its documentation promises a shortest path (start and end included)
/// with its total cost whenever the heuristic never overestimates, which the Manhattan distance
/// on unit steps does not, and `None` when no path exists; a path here is a walk over steps of
/// cost one. The positions the search reaches stay below `i32::MAX` in both coordinates. Each
/// cost it records is the length of a walk to a cell (the heuristic is consistent, so an
/// expanded cell has its shortest one), at most one more than the number of cells, and the
/// heuristic at a cell is at most that cost plus the distance from start to goal; so every
/// `cost + heuristic` it adds up is at most `2 * (width * height + 1)` plus that distance, which
/// the `requires` keep within a `u32`.
#[verifier::external_body]
pub(crate) fn astar_path(map: &TileMap, start: &Position, goal: &Position) -> (r: Option<(Vec<Position>, u32)>)
    requires
        map.wf(),
        manhattan(*start, *goal) + 2 * (map.width * map.height) + 2 <= u32::MAX,
        map.width < i32::MAX,
        map.height < i32::MAX,
        start.x < i32::MAX,
        start.y < i32::MAX,
        goal.x < i32::MAX,
        goal.y < i32::MAX,
    ensures
        match r {
            Some((path, cost)) => is_shortest_walk(*map, *start, *goal, path@, cost),
            None => forall|q: Seq<Position>| !is_walk(*map, *start, *goal, q),
        },
{
    pathfinding::prelude::astar(start, |p| successors(map, p), |p| distance(p, goal), |p| is_goal(p, goal))
}

} // verus!
