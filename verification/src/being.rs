use vstd::prelude::*;
use crate::stats::Stats;
use crate::droptables::Drops;

verus! {

/// Identifies the static data of a being.
#[derive(Debug, Copy, Clone, PartialEq, Eq, Structural)]
pub struct BeingID(pub u32);

/// How a being behaves: its starting mode (`random_walk` or `goal`), and for goal seekers the
/// names of what it seeks and how far it looks (0: any distance).
pub struct AIDefinition {
    pub start_mode: String,
    pub goals: Option<Vec<String>>,
    pub goal_range: Option<usize>,
}

/// A behaviour definition as a value.
pub open spec fn ai_view(a: AIDefinition) -> (String, Option<Seq<String>>, Option<usize>) {
    (a.start_mode, match a.goals {
        Some(g) => Some(g@),
        None => None::<Seq<String>>,
    }, a.goal_range)
}

/// An optional behaviour definition as a value.
pub open spec fn opt_ai_view(a: Option<AIDefinition>) -> Option<(String, Option<Seq<String>>, Option<usize>)> {
    match a {
        Some(d) => Some(ai_view(d)),
        None => None,
    }
}

/// An optional list of texts as a value.
pub open spec fn opt_strings_view(o: Option<Vec<String>>) -> Option<Seq<String>> {
    match o {
        Some(v) => Some(v@),
        None => None,
    }
}

/// The static data of a being.
pub struct Being {
    pub identifier: BeingID,
    pub name: String,
    pub ai: Option<AIDefinition>,
    pub is_blocking: bool,
    pub atlas_index: u8,
    pub fg: (u8, u8, u8),
    pub quips: Option<Vec<String>>,
    pub stats: Stats,
    pub loot: Option<Drops>,
}

} // verus!

verus! {

use crate::components::{EntityId, MoveAction, Point, Position, BreakAction};
use crate::map::{TileMap, TileEntity, manhattan, is_walk, is_shortest_walk, best_index};
use crate::data_read::beings::{BeingDatabase, being_by_name};

broadcast use crate::search::lemma_first_index;

/// Seeks the nearest entity whose name is one of `desires`, within `goal_range` (0: any
/// distance); `current` is the entity it goes for.
pub struct GoalMoverAI {
    pub desires: Vec<String>,
    pub goal_range: usize,
    pub current: Option<EntityId>,
}

impl GoalMoverAI {
    pub fn with_desires(desires: &Vec<String>, goal_range: usize) -> (g: Self)
        ensures
            g.desires@ == desires@,
            g.goal_range == goal_range,
            g.current is None,
    {
        GoalMoverAI { desires: crate::data_read::beings::copy_strings(desires), goal_range, current: None }
    }
}

/// Whether `name` is among the desires.
pub open spec fn desired(desires: Seq<String>, name: Seq<char>) -> bool {
    exists|i: int| 0 <= i < desires.len() && (#[trigger] desires[i])@ == name
}

/// The candidates an entity `mover` may go for: those other than itself whose name it desires.
pub open spec fn goal_candidates(mover: EntityId, desires: Seq<String>, cands: Seq<(EntityId, String, Position)>) -> Seq<(EntityId, String, Position)>
    decreases cands.len(),
{
    if cands.len() == 0 {
        cands
    } else {
        let rest = goal_candidates(mover, desires, cands.drop_last());
        let c = cands.last();
        if desired(desires, c.1@) && c.0 != mover { rest.push(c) } else { rest }
    }
}

/// Whether a goal at distance `dist` is within `range` (a range of 0 has no limit).
pub open spec fn within_range(dist: int, range: usize) -> bool {
    dist < range || range == 0
}

/// The first of the candidates within range at the smallest distance from `from`, with that
/// distance; distances from 1000000 up are not taken.
pub open spec fn closest_goal(from: Position, range: usize, cands: Seq<(EntityId, String, Position)>) -> (Option<EntityId>, int)
    decreases cands.len(),
{
    if cands.len() == 0 {
        (None, 1000000)
    } else {
        let best = closest_goal(from, range, cands.drop_last());
        let c = cands.last();
        let d = manhattan(from, c.2);
        if within_range(d, range) && d < best.1 { (Some(c.0), d) } else { best }
    }
}

/// What a goal seeker finds.
#[derive(Debug, Copy, Clone, PartialEq, Eq, Structural)]
pub enum GoalSearch {
    /// Nothing it desires is left: it turns into a random walker.
    NoGoals,
    /// The goal it goes for now, if any is in range.
    Found(Option<EntityId>),
}

/// Picks goals for the goal seekers that have none.
pub struct GoalFindEntities;

fn name_desired(desires: &Vec<String>, name: &String) -> (r: bool)
    ensures
        r == desired(desires@, name@),
{
    let mut i: usize = 0;
    while i < desires.len()
        invariant
            i <= desires@.len(),
            forall|k: int| 0 <= k < i ==> (#[trigger] desires@[k])@ != name@,
        decreases desires@.len() - i,
    {
        if desires[i] == *name {
            return true;
        }
        i = i + 1;
    }
    false
}

impl GoalFindEntities {
    /// The goal for the seeker `mover` at `mover_pos` among the named, placed entities `cands`.
    pub fn decide(mover: EntityId, mover_pos: Position, ai: &GoalMoverAI, cands: &Vec<(EntityId, String, Position)>) -> (r: GoalSearch)
        requires
            forall|i: int| 0 <= i < cands@.len() ==> manhattan(mover_pos, (#[trigger] cands@[i]).2) <= u32::MAX,
        ensures
            r == if goal_candidates(mover, ai.desires@, cands@).len() == 0 {
                GoalSearch::NoGoals
            } else {
                GoalSearch::Found(closest_goal(mover_pos, ai.goal_range, goal_candidates(mover, ai.desires@, cands@)).0)
            },
            r matches GoalSearch::Found(Some(e)) ==> exists|k: int| 0 <= k < cands@.len()
                && #[trigger] goal_ok(mover, ai.desires@, mover_pos, ai.goal_range, cands@[k])
                && cands@[k].0 == e
                && forall|j: int| 0 <= j < cands@.len() && goal_ok(mover, ai.desires@, mover_pos, ai.goal_range, #[trigger] cands@[j])
                    ==> manhattan(mover_pos, cands@[k].2) <= manhattan(mover_pos, cands@[j].2),
    {
        proof { lemma_goal_is_nearest(mover, mover_pos, ai.desires@, ai.goal_range, cands@); }
        let mut found = false;
        let mut best: Option<EntityId> = None;
        let mut best_dist: u32 = 1000000;
        let mut i: usize = 0;
        while i < cands.len()
            invariant
                i <= cands@.len(),
                forall|k: int| 0 <= k < cands@.len() ==> manhattan(mover_pos, (#[trigger] cands@[k]).2) <= u32::MAX,
                found == (goal_candidates(mover, ai.desires@, cands@.take(i as int)).len() > 0),
                best == closest_goal(mover_pos, ai.goal_range, goal_candidates(mover, ai.desires@, cands@.take(i as int))).0,
                best_dist == closest_goal(mover_pos, ai.goal_range, goal_candidates(mover, ai.desires@, cands@.take(i as int))).1,
            decreases cands@.len() - i,
        {
            let ghost rest = goal_candidates(mover, ai.desires@, cands@.take(i as int));
            proof {
                assert(cands@.take(i as int + 1).drop_last() =~= cands@.take(i as int));
                assert(cands@.take(i as int + 1).last() == cands@[i as int]);
                assert(rest.push(cands@[i as int]).drop_last() =~= rest);
            }
            let c = &cands[i];
            if name_desired(&ai.desires, &c.1) && c.0 != mover {
                found = true;
                let d = crate::map::distance(&mover_pos, &c.2);
                if ((d as usize) < ai.goal_range || ai.goal_range == 0) && d < best_dist {
                    best = Some(c.0);
                    best_dist = d;
                }
            }
            i = i + 1;
        }
        assert(cands@.take(cands@.len() as int) =~= cands@);
        if !found {
            GoalSearch::NoGoals
        } else {
            GoalSearch::Found(best)
        }
    }
}

/// Whether the candidate `c` is one the seeker `mover` at `pos` may go for: another entity,
/// with a desired name, within range.
pub open spec fn goal_ok(mover: EntityId, desires: Seq<String>, pos: Position, range: usize, c: (EntityId, String, Position)) -> bool {
    &&& c.0 != mover
    &&& desired(desires, c.1@)
    &&& within_range(manhattan(pos, c.2), range)
}

/// A goal seeker goes for a nearest goal: the goal it picks (as `GoalFindEntities::decide`
/// finds it) is a desired entity other than itself, within range, and no desired entity within
/// range is strictly closer; when it picks none, no desired entity lies within range (closer
/// than the search's cut-off of 1000000 steps).
pub proof fn lemma_goal_is_nearest(
    mover: EntityId,
    pos: Position,
    desires: Seq<String>,
    range: usize,
    cands: Seq<(EntityId, String, Position)>,
)
    ensures
        ({
            let r = closest_goal(pos, range, goal_candidates(mover, desires, cands));
            &&& (r.0 is None) == (r.1 == 1000000)
            &&& r.1 <= 1000000
            &&& forall|j: int| 0 <= j < cands.len() && goal_ok(mover, desires, pos, range, #[trigger] cands[j])
                ==> r.1 <= manhattan(pos, cands[j].2)
            &&& (r.0 matches Some(e) ==> exists|k: int| 0 <= k < cands.len()
                && #[trigger] goal_ok(mover, desires, pos, range, cands[k])
                && cands[k].0 == e && manhattan(pos, cands[k].2) == r.1)
        }),
    decreases cands.len(),
{
    if cands.len() > 0 {
        let rest = cands.drop_last();
        lemma_goal_is_nearest(mover, pos, desires, range, rest);
        let c = cands.last();
        let g = goal_candidates(mover, desires, rest);
        let prev = closest_goal(pos, range, g);
        let r = closest_goal(pos, range, goal_candidates(mover, desires, cands));
        let n = cands.len() - 1;
        assert(cands[n] == c);
        assert forall|j: int| 0 <= j < n implies #[trigger] cands[j] == rest[j] by {}
        if desired(desires, c.1@) && c.0 != mover {
            assert(g.push(c).drop_last() =~= g);
            assert(goal_candidates(mover, desires, cands) == g.push(c));
        } else {
            assert(goal_candidates(mover, desires, cands) == g);
        }
        assert forall|j: int| 0 <= j < cands.len() && goal_ok(mover, desires, pos, range, #[trigger] cands[j])
            implies r.1 <= manhattan(pos, cands[j].2) by {
            if j < n {
                assert(cands[j] == rest[j]);
                assert(goal_ok(mover, desires, pos, range, rest[j]));
            }
        }
        if let Some(e) = r.0 {
            if r == prev {
                let k = choose|k: int| 0 <= k < rest.len()
                    && #[trigger] goal_ok(mover, desires, pos, range, rest[k])
                    && rest[k].0 == e && manhattan(pos, rest[k].2) == prev.1;
                assert(cands[k] == rest[k]);
                assert(goal_ok(mover, desires, pos, range, cands[k]));
            } else {
                assert(goal_ok(mover, desires, pos, range, cands[n]));
            }
        }
    }
}

/// The next step of a goal seeker.
#[derive(Debug, Copy, Clone, PartialEq, Eq, Structural)]
pub enum GoalStep {
    /// It has no goal.
    Idle,
    /// Its goal has no position any more: it forgets it.
    Forget,
    /// Its goal is next to it (or under it): it attacks.
    Attack(EntityId),
    /// It steps onto this position of a shortest walk to its goal.
    MoveTo(Position),
    /// No walk leads to its goal: it stays.
    NoPath,
}

/// Moves the goal seekers towards their goals.
pub struct GoalMoveToEntities;

impl GoalMoveToEntities {
    /// The step of a seeker at `mover_pos` whose goal is `current`, at `goal_pos`. The path
    /// search adds up costs in a `u32`, so the goal's distance plus twice the number of cells,
    /// plus two, must fit one.
    pub fn decide(map: &TileMap, mover_pos: Position, current: Option<EntityId>, goal_pos: Option<Position>) -> (r: GoalStep)
        requires
            map.wf(),
            map.width < i32::MAX,
            map.height < i32::MAX,
            mover_pos.x < i32::MAX,
            mover_pos.y < i32::MAX,
            goal_pos matches Some(g) ==> g.x < i32::MAX && g.y < i32::MAX
                && manhattan(mover_pos, g) + 2 * (map.width * map.height) + 2 <= u32::MAX,
        ensures
            match (current, goal_pos) {
                (None, _) => r == GoalStep::Idle,
                (Some(_), None) => r == GoalStep::Forget,
                (Some(t), Some(g)) => if manhattan(mover_pos, g) < 2 {
                    r == GoalStep::Attack(t)
                } else {
                    match r {
                        GoalStep::MoveTo(p) => exists|w: Seq<Position>, c: u32|
                            is_shortest_walk(*map, mover_pos, g, w, c) && w[1] == p,
                        GoalStep::NoPath => forall|w: Seq<Position>| !is_walk(*map, mover_pos, g, w),
                        _ => false,
                    }
                },
            },
    {
        let target = match current {
            None => return GoalStep::Idle,
            Some(t) => t,
        };
        let goal = match goal_pos {
            None => return GoalStep::Forget,
            Some(g) => g,
        };
        if crate::map::distance(&mover_pos, &goal) < 2 {
            return GoalStep::Attack(target);
        }
        match crate::map::astar_path(map, &mover_pos, &goal) {
            None => GoalStep::NoPath,
            Some((path, cost)) => {
                if path.len() > 1 {
                    let ghost w = path@;
                    assert(is_shortest_walk(*map, mover_pos, goal, w, cost) && w[1] == path@[1]);
                    GoalStep::MoveTo(path[1])
                } else {
                    assert(path@[0] == mover_pos && path@.last() == goal);
                    GoalStep::NoPath
                }
            },
        }
    }
}

/// Moves every entity that wants to move.
pub struct HandleMoveActions;

impl HandleMoveActions {
    /// The positions after each entity with a move request (the first one for it) stands at
    /// its new position.
    pub fn run(&mut self, moves: &Vec<(EntityId, MoveAction)>, positions: &mut Vec<(EntityId, Position)>)
        ensures
            final(positions)@.len() == old(positions)@.len(),
            forall|i: int| 0 <= i < old(positions)@.len() ==> (#[trigger] final(positions)@[i]).0 == old(positions)@[i].0,
            forall|i: int| 0 <= i < old(positions)@.len() ==> (#[trigger] final(positions)@[i]).1 == match crate::search::first_index(moves@, move_pred(old(positions)@[i].0)) {
                Some(k) => moves@[k].1.new_pos,
                None => old(positions)@[i].1,
            },
    {
        let ghost orig = positions@;
        let mut i: usize = 0;
        while i < positions.len()
            invariant
                i <= positions@.len(),
                positions@.len() == orig.len(),
                forall|k: int| 0 <= k < orig.len() ==> (#[trigger] positions@[k]).0 == orig[k].0,
                forall|k: int| i <= k < orig.len() ==> (#[trigger] positions@[k]) == orig[k],
                forall|k: int| 0 <= k < i ==> (#[trigger] positions@[k]).1 == match crate::search::first_index(moves@, move_pred(orig[k].0)) {
                    Some(m) => moves@[m].1.new_pos,
                    None => orig[k].1,
                },
            decreases positions@.len() - i,
        {
            let e = positions[i].0;
            match find_move(moves, e) {
                Some(m) => {
                    positions.set(i, (e, moves[m].1.new_pos));
                },
                None => {},
            }
            i = i + 1;
        }
    }
}

/// The predicate "is a move of entity `e`".
pub open spec fn move_pred(e: EntityId) -> spec_fn((EntityId, MoveAction)) -> bool {
    |m: (EntityId, MoveAction)| m.0 == e
}

fn find_move(moves: &Vec<(EntityId, MoveAction)>, e: EntityId) -> (r: Option<usize>)
    ensures
        match r {
            Some(k) => crate::search::first_index(moves@, move_pred(e)) == Some(k as int),
            None => crate::search::first_index(moves@, move_pred(e)) is None,
        },
{
    let ghost p = move_pred(e);
    let mut i: usize = 0;
    while i < moves.len()
        invariant
            i <= moves@.len(),
            p == move_pred(e),
            forall|j: int| 0 <= j < i ==> !p(moves@[j]),
        decreases moves@.len() - i,
    {
        if moves[i].0 == e {
            proof { crate::search::lemma_first_index_is(moves@, p, i as int); }
            return Some(i);
        }
        i = i + 1;
    }
    proof { crate::search::lemma_first_index_none(moves@, p); }
    None
}

/// What a random walker does this turn.
#[derive(Debug, Copy, Clone, PartialEq, Eq, Structural)]
pub enum WalkStep {
    /// It stays where it is.
    Stay,
    /// It says its first quip.
    Quip,
    /// It moves to this position.
    MoveTo(Position),
    /// It tries to break this entity and moves onto its position.
    BreakAndMove(EntityId, Position),
    /// Its target lies off the map or on something in the way: no walker moves any more this
    /// turn.
    Halt,
}

/// The direction that a roll out of 100 picks: right, down, up or left; none for other rolls.
pub open spec fn roll_direction(roll: usize) -> Option<(int, int)> {
    if roll <= 10 {
        Some((1, 0))
    } else if roll <= 20 {
        Some((0, 1))
    } else if roll <= 30 {
        Some((0, -1))
    } else if roll <= 40 {
        Some((-1, 0))
    } else {
        None
    }
}

/// What a random walker at `pos` does for the roll `roll` (out of 100).
pub open spec fn spec_walk_step(map: TileMap, pos: Position, roll: usize) -> WalkStep {
    match roll_direction(roll) {
        None => if 98 <= roll { WalkStep::Quip } else { WalkStep::Stay },
        Some((dx, dy)) => {
            let x = pos.x + dx;
            let y = pos.y + dy;
            if !map.spec_in_bounds(x, y) {
                WalkStep::Halt
            } else {
                let target = Position { x: x as usize, y: y as usize };
                let cell = map.entities_at(x, y);
                if cell.len() == 0 {
                    WalkStep::MoveTo(target)
                } else {
                    match cell[best_index(cell)] {
                        TileEntity::Item(_) => WalkStep::MoveTo(target),
                        TileEntity::Breakable(t) => WalkStep::BreakAndMove(t, target),
                        _ => WalkStep::Halt,
                    }
                }
            }
        },
    }
}

/// `step` is what a walker at `pos` does for some roll below 100.
pub open spec fn step_possible(map: TileMap, pos: Position, step: WalkStep) -> bool {
    exists|roll: usize| roll < 100 && step == #[trigger] spec_walk_step(map, pos, roll)
}

/// Each step is what its walker does for some roll below 100.
pub open spec fn steps_from_rolls(map: TileMap, walkers: Seq<Position>, steps: Seq<WalkStep>) -> bool {
    forall|i: int| 0 <= i < steps.len() ==> #[trigger] step_possible(map, walkers[i], steps[i])
}

proof fn lemma_steps_from_rolls(map: TileMap, walkers: Seq<Position>, steps: Seq<WalkStep>, rolls: Seq<usize>)
    requires
        rolls.len() == steps.len(),
        steps.len() <= walkers.len(),
        forall|k: int| 0 <= k < steps.len() ==> rolls[k] < 100 && #[trigger] steps[k] == spec_walk_step(map, walkers[k], rolls[k]),
    ensures
        steps_from_rolls(map, walkers, steps),
{
    assert forall|k: int| 0 <= k < steps.len() implies #[trigger] step_possible(map, walkers[k], steps[k]) by {
        assert(rolls[k] < 100 && steps[k] == spec_walk_step(map, walkers[k], rolls[k]));
    }
}

/// Mainly used for early testing but it's somewhat useful
/// Random Cardinal Directional Movement or RCDM for short
pub struct RandomMonsterMovementSystem;

impl RandomMonsterMovementSystem {
    /// What a random walker at `pos` does for the roll `roll` (below 100).
    pub fn walk_step(map: &TileMap, pos: Position, roll: usize) -> (r: WalkStep)
        requires
            map.wf(),
            map.width <= i32::MAX,
            map.height <= i32::MAX,
            pos.x < i32::MAX,
            pos.y < i32::MAX,
            roll < 100,
        ensures
            r == spec_walk_step(*map, pos, roll),
    {
        let (dx, dy): (i32, i32) = if roll <= 10 {
            (1, 0)
        } else if roll <= 20 {
            (0, 1)
        } else if roll <= 30 {
            (0, -1)
        } else if roll <= 40 {
            (-1, 0)
        } else if roll <= 97 {
            return WalkStep::Stay;
        } else {
            return WalkStep::Quip;
        };
        let target = Point::new(pos.x as i32 + dx, pos.y as i32 + dy);
        if !map.in_bounds(target) {
            return WalkStep::Halt;
        }
        let target_pos = Position::from_point(target);
        match map.first_entity_in_pos(&target_pos) {
            None => WalkStep::MoveTo(target_pos),
            Some(TileEntity::Item(_)) => WalkStep::MoveTo(target_pos),
            Some(TileEntity::Breakable(t)) => WalkStep::BreakAndMove(t, target_pos),
            Some(_) => WalkStep::Halt,
        }
    }

    /// The steps of the random walkers at `walkers`, in order, each for a fresh roll; the list
    /// ends early with `Halt` when a walker's target lies off the map or is in the way.
    pub fn run(&mut self, map: &TileMap, walkers: &Vec<Position>) -> (r: Vec<WalkStep>)
        requires
            map.wf(),
            map.width <= i32::MAX,
            map.height <= i32::MAX,
            forall|i: int| 0 <= i < walkers@.len() ==> (#[trigger] walkers@[i]).x < i32::MAX && walkers@[i].y < i32::MAX,
        ensures
            r@.len() <= walkers@.len(),
            r@.len() < walkers@.len() ==> r@.len() > 0 && r@.last() == WalkStep::Halt,
            steps_from_rolls(*map, walkers@, r@),
            forall|i: int| 0 <= i < r@.len() - 1 ==> r@[i] != WalkStep::Halt,
    {
        let mut rng = crate::rng::rng_new();
        let mut r: Vec<WalkStep> = Vec::new();
        let ghost mut rolls: Seq<usize> = Seq::empty();
        let mut i: usize = 0;
        while i < walkers.len()
            invariant
                map.wf(),
                map.width <= i32::MAX,
                map.height <= i32::MAX,
                forall|k: int| 0 <= k < walkers@.len() ==> (#[trigger] walkers@[k]).x < i32::MAX && walkers@[k].y < i32::MAX,
                i <= walkers@.len(),
                r@.len() == i,
                rolls.len() == i,
                forall|k: int| 0 <= k < i ==> rolls[k] < 100 && #[trigger] r@[k] == spec_walk_step(*map, walkers@[k], rolls[k]),
                forall|k: int| 0 <= k < r@.len() ==> r@[k] != WalkStep::Halt,
            decreases walkers@.len() - i,
        {
            let roll = crate::rng::rng_range(&mut rng, 0, 100);
            let step = Self::walk_step(map, walkers[i], roll);
            r.push(step);
            proof { rolls = rolls.push(roll); }
            if step == WalkStep::Halt {
                proof { lemma_steps_from_rolls(*map, walkers@, r@, rolls); }
                return r;
            }
            i = i + 1;
        }
        proof { lemma_steps_from_rolls(*map, walkers@, r@, rolls); }
        r
    }
}

/// The first quip of the being named `name`, if it has any.
pub fn say_random_quip(db: &BeingDatabase, name: &str) -> (r: Option<String>)
    ensures
        r == match being_by_name(db.data@, name@) {
            Some(k) => match db.data@[k].quips {
                Some(q) => if q@.len() > 0 { Some(q@[0]) } else { None::<String> },
                None => None::<String>,
            },
            None => None::<String>,
        },
{
    match db.get_by_name(name) {
        Some(being) => match &being.quips {
            Some(q) => if q.len() > 0 { Some(q[0].clone()) } else { None },
            None => None,
        },
        None => None,
    }
}

/// How long, in nanoseconds, the monsters hold still while the player is bound to an activity.
pub const MONSTER_ACTION_DELAY: u64 = 1_000_000_000;

/// Adds the frame's `dt` nanoseconds to the time the monsters have waited; whether they have now
/// waited long enough to act.
pub fn check_monster_delay(monster_delay: &mut u64, dt: u64) -> (r: bool)
    requires
        *old(monster_delay) + dt <= u64::MAX,
    ensures
        *final(monster_delay) == *old(monster_delay) + dt,
        r == (*final(monster_delay) >= MONSTER_ACTION_DELAY),
{
    *monster_delay = *monster_delay + dt;
    *monster_delay >= MONSTER_ACTION_DELAY
}

} // verus!
