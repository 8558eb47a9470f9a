use vstd::prelude::*;
use crate::combat::{damage_added, damage_pred, dealt_text, no_damage_text, DamageStore};
use crate::components::{BreakAction, Breakable, EntityId, EntityStats, HealthStats, SufferDamage, ToolType};
use crate::data_read::world_objs::{obj_by_name, WorldObjectDatabase};
use crate::message_log::{lines_view, LogLine, MessageType};
use crate::search::first_index;
use crate::text::decimal_text;

verus! {

broadcast use crate::search::lemma_first_index;

/// Whether the breaker owns the tool `tool`: only bare hands are owned.
pub open spec fn tool_owned(tool: ToolType) -> bool {
    tool == ToolType::Hand
}

/// Whether the breaker owns the tool `tool_type`.
fn inventory_contains_tool(tool_type: &ToolType) -> (r: bool)
    ensures
        r == tool_owned(*tool_type),
{
    match tool_type {
        ToolType::Hand => true,
        _ => false,
    }
}

/// An entity that breaks things: its strength and its name.
pub struct Breaker {
    pub entity: EntityId,
    pub stats: EntityStats,
    pub name: String,
}

/// An entity that can be broken: its name, the tool it needs and its health.
pub struct BreakTarget {
    pub entity: EntityId,
    pub name: String,
    pub breakable: Breakable,
    pub health: HealthStats,
}

/// The predicate "is the tile `e`".
pub open spec fn tile_pred(e: EntityId) -> spec_fn(BreakTarget) -> bool {
    |t: BreakTarget| t.entity == e
}

/// What one strike does.
pub enum StrikeResult {
    /// The breaker lacks the tool the tile needs.
    NoTool,
    /// The tile's defense is above the breaker's strength.
    NoDamage,
    /// The tile takes this much damage.
    Damage(int),
}

/// What the strike `a` does: `None` when its target is no breakable tile.
pub open spec fn strike_result(a: (Breaker, BreakAction), tiles: Seq<BreakTarget>) -> Option<StrikeResult> {
    match first_index(tiles, tile_pred(a.1.target)) {
        None => None,
        Some(t) => if !tool_owned(tiles[t].breakable.by) {
            Some(StrikeResult::NoTool)
        } else if tiles[t].health.defense > a.0.stats.set.strength {
            Some(StrikeResult::NoDamage)
        } else {
            Some(StrikeResult::Damage(a.0.stats.set.strength - tiles[t].health.defense))
        },
    }
}

/// The message when the breaker named `name` lacks the tool.
pub open spec fn no_tool_text(name: Seq<char>) -> Seq<char> {
    "You do not own the correct tool for this "@ + name + "."@
}

/// The message of one strike.
pub open spec fn strike_lines(a: (Breaker, BreakAction), tiles: Seq<BreakTarget>) -> Seq<(MessageType, Seq<char>)> {
    match strike_result(a, tiles) {
        None => Seq::empty(),
        Some(StrikeResult::NoTool) => seq![(MessageType::INFO, no_tool_text(a.0.name@))],
        Some(StrikeResult::NoDamage) => seq![(MessageType::INFO, no_damage_text())],
        Some(StrikeResult::Damage(d)) => {
            let t = first_index(tiles, tile_pred(a.1.target))->0;
            seq![(MessageType::INFO, dealt_text(a.0.name@, d as nat, tiles[t].name@))]
        },
    }
}

/// The impact sound of the world object named `name`, or no sound.
pub open spec fn impact_sound_of(db: WorldObjectDatabase, name: Seq<char>) -> Seq<char> {
    match obj_by_name(db.data@, name) {
        Some(o) => db.data@[o].impact_sound@,
        None => Seq::empty(),
    }
}

/// What the strikes `strikes` give, in order: messages, damage queued, the sounds the player's
/// strikes make, and the tiles that were hit.
pub open spec fn strikes_outcome(
    strikes: Seq<(Breaker, BreakAction)>,
    tiles: Seq<BreakTarget>,
    player: EntityId,
    db: WorldObjectDatabase,
    s: Seq<(EntityId, Seq<i32>)>,
) -> (Seq<(MessageType, Seq<char>)>, Seq<(EntityId, Seq<i32>)>, Seq<Seq<char>>, Seq<EntityId>)
    decreases strikes.len(),
{
    if strikes.len() == 0 {
        (Seq::empty(), s, Seq::empty(), Seq::empty())
    } else {
        let (lines, store, sounds, hit) = strikes_outcome(strikes.drop_last(), tiles, player, db, s);
        let a = strikes.last();
        let lines2 = lines + strike_lines(a, tiles);
        match strike_result(a, tiles) {
            Some(StrikeResult::Damage(d)) => {
                let t = first_index(tiles, tile_pred(a.1.target))->0;
                let sounds2 = if a.0.entity == player { sounds.push(impact_sound_of(db, tiles[t].name@)) } else { sounds };
                (lines2, damage_added(store, a.1.target, (-d) as i32), sounds2, hit.push(tiles[t].entity))
            },
            _ => (lines2, store, sounds, hit),
        }
    }
}

/// What the tile destruction system gives back: messages, the sounds to play, and the tiles that
/// were hit (to animate).
pub struct StrikeReport {
    pub lines: Vec<LogLine>,
    pub sounds: Vec<String>,
    pub hit: Vec<EntityId>,
}

/// The texts of a list as values.
pub open spec fn strings_view(v: Seq<String>) -> Seq<Seq<char>> {
    v.map_values(|s: String| s@)
}

/// Allows tile to be breakable. The tile must contain a breakable and health stats component.
/// The attacker must contain a strength and have breakactions queued up in their system.
/// This checks the tile is breakable by the entity given certain conditions
pub struct TileDestructionSystem;

impl TileDestructionSystem {
    /// Carries out the strikes in order: a strike at a breakable tile, by a breaker who owns the
    /// tool it needs, deals the strength less the tile's defense (nothing when the defense is
    /// greater), queued negated for the tile; a strike of the player sounds the tile's impact.
    /// The strikes are dropped.
    pub fn run(
        &mut self,
        strikes: &mut Vec<(Breaker, BreakAction)>,
        tiles: &Vec<BreakTarget>,
        player: EntityId,
        db: &WorldObjectDatabase,
        store: &mut DamageStore,
    ) -> (r: StrikeReport)
        requires
            forall|i: int| 0 <= i < old(strikes)@.len() ==> (#[trigger] old(strikes)@[i]).0.stats.set.strength <= i32::MAX,
        ensures
            ({
                let (lines, s, sounds, hit) = strikes_outcome(old(strikes)@, tiles@, player, *db, old(store)@);
                &&& lines_view(r.lines@) == lines
                &&& final(store)@ == s
                &&& strings_view(r.sounds@) == sounds
                &&& r.hit@ == hit
            }),
            final(strikes)@.len() == 0,
    {
        let mut taken: Vec<(Breaker, BreakAction)> = Vec::new();
        std::mem::swap(&mut taken, strikes);
        let strikes = &taken;
        let mut lines: Vec<LogLine> = Vec::new();
        let mut sounds: Vec<String> = Vec::new();
        let mut hit: Vec<EntityId> = Vec::new();
        let mut i: usize = 0;
        while i < strikes.len()
            invariant
                i <= strikes@.len(),
                forall|k: int| 0 <= k < strikes@.len() ==> (#[trigger] strikes@[k]).0.stats.set.strength <= i32::MAX,
                ({
                    let (l, s, so, h) = strikes_outcome(strikes@.take(i as int), tiles@, player, *db, old(store)@);
                    &&& lines_view(lines@) == l
                    &&& store@ == s
                    &&& strings_view(sounds@) == so
                    &&& hit@ == h
                }),
            decreases strikes@.len() - i,
        {
            proof {
                assert(strikes@.take(i as int + 1).drop_last() =~= strikes@.take(i as int));
            }
            let ghost lines_before = lines_view(lines@);
            let ghost sounds_before = strings_view(sounds@);
            let (breaker, action) = &strikes[i];
            assert(strikes@[i as int].0.stats.set.strength <= i32::MAX);
            let ghost tp = tile_pred(action.target);
            let mut t: usize = 0;
            let mut found = false;
            while !found && t < tiles.len()
                invariant
                    t <= tiles@.len(),
                    tp == tile_pred(action.target),
                    forall|j: int| 0 <= j < t ==> !tp(tiles@[j]),
                    found ==> t < tiles@.len() && tp(tiles@[t as int]),
                decreases tiles@.len() - t + if found { 0int } else { 1int },
            {
                if tiles[t].entity == action.target {
                    found = true;
                } else {
                    t = t + 1;
                }
            }
            if found {
                proof { crate::search::lemma_first_index_is(tiles@, tp, t as int); }
                let tile = &tiles[t];
                let strength = breaker.stats.set.strength;
                if !inventory_contains_tool(&tile.breakable.by) {
                    proof { reveal_strlit("You do not own the correct tool for this "); reveal_strlit("."); }
                    let mut text = String::from_str("You do not own the correct tool for this ");
                    text.append(breaker.name.as_str());
                    text.append(".");
                    lines.push(LogLine::new(MessageType::INFO, text));
                } else if tile.health.defense as usize > strength {
                    proof { reveal_strlit("Took no damage because defense is greater"); }
                    lines.push(LogLine::new(MessageType::INFO, String::from_str("Took no damage because defense is greater")));
                } else {
                    let damage = strength - tile.health.defense as usize;
                    let mut text = breaker.name.clone();
                    proof { reveal_strlit(" dealt "); reveal_strlit(" damage to "); }
                    text.append(" dealt ");
                    let amount = decimal_text(damage);
                    text.append(amount.as_str());
                    text.append(" damage to ");
                    text.append(tile.name.as_str());
                    lines.push(LogLine::new(MessageType::INFO, text));
                    SufferDamage::new_damage(store, action.target, -(damage as i32));
                    if breaker.entity == player {
                        let sound = match db.get_by_name(tile.name.as_str()) {
                            Some(info) => info.impact_sound.clone(),
                            None => String::new(),
                        };
                        sounds.push(sound);
                        assert(strings_view(sounds@) =~= sounds_before.push(impact_sound_of(*db, tile.name@)));
                    }
                    hit.push(tile.entity);
                }
            } else {
                proof { crate::search::lemma_first_index_none(tiles@, tp); }
            }
            assert(lines_view(lines@) =~= lines_before + strike_lines(strikes@[i as int], tiles@));
            i = i + 1;
        }
        assert(strikes@.take(i as int) =~= strikes@);
        StrikeReport { lines, sounds, hit }
    }
}

/// The sum of the amounts.
pub open spec fn amount_sum(s: Seq<i32>) -> int
    decreases s.len(),
{
    if s.len() == 0 { 0 } else { amount_sum(s.drop_last()) + s.last() }
}

/// Whether every running sum of the amounts fits an `i32`.
pub open spec fn sums_fit(s: Seq<i32>) -> bool {
    forall|k: int| 0 <= k <= s.len() ==> i32::MIN <= #[trigger] amount_sum(s.take(k)) <= i32::MAX
}

/// Health after the amounts are added to its hit points, which do not go below zero.
pub open spec fn damaged(h: HealthStats, amounts: Seq<i32>) -> HealthStats {
    let n = h.hp + amount_sum(amounts);
    HealthStats { hp: if n >= 0 { n as u32 } else { 0 }, ..h }
}

/// The damage queued for `e`, if any.
pub open spec fn damage_of(store: Seq<(EntityId, Seq<i32>)>, e: EntityId) -> Option<Seq<i32>> {
    match first_index(store, damage_pred(e)) {
        Some(k) => Some(store[k].1),
        None => None,
    }
}

/// Whether the damage queued for the entity of `p` can be applied without leaving `i32`.
pub open spec fn damage_fits(store: Seq<(EntityId, Seq<i32>)>, p: (EntityId, HealthStats)) -> bool {
    match damage_of(store, p.0) {
        Some(a) => p.1.hp <= i32::MAX && sums_fit(a) && p.1.hp + amount_sum(a) <= i32::MAX,
        None => true,
    }
}

/// Applies the damage queued up for entities to their health.
pub struct DamageSystem;

/// The amounts summed up, in an `i32`.
fn sum_amounts(a: &Vec<i32>) -> (t: i32)
    requires
        sums_fit(a@),
    ensures
        t == amount_sum(a@),
{
    let mut t: i32 = 0;
    let mut k: usize = 0;
    while k < a.len()
        invariant
            k <= a@.len(),
            sums_fit(a@),
            t == amount_sum(a@.take(k as int)),
        decreases a@.len() - k,
    {
        assert(a@.take(k as int + 1).drop_last() =~= a@.take(k as int));
        assert(i32::MIN <= amount_sum(a@.take(k as int + 1)) <= i32::MAX);
        t = t + a[k];
        k = k + 1;
    }
    assert(a@.take(k as int) =~= a@);
    t
}

/// Whether `hp` fits an `i32` and the amounts can be summed up in an `i32` and added to it.
fn amounts_fit(hp: u32, a: &Vec<i32>) -> (r: bool)
    ensures
        r == (hp <= i32::MAX && sums_fit(a@) && hp + amount_sum(a@) <= i32::MAX),
{
    if hp > i32::MAX as u32 {
        return false;
    }
    let mut t: i64 = 0;
    let mut k: usize = 0;
    assert(a@.take(0) =~= Seq::<i32>::empty());
    while k < a.len()
        invariant
            k <= a@.len(),
            hp <= i32::MAX,
            t == amount_sum(a@.take(k as int)),
            forall|m: int| 0 <= m <= k ==> i32::MIN <= #[trigger] amount_sum(a@.take(m)) <= i32::MAX,
        decreases a@.len() - k,
    {
        assert(a@.take(k as int + 1).drop_last() =~= a@.take(k as int));
        assert(i32::MIN <= amount_sum(a@.take(k as int)) <= i32::MAX);
        t = t + a[k] as i64;
        if t < i32::MIN as i64 || t > i32::MAX as i64 {
            assert(!(i32::MIN <= amount_sum(a@.take(k as int + 1)) <= i32::MAX));
            return false;
        }
        k = k + 1;
    }
    assert(a@.take(k as int) =~= a@);
    hp as i64 + t <= i32::MAX as i64
}

/// Whether the damage queued in `store` can be applied to every health of `healths`, the
/// condition `DamageSystem::run` asks.
pub fn check_damage(healths: &Vec<(EntityId, HealthStats)>, store: &DamageStore) -> (r: bool)
    ensures
        r == forall|i: int| 0 <= i < healths@.len() ==> damage_fits(store@, #[trigger] healths@[i]),
{
    let mut i: usize = 0;
    while i < healths.len()
        invariant
            i <= healths@.len(),
            store@.len() == store.entries@.len(),
            forall|k: int| 0 <= k < i ==> damage_fits(store@, #[trigger] healths@[k]),
        decreases healths@.len() - i,
    {
        let (e, h) = healths[i];
        let ghost p = damage_pred(e);
        let mut j: usize = 0;
        let mut found = false;
        while !found && j < store.entries.len()
            invariant
                j <= store@.len(),
                store@.len() == store.entries@.len(),
                p == damage_pred(e),
                forall|m: int| 0 <= m < j ==> !p(store@[m]),
                found ==> j < store@.len() && p(store@[j as int]),
            decreases store@.len() - j + if found { 0int } else { 1int },
        {
            if store.entries[j].0 == e {
                found = true;
            } else {
                j = j + 1;
            }
        }
        if found {
            proof { crate::search::lemma_first_index_is(store@, p, j as int); }
            if !amounts_fit(h.hp, &store.entries[j].1.amount) {
                assert(!damage_fits(store@, healths@[i as int]));
                return false;
            }
        } else {
            proof { crate::search::lemma_first_index_none(store@, p); }
        }
        assert(damage_fits(store@, healths@[i as int]));
        i = i + 1;
    }
    true
}

impl DamageSystem {
    /// Adds to each health the sum of the amounts queued for its entity (its hit points do not
    /// go below zero), then empties the queue.
    pub fn run(&mut self, healths: &mut Vec<(EntityId, HealthStats)>, store: &mut DamageStore)
        requires
            forall|i: int| 0 <= i < old(healths)@.len() ==> damage_fits(old(store)@, #[trigger] old(healths)@[i]),
        ensures
            final(healths)@.len() == old(healths)@.len(),
            forall|i: int| 0 <= i < old(healths)@.len() ==> #[trigger] final(healths)@[i] == match damage_of(old(store)@, old(healths)@[i].0) {
                Some(a) => (old(healths)@[i].0, damaged(old(healths)@[i].1, a)),
                None => old(healths)@[i],
            },
            final(store)@ == Seq::<(EntityId, Seq<i32>)>::empty(),
    {
        let mut i: usize = 0;
        while i < healths.len()
            invariant
                i <= healths@.len(),
                healths@.len() == old(healths)@.len(),
                store@ == old(store)@,
                store@.len() == store.entries@.len(),
                forall|k: int| 0 <= k < old(healths)@.len() ==> damage_fits(old(store)@, #[trigger] old(healths)@[k]),
                forall|k: int| i <= k < healths@.len() ==> #[trigger] healths@[k] == old(healths)@[k],
                forall|k: int| 0 <= k < i ==> #[trigger] healths@[k] == match damage_of(old(store)@, old(healths)@[k].0) {
                    Some(a) => (old(healths)@[k].0, damaged(old(healths)@[k].1, a)),
                    None => old(healths)@[k],
                },
            decreases healths@.len() - i,
        {
            let (e, h) = healths[i];
            assert(damage_fits(old(store)@, old(healths)@[i as int]));
            let ghost p = damage_pred(e);
            let mut j: usize = 0;
            let mut found = false;
            while !found && j < store.entries.len()
                invariant
                    j <= store@.len(),
                    store@.len() == store.entries@.len(),
                    p == damage_pred(e),
                    forall|m: int| 0 <= m < j ==> !p(store@[m]),
                    found ==> j < store@.len() && p(store@[j as int]),
                decreases store@.len() - j + if found { 0int } else { 1int },
            {
                if store.entries[j].0 == e {
                    found = true;
                } else {
                    j = j + 1;
                }
            }
            if found {
                proof { crate::search::lemma_first_index_is(store@, p, j as int); }
                let dealt = sum_amounts(&store.entries[j].1.amount);
                let new_hp: i32 = h.hp as i32 + dealt;
                let hp: u32 = if new_hp >= 0 { new_hp as u32 } else { 0 };
                healths.set(i, (e, HealthStats { hp, ..h }));
            } else {
                proof { crate::search::lemma_first_index_none(store@, p); }
            }
            i = i + 1;
        }
        store.clear();
    }
}

/// Finds the dead.
pub struct RemoveDeadTiles;

impl RemoveDeadTiles {
    /// The entities, among those with a health and a name, whose hit points are zero: they are
    /// to be deleted.
    pub fn run(&mut self, ents: &Vec<(EntityId, HealthStats)>) -> (dead: Vec<EntityId>)
        ensures
            dead@ == ents@.filter(|p: (EntityId, HealthStats)| p.1.hp == 0).map_values(|p: (EntityId, HealthStats)| p.0),
    {
        let mut dead: Vec<EntityId> = Vec::new();
        let mut i: usize = 0;
        while i < ents.len()
            invariant
                i <= ents@.len(),
                dead@ == ents@.take(i as int).filter(|p: (EntityId, HealthStats)| p.1.hp == 0).map_values(|p: (EntityId, HealthStats)| p.0),
            decreases ents@.len() - i,
        {
            let (e, h) = ents[i];
            proof {
                assert(ents@.take(i as int + 1).drop_last() =~= ents@.take(i as int));
                reveal(Seq::filter);
            }
            if h.hp == 0 {
                dead.push(e);
            }
            assert(dead@ =~= ents@.take(i as int + 1).filter(|p: (EntityId, HealthStats)| p.1.hp == 0).map_values(|p: (EntityId, HealthStats)| p.0));
            i = i + 1;
        }
        assert(ents@.take(i as int) =~= ents@);
        dead
    }
}

/// Queueing damage for an entity adds the amount to the end of its queue (a new queue when it
/// had none) and leaves the queues of other entities as they were.
pub proof fn lemma_damage_queue(s: Seq<(EntityId, Seq<i32>)>, victim: EntityId, amount: i32, other: EntityId)
    ensures
        damage_of(damage_added(s, victim, amount), victim) == Some(match damage_of(s, victim) {
            Some(q) => q.push(amount),
            None => seq![amount],
        }),
        other != victim ==> damage_of(damage_added(s, victim, amount), other) == damage_of(s, other),
{
    assert(crate::store::key_pred::<Seq<i32>>(victim) =~= damage_pred(victim));
    assert(crate::store::key_pred::<Seq<i32>>(other) =~= damage_pred(other));
    let q = match damage_of(s, victim) {
        Some(q) => q.push(amount),
        None => seq![amount],
    };
    assert(damage_added(s, victim, amount) == crate::store::inserted(s, victim, q));
    crate::store::lemma_lookup_inserted(s, victim, q, other);
}

} // verus!
