use vstd::prelude::*;
use crate::animation::DeleteCondition;
use crate::components::{EntityId, FishAction, Fishable, Position, WaitingForFish};
use crate::items::{ItemID, ItemSpawnRequest, ItemSpawner, SpawnType};
use crate::message_log::{lines_view, LogLine, MessageType};
use crate::rng::{rng_new, rng_range};
use crate::search::first_index;
use crate::store::{find_key, find_marked, inserted, is_pred, key_pred, lookup, mark, marked, removed, store_insert, store_remove, unmark, unmarked};
use crate::text::{decimal, decimal_text};

verus! {

broadcast use crate::search::lemma_first_index;

/// How long a fisher waits between two attempts, in nanoseconds (one second).
pub const FISH_DELAY_TIME: u64 = 1_000_000_000;

/// How long a bubble stays fishable, in seconds.
pub const BUBBLE_LIFETIME_SECS: u64 = 10;

/// One in this many water tiles without a bubble gets three chances to get one each frame.
pub const BUBBLE_SPAWN_RATE: usize = 1000;

/// The bar of the fishing minigame: where its goal zone starts, how wide the zone is, and how
/// wide the bar is.
#[derive(Debug, Copy, Clone, PartialEq, Eq, Structural)]
pub struct GoalBar {
    /// Index at which the goal is located at
    pub goal: usize,
    /// Size of the goals
    pub goal_width: usize,
    /// The width of the goal bar
    pub bar_width: usize,
}

/// The fishing minigame of an entity with a fish on the line: the goal bar and the tries left.
/// (Where the cursor stands is kept beside it by the caller.)
#[derive(Debug, Copy, Clone, PartialEq, Eq, Structural)]
pub struct FishingMinigame {
    pub goal_bar: GoalBar,
    pub attempts_left: usize,
}

/// The minigame a player starts with when a fish bites.
pub open spec fn new_minigame() -> FishingMinigame {
    FishingMinigame { goal_bar: GoalBar { goal: 5, bar_width: 18, goal_width: 3 }, attempts_left: 3 }
}

/// Starts fishing for the entities that cast their line.
pub struct SetupFishingActions;

impl SetupFishingActions {
    /// Each fisher with a fish action starts waiting for a fish with a random number of
    /// attempts from 2 to 5 (replacing any wait it had); the actions are dropped. Returns, per
    /// action, the bobber to show: the fisher, where its line went, and the condition on which
    /// the bobber goes, which is the fisher finishing its activity.
    pub fn run(&mut self, actions: &mut Vec<(EntityId, FishAction)>, waiters: &mut Vec<(EntityId, WaitingForFish)>) -> (r: Vec<(EntityId, Position, DeleteCondition)>)
        ensures
            exists|tries: Seq<usize>| #[trigger] tries.len() == old(actions)@.len()
                && (forall|i: int| 0 <= i < tries.len() ==> 2 <= #[trigger] tries[i] < 6)
                && final(waiters)@ == waits_started(old(waiters)@, old(actions)@, tries),
            r@ == old(actions)@.map_values(|a: (EntityId, FishAction)| (a.0, a.1.target, DeleteCondition::ActivityFinish(a.0))),
            final(actions)@.len() == 0,
    {
        let mut r: Vec<(EntityId, Position, DeleteCondition)> = Vec::new();
        let ghost mut tries: Seq<usize> = Seq::empty();
        let mut i: usize = 0;
        while i < actions.len()
            invariant
                i <= actions@.len(),
                actions@ == old(actions)@,
                tries.len() == i,
                forall|k: int| 0 <= k < tries.len() ==> 2 <= #[trigger] tries[k] < 6,
                waiters@ == waits_started(old(waiters)@, actions@.take(i as int), tries),
                r@ == actions@.take(i as int).map_values(|a: (EntityId, FishAction)| (a.0, a.1.target, DeleteCondition::ActivityFinish(a.0))),
            decreases actions@.len() - i,
        {
            let (fisher, action) = actions[i];
            let mut rng = rng_new();
            let attempts = rng_range(&mut rng, 2, 6);
            store_insert(waiters, fisher, WaitingForFish::new(attempts));
            r.push((fisher, action.target, DeleteCondition::ActivityFinish(fisher)));
            proof {
                let t2 = tries.push(attempts);
                assert(actions@.take(i as int + 1).drop_last() =~= actions@.take(i as int));
                assert(t2.take(i as int) =~= tries);
                lemma_waits_started_prefix(old(waiters)@, actions@.take(i as int), tries, attempts);
                tries = t2;
            }
            assert(r@ =~= actions@.take(i as int + 1).map_values(|a: (EntityId, FishAction)| (a.0, a.1.target, DeleteCondition::ActivityFinish(a.0))));
            i = i + 1;
        }
        assert(actions@.take(i as int) =~= actions@);
        actions.clear();
        r
    }
}

/// The waits after the fish actions `actions` start, action `i` with `tries[i]` attempts.
pub open spec fn waits_started(ws: Seq<(EntityId, WaitingForFish)>, actions: Seq<(EntityId, FishAction)>, tries: Seq<usize>) -> Seq<(EntityId, WaitingForFish)>
    decreases actions.len(),
{
    if actions.len() == 0 {
        ws
    } else {
        inserted(
            waits_started(ws, actions.drop_last(), tries.take(actions.len() - 1)),
            actions.last().0,
            WaitingForFish { attempts: tries[actions.len() - 1], time_since_last_attempt: 0 },
        )
    }
}

proof fn lemma_waits_started_prefix(ws: Seq<(EntityId, WaitingForFish)>, actions: Seq<(EntityId, FishAction)>, tries: Seq<usize>, t: usize)
    requires
        tries.len() == actions.len(),
    ensures
        forall|a: (EntityId, FishAction)| #[trigger] waits_started(ws, actions.push(a), tries.push(t))
            == inserted(waits_started(ws, actions, tries), a.0, WaitingForFish { attempts: t, time_since_last_attempt: 0 }),
{
    assert forall|a: (EntityId, FishAction)| #[trigger] waits_started(ws, actions.push(a), tries.push(t))
        == inserted(waits_started(ws, actions, tries), a.0, WaitingForFish { attempts: t, time_since_last_attempt: 0 }) by {
        assert(actions.push(a).drop_last() =~= actions);
        assert(tries.push(t).take(actions.len() as int) =~= tries);
    }
}

/// What happens to a waiting fisher this frame.
pub enum FishWait {
    /// It has no name, so it is not looked at.
    NoName,
    /// It has no attempts left.
    OutOfAttempts,
    /// Less than the delay has passed since its last attempt.
    Resting,
    /// It made an attempt and nothing bit.
    Missed,
    /// It made an attempt and a fish bit.
    Bite,
}

/// What happens to the waiter `p` this frame when `dt` nanoseconds passed and the roll (from 1
/// to 99) would be `roll`: an attempt is made once more than the delay has passed, and a fish
/// bites on a roll of 80 or more.
pub open spec fn wait_kind(p: (EntityId, WaitingForFish), names: Seq<(EntityId, String)>, dt: u64, roll: usize) -> FishWait {
    if lookup(names, p.0) is None {
        FishWait::NoName
    } else if p.1.attempts == 0 {
        FishWait::OutOfAttempts
    } else if p.1.time_since_last_attempt + dt <= FISH_DELAY_TIME {
        FishWait::Resting
    } else if roll < 80 {
        FishWait::Missed
    } else {
        FishWait::Bite
    }
}

/// The wait after this frame.
pub open spec fn waited(w: WaitingForFish, dt: u64, k: FishWait) -> WaitingForFish {
    match k {
        FishWait::Resting => WaitingForFish { attempts: w.attempts, time_since_last_attempt: (w.time_since_last_attempt + dt) as u64 },
        FishWait::Missed | FishWait::Bite => WaitingForFish { attempts: (w.attempts - 1) as usize, time_since_last_attempt: 0 },
        _ => w,
    }
}

pub open spec fn ran_out_text(name: Seq<char>) -> Seq<char> {
    name + " ran out of attempts to catch a fish"@
}

pub open spec fn attempt_text(attempts: nat, roll: nat) -> Seq<char> {
    "Attempts left: "@ + decimal(attempts) + " | Rolled: "@ + decimal(roll) + " "@
}

pub open spec fn caught_text(name: Seq<char>, attempts: nat) -> Seq<char> {
    name + " caught a fish wow with "@ + decimal(attempts) + " attempts remaining"@
}

pub open spec fn double_hook_text(name: Seq<char>, id: nat) -> Seq<char> {
    "ERROR: entity "@ + name + " "@ + decimal(id) + " already had a fish on their line, cannot add a second fish ABORTING fish"@
}

/// The messages of one waiter this frame.
pub open spec fn wait_lines(p: (EntityId, WaitingForFish), name: Seq<char>, k: FishWait, roll: usize, player: EntityId, hooks: Seq<EntityId>) -> Seq<(MessageType, Seq<char>)> {
    match k {
        FishWait::OutOfAttempts => seq![(MessageType::FLAVOR, ran_out_text(name))],
        FishWait::Missed => seq![(MessageType::DEBUG, attempt_text((p.1.attempts - 1) as nat, roll as nat))],
        FishWait::Bite => {
            let first = seq![(MessageType::DEBUG, attempt_text((p.1.attempts - 1) as nat, roll as nat))];
            let second = if p.0 != player {
                seq![(MessageType::INFO, caught_text(name, (p.1.attempts - 1) as nat))]
            } else {
                Seq::empty()
            };
            let third = if first_index(hooks, is_pred(p.0)) is Some {
                seq![(MessageType::DEBUG, double_hook_text(name, p.0.id as nat))]
            } else {
                Seq::empty()
            };
            first + second + third
        },
        _ => Seq::empty(),
    }
}

/// The state the wait for fish works on: the waits, who has a fish on the line, the minigames,
/// who finished, and the messages.
pub type FishState = (Seq<(EntityId, WaitingForFish)>, Seq<EntityId>, Seq<(EntityId, FishingMinigame)>, Seq<EntityId>, Seq<(MessageType, Seq<char>)>);

/// The state after the waiters `ws` had their frame, waiter `i` with the roll `rolls[i]`: the
/// waits as updated (all of them, in order), then the rest.
pub open spec fn waits_done(
    ws: Seq<(EntityId, WaitingForFish)>,
    names: Seq<(EntityId, String)>,
    player: EntityId,
    dt: u64,
    rolls: Seq<usize>,
    hooks: Seq<EntityId>,
    games: Seq<(EntityId, FishingMinigame)>,
) -> FishState
    decreases ws.len(),
{
    if ws.len() == 0 {
        (Seq::empty(), hooks, games, Seq::empty(), Seq::empty())
    } else {
        let (u, h, m, f, l) = waits_done(ws.drop_last(), names, player, dt, rolls, hooks, games);
        let p = ws.last();
        let roll = rolls[ws.len() - 1];
        let k = wait_kind(p, names, dt, roll);
        let name = match lookup(names, p.0) {
            Some(n) => n@,
            None => Seq::empty(),
        };
        let u2 = u.push((p.0, waited(p.1, dt, k)));
        let l2 = l + wait_lines(p, name, k, roll, player, h);
        match k {
            FishWait::OutOfAttempts => (u2, h, m, f.push(p.0), l2),
            FishWait::Bite => (
                u2,
                marked(h, p.0),
                if p.0 == player { inserted(m, p.0, new_minigame()) } else { m },
                f.push(p.0),
                l2,
            ),
            _ => (u2, h, m, f, l2),
        }
    }
}

/// The waits without those of the finished fishers.
pub open spec fn waits_removed(ws: Seq<(EntityId, WaitingForFish)>, finished: Seq<EntityId>) -> Seq<(EntityId, WaitingForFish)>
    decreases finished.len(),
{
    if finished.len() == 0 { ws } else { removed(waits_removed(ws, finished.drop_last()), finished.last()) }
}

/// The finished activities after the finished fishers are marked, except a player who is now
/// in a minigame.
pub open spec fn activities_marked(acts: Seq<EntityId>, finished: Seq<EntityId>, player: EntityId, games: Seq<(EntityId, FishingMinigame)>) -> Seq<EntityId>
    decreases finished.len(),
{
    if finished.len() == 0 {
        acts
    } else {
        let before = activities_marked(acts, finished.drop_last(), player, games);
        if finished.last() == player && lookup(games, player) is Some { before } else { marked(before, finished.last()) }
    }
}

/// Counts down the wait of fishers for a bite.
pub struct WaitingForFishSystem;

impl WaitingForFishSystem {
    /// One frame of `dt` nanoseconds for each waiting fisher that has a name, in order: with no
    /// attempts left it gives up; otherwise, once more than a second has passed since its last
    /// attempt, it makes one (the time starts again) and a random roll from 1 to 99 of 80 or more
    /// is a bite: a fish goes on its line and, for the player, the minigame starts. Fishers who
    /// gave up or got a bite stop waiting and finish their activity, unless the player is now in
    /// the minigame. Returns the messages.
    pub fn run(
        &mut self,
        waiters: &mut Vec<(EntityId, WaitingForFish)>,
        names: &Vec<(EntityId, String)>,
        hooks: &mut Vec<EntityId>,
        games: &mut Vec<(EntityId, FishingMinigame)>,
        finished: &mut Vec<EntityId>,
        player: EntityId,
        dt: u64,
    ) -> (lines: Vec<LogLine>)
        requires
            forall|i: int| 0 <= i < old(waiters)@.len() ==> (#[trigger] old(waiters)@[i]).1.time_since_last_attempt + dt <= u64::MAX,
        ensures
            exists|rolls: Seq<usize>| #[trigger] rolls.len() == old(waiters)@.len()
                && (forall|i: int| 0 <= i < rolls.len() ==> 1 <= #[trigger] rolls[i] < 100)
                && ({
                    let (u, h, m, f, l) = waits_done(old(waiters)@, names@, player, dt, rolls, old(hooks)@, old(games)@);
                    &&& final(waiters)@ == waits_removed(u, f)
                    &&& final(hooks)@ == h
                    &&& final(games)@ == m
                    &&& final(finished)@ == activities_marked(old(finished)@, f, player, m)
                    &&& lines_view(lines@) == l
                }),
    {
        let ghost w0 = waiters@;
        let mut rng = rng_new();
        let mut lines: Vec<LogLine> = Vec::new();
        let mut done: Vec<EntityId> = Vec::new();
        let ghost mut rolls: Seq<usize> = Seq::empty();
        let mut i: usize = 0;
        while i < waiters.len()
            invariant
                i <= waiters@.len(),
                waiters@.len() == w0.len(),
                w0 == old(waiters)@,
                forall|k: int| 0 <= k < w0.len() ==> (#[trigger] w0[k]).1.time_since_last_attempt + dt <= u64::MAX,
                forall|k: int| i <= k < w0.len() ==> #[trigger] waiters@[k] == w0[k],
                rolls.len() == i,
                forall|k: int| 0 <= k < rolls.len() ==> 1 <= #[trigger] rolls[k] < 100,
                ({
                    let (u, h, m, f, l) = waits_done(w0.take(i as int), names@, player, dt, rolls, old(hooks)@, old(games)@);
                    &&& waiters@.take(i as int) == u
                    &&& hooks@ == h
                    &&& games@ == m
                    &&& done@ == f
                    &&& lines_view(lines@) == l
                }),
            decreases w0.len() - i,
        {
            let ghost before = waits_done(w0.take(i as int), names@, player, dt, rolls, old(hooks)@, old(games)@);
            let ghost lines_before = lines_view(lines@);
            let ghost hooks_before = hooks@;
            let (e, w) = waiters[i];
            let mut roll: usize = 1;
            match find_key(names, e) {
                None => {},
                Some(n) => {
                    let name = &names[n].1;
                    if w.attempts == 0 {
                        done.push(e);
                        let mut text = name.clone();
                        proof { reveal_strlit(" ran out of attempts to catch a fish"); }
                        text.append(" ran out of attempts to catch a fish");
                        lines.push(LogLine::new(MessageType::FLAVOR, text));
                    } else if w.time_since_last_attempt + dt <= FISH_DELAY_TIME {
                        waiters.set(i, (e, WaitingForFish { attempts: w.attempts, time_since_last_attempt: w.time_since_last_attempt + dt }));
                    } else {
                        let left = w.attempts - 1;
                        waiters.set(i, (e, WaitingForFish { attempts: left, time_since_last_attempt: 0 }));
                        roll = rng_range(&mut rng, 1, 100);
                        proof { reveal_strlit("Attempts left: "); reveal_strlit(" | Rolled: "); reveal_strlit(" "); }
                        let mut text = String::from_str("Attempts left: ");
                        let a = decimal_text(left);
                        text.append(a.as_str());
                        text.append(" | Rolled: ");
                        let r = decimal_text(roll);
                        text.append(r.as_str());
                        text.append(" ");
                        lines.push(LogLine::new(MessageType::DEBUG, text));
                        if roll >= 80 {
                            done.push(e);
                            if e == player {
                                store_insert(games, e, FishingMinigame { goal_bar: GoalBar { goal: 5, bar_width: 18, goal_width: 3 }, attempts_left: 3 });
                            } else {
                                let mut t = name.clone();
                                proof { reveal_strlit(" caught a fish wow with "); reveal_strlit(" attempts remaining"); }
                                t.append(" caught a fish wow with ");
                                t.append(a.as_str());
                                t.append(" attempts remaining");
                                lines.push(LogLine::new(MessageType::INFO, t));
                            }
                            match find_marked(hooks, e) {
                                Some(_) => {
                                    proof {
                                        reveal_strlit("ERROR: entity ");
                                        reveal_strlit(" already had a fish on their line, cannot add a second fish ABORTING fish");
                                    }
                                    let mut t = String::from_str("ERROR: entity ");
                                    t.append(name.as_str());
                                    t.append(" ");
                                    let id = decimal_text(e.id as usize);
                                    t.append(id.as_str());
                                    t.append(" already had a fish on their line, cannot add a second fish ABORTING fish");
                                    lines.push(LogLine::new(MessageType::DEBUG, t));
                                },
                                None => {},
                            }
                            mark(hooks, e);
                        }
                    }
                },
            }
            proof {
                let w1 = w0.take(i as int + 1);
                assert(w1.drop_last() =~= w0.take(i as int));
                assert(w1.last() == w0[i as int]);
                let r2 = rolls.push(roll);
                lemma_waits_done_rolls(w0.take(i as int), names@, player, dt, rolls, r2, old(hooks)@, old(games)@);
                rolls = r2;
                assert(waiters@.take(i as int + 1) =~= before.0.push(waiters@[i as int]));
                assert(lines_view(lines@) =~= lines_before + wait_lines(w0[i as int], match lookup(names@, e) { Some(n) => n@, None => Seq::empty() }, wait_kind(w0[i as int], names@, dt, roll), roll, player, hooks_before));
            }
            i = i + 1;
        }
        assert(w0.take(i as int) =~= w0);
        assert(waiters@.take(i as int) =~= waiters@);
        let ghost u = waiters@;
        let mut j: usize = 0;
        while j < done.len()
            invariant
                j <= done@.len(),
                waiters@ == waits_removed(u, done@.take(j as int)),
                finished@ == activities_marked(old(finished)@, done@.take(j as int), player, games@),
            decreases done@.len() - j,
        {
            assert(done@.take(j as int + 1).drop_last() =~= done@.take(j as int));
            let f = done[j];
            store_remove(waiters, f);
            let in_game = f == player && find_key(games, player).is_some();
            if !in_game {
                mark(finished, f);
            }
            j = j + 1;
        }
        assert(done@.take(j as int) =~= done@);
        lines
    }
}

/// The waits done do not depend on the rolls past the waiters.
proof fn lemma_waits_done_rolls(
    ws: Seq<(EntityId, WaitingForFish)>,
    names: Seq<(EntityId, String)>,
    player: EntityId,
    dt: u64,
    r1: Seq<usize>,
    r2: Seq<usize>,
    hooks: Seq<EntityId>,
    games: Seq<(EntityId, FishingMinigame)>,
)
    requires
        r1.len() >= ws.len(),
        r2.len() >= ws.len(),
        forall|k: int| 0 <= k < ws.len() ==> r1[k] == r2[k],
    ensures
        waits_done(ws, names, player, dt, r1, hooks, games) == waits_done(ws, names, player, dt, r2, hooks, games),
    decreases ws.len(),
{
    if ws.len() > 0 {
        lemma_waits_done_rolls(ws.drop_last(), names, player, dt, r1, r2, hooks, games);
    }
}

/// Whether the cursor index `idx` is in the goal zone of the bar.
pub open spec fn in_goal(bar: GoalBar, idx: usize) -> bool {
    bar.goal <= idx < bar.goal + bar.goal_width
}

/// The message when the player hit the zone.
pub open spec fn success_text() -> Seq<char> {
    "#[bright_green]Success!#[]"@
}

/// The message when the player missed the zone.
pub open spec fn missed_text() -> Seq<char> {
    "#[orange]Missed#[] the fish zone."@
}

/// The message when the fish got away.
pub open spec fn got_away_text() -> Seq<char> {
    "#[red]Ahhh, the fish got away.#[]"@
}

/// Checks the player's press in the fishing minigame.
pub struct FishingMinigameCheck;

impl FishingMinigameCheck {
    /// When the player pressed the game action, has a fish on the line and a minigame, and has
    /// not finished its activity: with the cursor (at bar index `idx`) in the goal zone the
    /// player succeeds and finishes; otherwise one try is used up (not below zero), and with
    /// none left the fish gets away (line and minigame gone) and the player finishes. The game
    /// actions are dropped. Returns the messages.
    pub fn run(
        &mut self,
        actions: &mut Vec<EntityId>,
        finished: &mut Vec<EntityId>,
        games: &mut Vec<(EntityId, FishingMinigame)>,
        hooks: &mut Vec<EntityId>,
        player: EntityId,
        idx: usize,
    ) -> (lines: Vec<LogLine>)
        requires
            lookup(old(games)@, player) matches Some(g) ==> g.goal_bar.goal + g.goal_bar.goal_width <= usize::MAX,
        ensures
            final(actions)@.len() == 0,
            ({
                let playing = first_index(old(actions)@, is_pred(player)) is Some
                    && first_index(old(hooks)@, is_pred(player)) is Some
                    && lookup(old(games)@, player) is Some
                    && first_index(old(finished)@, is_pred(player)) is None;
                if !playing {
                    &&& lines_view(lines@) == Seq::<(MessageType, Seq<char>)>::empty()
                    &&& final(finished)@ == old(finished)@
                    &&& final(games)@ == old(games)@
                    &&& final(hooks)@ == old(hooks)@
                } else {
                    let g = lookup(old(games)@, player)->0;
                    if in_goal(g.goal_bar, idx) {
                        &&& lines_view(lines@) == seq![(MessageType::INFO, success_text())]
                        &&& final(finished)@ == marked(old(finished)@, player)
                        &&& final(games)@ == old(games)@
                        &&& final(hooks)@ == old(hooks)@
                    } else {
                        let left = if g.attempts_left == 0 { 0 } else { g.attempts_left - 1 };
                        if left == 0 {
                            &&& lines_view(lines@) == seq![(MessageType::INFO, missed_text()), (MessageType::INFO, got_away_text())]
                            &&& final(finished)@ == marked(old(finished)@, player)
                            &&& final(games)@ == removed(inserted(old(games)@, player, FishingMinigame { attempts_left: left as usize, ..g }), player)
                            &&& final(hooks)@ == unmarked(old(hooks)@, player)
                        } else {
                            &&& lines_view(lines@) == seq![(MessageType::INFO, missed_text())]
                            &&& final(finished)@ == old(finished)@
                            &&& final(games)@ == inserted(old(games)@, player, FishingMinigame { attempts_left: left as usize, ..g })
                            &&& final(hooks)@ == old(hooks)@
                        }
                    }
                }
            }),
    {
        let mut lines: Vec<LogLine> = Vec::new();
        let playing = find_marked(actions, player).is_some() && find_marked(hooks, player).is_some()
            && find_key(games, player).is_some() && find_marked(finished, player).is_none();
        if playing {
            let k = find_key(games, player).unwrap();
            let g = games[k].1;
            if g.goal_bar.goal <= idx && idx < g.goal_bar.goal + g.goal_bar.goal_width {
                proof { reveal_strlit("#[bright_green]Success!#[]"); }
                lines.push(LogLine::new(MessageType::INFO, String::from_str("#[bright_green]Success!#[]")));
                mark(finished, player);
            } else {
                proof { reveal_strlit("#[orange]Missed#[] the fish zone."); }
                lines.push(LogLine::new(MessageType::INFO, String::from_str("#[orange]Missed#[] the fish zone.")));
                let left = g.attempts_left.saturating_sub(1);
                store_insert(games, player, FishingMinigame { attempts_left: left, ..g });
                if left == 0 {
                    proof { reveal_strlit("#[red]Ahhh, the fish got away.#[]"); }
                    lines.push(LogLine::new(MessageType::INFO, String::from_str("#[red]Ahhh, the fish got away.#[]")));
                    unmark(hooks, player);
                    store_remove(games, player);
                    mark(finished, player);
                }
            }
        }
        assert(lines_view(lines@) =~= lines_view(lines@));
        actions.clear();
        lines
    }
}

/// The message of an entity named `name` landing its fish.
pub open spec fn big_fish_text(name: Seq<char>) -> Seq<char> {
    name + " caught a really big fish!"@
}

/// The entities with a fish on the line, a name, and a finished activity, in order.
pub open spec fn catchers(hooks: Seq<EntityId>, names: Seq<(EntityId, String)>, finished: Seq<EntityId>) -> Seq<EntityId>
    decreases hooks.len(),
{
    if hooks.len() == 0 {
        Seq::empty()
    } else {
        let rest = catchers(hooks.drop_last(), names, finished);
        if lookup(names, hooks.last()) is Some && first_index(finished, is_pred(hooks.last())) is Some {
            rest.push(hooks.last())
        } else {
            rest
        }
    }
}

/// The fish requested into the bags of the catchers.
pub open spec fn fish_requests(cs: Seq<EntityId>) -> Seq<ItemSpawnRequest> {
    cs.map_values(|e: EntityId| ItemSpawnRequest { item_id: ItemID(3), spawn_type: SpawnType::InBag(e) })
}

/// The messages of the catchers.
pub open spec fn catch_lines(cs: Seq<EntityId>, names: Seq<(EntityId, String)>) -> Seq<(MessageType, Seq<char>)> {
    cs.map_values(|e: EntityId| (MessageType::FLAVOR, big_fish_text(lookup(names, e)->0@)))
}

/// A storage after the entries of the entities `es` are taken away, in order.
pub open spec fn games_removed(s: Seq<(EntityId, FishingMinigame)>, es: Seq<EntityId>) -> Seq<(EntityId, FishingMinigame)>
    decreases es.len(),
{
    if es.len() == 0 { s } else { removed(games_removed(s, es.drop_last()), es.last()) }
}

/// A marker storage after the markers of the entities `es` are taken away, in order.
pub open spec fn all_unmarked(s: Seq<EntityId>, es: Seq<EntityId>) -> Seq<EntityId>
    decreases es.len(),
{
    if es.len() == 0 { s } else { unmarked(all_unmarked(s, es.drop_last()), es.last()) }
}

/// Lands the fish of those who finished with a fish on the line.
pub struct CatchFishSystem;

impl CatchFishSystem {
    /// Every entity with a fish on the line, a name and a finished activity gets a fish (item
    /// 3) requested into its bag, and its line and minigame are cleared. Returns the messages.
    pub fn run(
        &mut self,
        hooks: &mut Vec<EntityId>,
        games: &mut Vec<(EntityId, FishingMinigame)>,
        spawner: &mut ItemSpawner,
        names: &Vec<(EntityId, String)>,
        finished: &Vec<EntityId>,
    ) -> (lines: Vec<LogLine>)
        ensures
            ({
                let cs = catchers(old(hooks)@, names@, finished@);
                &&& lines_view(lines@) == catch_lines(cs, names@)
                &&& final(spawner).requests@ == old(spawner).requests@ + fish_requests(cs)
                &&& final(hooks)@ == all_unmarked(old(hooks)@, cs)
                &&& final(games)@ == games_removed(old(games)@, cs)
            }),
    {
        let mut lines: Vec<LogLine> = Vec::new();
        let mut cs: Vec<EntityId> = Vec::new();
        let mut i: usize = 0;
        while i < hooks.len()
            invariant
                i <= hooks@.len(),
                hooks@ == old(hooks)@,
                cs@ == catchers(hooks@.take(i as int), names@, finished@),
                forall|k: int| 0 <= k < cs@.len() ==> lookup(names@, #[trigger] cs@[k]) is Some,
                lines_view(lines@) == catch_lines(cs@, names@),
                spawner.requests@ == old(spawner).requests@ + fish_requests(cs@),
            decreases hooks@.len() - i,
        {
            assert(hooks@.take(i as int + 1).drop_last() =~= hooks@.take(i as int));
            let e = hooks[i];
            match find_key(names, e) {
                Some(n) => {
                    if find_marked(finished, e).is_some() {
                        let ghost lb = lines_view(lines@);
                        let ghost cb = cs@;
                        assert(lb =~= catch_lines(cb, names@));
                        cs.push(e);
                        let mut text = names[n].1.clone();
                        proof { reveal_strlit(" caught a really big fish!"); }
                        text.append(" caught a really big fish!");
                        lines.push(LogLine::new(MessageType::FLAVOR, text));
                        spawner.request(ItemID(3), SpawnType::InBag(e));
                        assert(lookup(names@, e) == Some(names@[n as int].1));
                        assert(lines_view(lines@) =~= lb.push((MessageType::FLAVOR, big_fish_text(names@[n as int].1@))));
                        assert(catch_lines(cs@, names@) =~= catch_lines(cb, names@).push((MessageType::FLAVOR, big_fish_text(names@[n as int].1@))));
                        assert(spawner.requests@ =~= old(spawner).requests@ + fish_requests(cs@));
                    }
                },
                None => {},
            }
            i = i + 1;
        }
        assert(hooks@.take(i as int) =~= hooks@);
        let ghost h0 = hooks@;
        let ghost g0 = games@;
        let mut j: usize = 0;
        while j < cs.len()
            invariant
                j <= cs@.len(),
                hooks@ == all_unmarked(h0, cs@.take(j as int)),
                games@ == games_removed(g0, cs@.take(j as int)),
            decreases cs@.len() - j,
        {
            assert(cs@.take(j as int + 1).drop_last() =~= cs@.take(j as int));
            unmark(hooks, cs[j]);
            store_remove(games, cs[j]);
            j = j + 1;
        }
        assert(cs@.take(j as int) =~= cs@);
        lines
    }
}

/// A bubble after `dt` nanoseconds: its time left goes down, not below zero.
pub open spec fn aged(f: Fishable, dt: u64) -> Fishable {
    Fishable { time_left: if f.time_left >= dt { (f.time_left - dt) as u64 } else { 0 } }
}

/// Counts down the bubbles where fish can be caught.
pub struct PollFishingTiles;

impl PollFishingTiles {
    /// Every bubble's time goes down by `dt` nanoseconds (not below zero); those whose time ran
    /// out go away and are returned, in order.
    pub fn run(&mut self, fishables: &mut Vec<(EntityId, Fishable)>, dt: u64) -> (gone: Vec<EntityId>)
        ensures
            final(fishables)@ == old(fishables)@.map_values(|p: (EntityId, Fishable)| (p.0, aged(p.1, dt)))
                .filter(|p: (EntityId, Fishable)| p.1.time_left != 0),
            gone@ == old(fishables)@.map_values(|p: (EntityId, Fishable)| (p.0, aged(p.1, dt)))
                .filter(|p: (EntityId, Fishable)| p.1.time_left == 0).map_values(|p: (EntityId, Fishable)| p.0),
    {
        let ghost all = old(fishables)@.map_values(|p: (EntityId, Fishable)| (p.0, aged(p.1, dt)));
        let mut kept: Vec<(EntityId, Fishable)> = Vec::new();
        let mut gone: Vec<EntityId> = Vec::new();
        let mut i: usize = 0;
        while i < fishables.len()
            invariant
                i <= fishables@.len(),
                fishables@ == old(fishables)@,
                all == old(fishables)@.map_values(|p: (EntityId, Fishable)| (p.0, aged(p.1, dt))),
                kept@ == all.take(i as int).filter(|p: (EntityId, Fishable)| p.1.time_left != 0),
                gone@ == all.take(i as int).filter(|p: (EntityId, Fishable)| p.1.time_left == 0).map_values(|p: (EntityId, Fishable)| p.0),
            decreases fishables@.len() - i,
        {
            let (e, f) = fishables[i];
            let left = f.time_left.saturating_sub(dt);
            proof {
                assert(all.take(i as int + 1).drop_last() =~= all.take(i as int));
                assert(all[i as int] == (e, Fishable { time_left: left }));
                reveal(Seq::filter);
            }
            if left == 0 {
                gone.push(e);
            } else {
                kept.push((e, Fishable { time_left: left }));
            }
            assert(kept@ =~= all.take(i as int + 1).filter(|p: (EntityId, Fishable)| p.1.time_left != 0));
            assert(gone@ =~= all.take(i as int + 1).filter(|p: (EntityId, Fishable)| p.1.time_left == 0).map_values(|p: (EntityId, Fishable)| p.0));
            i = i + 1;
        }
        assert(all.take(i as int) =~= all);
        *fishables = kept;
        gone
    }
}

/// Makes bubbles appear on water.
pub struct UpdateFishingTiles;

impl UpdateFishingTiles {
    /// Every water entity of `waters` that has no bubble gets one, lasting ten seconds, when a
    /// random roll from 0 to 999 is below 3. Returns the new bubbles, in order.
    pub fn run(&mut self, waters: &Vec<EntityId>, fishables: &mut Vec<(EntityId, Fishable)>) -> (bubbles: Vec<EntityId>)
        ensures
            exists|rolls: Seq<usize>| #[trigger] rolls.len() == waters@.len()
                && (forall|i: int| 0 <= i < rolls.len() ==> #[trigger] rolls[i] < BUBBLE_SPAWN_RATE)
                && bubbles@ == new_bubbles(waters@, old(fishables)@, rolls),
            final(fishables)@ == old(fishables)@ + bubbles@.map_values(|e: EntityId| (e, Fishable { time_left: (BUBBLE_LIFETIME_SECS * 1_000_000_000) as u64 })),
    {
        let mut rng = rng_new();
        let mut bubbles: Vec<EntityId> = Vec::new();
        let ghost mut rolls: Seq<usize> = Seq::empty();
        let mut i: usize = 0;
        while i < waters.len()
            invariant
                i <= waters@.len(),
                fishables@ == old(fishables)@,
                rolls.len() == i,
                forall|k: int| 0 <= k < rolls.len() ==> #[trigger] rolls[k] < BUBBLE_SPAWN_RATE,
                bubbles@ == new_bubbles(waters@.take(i as int), old(fishables)@, rolls),
            decreases waters@.len() - i,
        {
            assert(waters@.take(i as int + 1).drop_last() =~= waters@.take(i as int));
            let e = waters[i];
            let mut roll: usize = 0;
            if find_key(fishables, e).is_none() {
                roll = rng_range(&mut rng, 0, BUBBLE_SPAWN_RATE);
                if roll < 3 {
                    bubbles.push(e);
                }
            }
            proof {
                let r2 = rolls.push(roll);
                lemma_new_bubbles_rolls(waters@.take(i as int), old(fishables)@, rolls, r2);
                rolls = r2;
            }
            i = i + 1;
        }
        assert(waters@.take(i as int) =~= waters@);
        let mut j: usize = 0;
        while j < bubbles.len()
            invariant
                j <= bubbles@.len(),
                fishables@ == old(fishables)@ + bubbles@.take(j as int).map_values(|e: EntityId| (e, Fishable { time_left: (BUBBLE_LIFETIME_SECS * 1_000_000_000) as u64 })),
            decreases bubbles@.len() - j,
        {
            fishables.push((bubbles[j], Fishable { time_left: BUBBLE_LIFETIME_SECS * 1_000_000_000 }));
            assert(fishables@ =~= old(fishables)@ + bubbles@.take(j as int + 1).map_values(|e: EntityId| (e, Fishable { time_left: (BUBBLE_LIFETIME_SECS * 1_000_000_000) as u64 })));
            j = j + 1;
        }
        assert(bubbles@.take(j as int) =~= bubbles@);
        bubbles
    }
}

/// The water entities of `waters` without a bubble whose roll `rolls[i]` is below 3.
pub open spec fn new_bubbles(waters: Seq<EntityId>, fishables: Seq<(EntityId, Fishable)>, rolls: Seq<usize>) -> Seq<EntityId>
    decreases waters.len(),
{
    if waters.len() == 0 {
        Seq::empty()
    } else {
        let rest = new_bubbles(waters.drop_last(), fishables, rolls);
        if lookup(fishables, waters.last()) is None && rolls[waters.len() - 1] < 3 { rest.push(waters.last()) } else { rest }
    }
}

proof fn lemma_new_bubbles_rolls(waters: Seq<EntityId>, fishables: Seq<(EntityId, Fishable)>, r1: Seq<usize>, r2: Seq<usize>)
    requires
        r1.len() >= waters.len(),
        r2.len() >= waters.len(),
        forall|k: int| 0 <= k < waters.len() ==> r1[k] == r2[k],
    ensures
        new_bubbles(waters, fishables, r1) == new_bubbles(waters, fishables, r2),
    decreases waters.len(),
{
    if waters.len() > 0 {
        lemma_new_bubbles_rolls(waters.drop_last(), fishables, r1, r2);
    }
}

/// A frame of waiting keeps every waiter, in order, and never gives one more attempts: an
/// attempt made uses one up and starts the time again.
pub proof fn lemma_waiting_uses_attempts(
    ws: Seq<(EntityId, WaitingForFish)>,
    names: Seq<(EntityId, String)>,
    player: EntityId,
    dt: u64,
    rolls: Seq<usize>,
    hooks: Seq<EntityId>,
    games: Seq<(EntityId, FishingMinigame)>,
)
    requires
        rolls.len() >= ws.len(),
    ensures
        ({
            let u = waits_done(ws, names, player, dt, rolls, hooks, games).0;
            &&& u.len() == ws.len()
            &&& forall|i: int| 0 <= i < ws.len() ==> (#[trigger] u[i]).0 == ws[i].0 && u[i].1.attempts <= ws[i].1.attempts
            &&& forall|i: int| 0 <= i < ws.len() && u[i].1.attempts < ws[i].1.attempts ==>
                u[i].1.attempts == ws[i].1.attempts - 1 && (#[trigger] u[i]).1.time_since_last_attempt == 0
        }),
    decreases ws.len(),
{
    if ws.len() > 0 {
        lemma_waiting_uses_attempts(ws.drop_last(), names, player, dt, rolls, hooks, games);
        let u0 = waits_done(ws.drop_last(), names, player, dt, rolls, hooks, games).0;
        let u = waits_done(ws, names, player, dt, rolls, hooks, games).0;
        assert forall|i: int| 0 <= i < ws.len() - 1 implies #[trigger] u[i] == u0[i] by {}
        assert forall|i: int| 0 <= i < ws.len() - 1 implies #[trigger] ws[i] == ws.drop_last()[i] by {}
    }
}

} // verus!
