use vstd::prelude::*;
use crate::components::{EntityId, Point};
use crate::search::first_index;
use crate::store::{find_marked, is_pred, unmark, unmarked};

verus! {

broadcast use crate::search::lemma_first_index;

/// The time passed since the last frame, in nanoseconds.
#[derive(Debug, Copy, Clone, PartialEq, Eq, Structural)]
pub struct DeltaTime(pub u64);

impl Default for DeltaTime {
    fn default() -> (d: Self)
        ensures
            d.0 == 0,
    {
        DeltaTime(0)
    }
}

/// When a short lived effect entity goes away: when the entity that spawned it finishes its
/// activity, or when its time (in nanoseconds) runs out.
#[derive(Debug, Copy, Clone, PartialEq, Eq, Structural)]
pub enum DeleteCondition {
    Timed(u64),
    ActivityFinish(EntityId),
}

/// `uuid::Uuid::new_v4`, as its 128 bits: a random identifier. Nothing is promised of it.
#[verifier::external_body]
fn new_uuid() -> u128 {
    uuid::Uuid::new_v4().as_u128()
}

/// How a frame animation is being played: where, which frame, the time on the current frame
/// (in nanoseconds), whether it loops or stays on its last frame, and its identifier.
#[derive(Debug, Copy, Clone, PartialEq, Eq, Structural)]
pub struct AnimationPlay {
    pub top_left: Point,
    pub curr_frame: usize,
    pub timer: u64,
    pub looping: bool,
    pub lasting: bool,
    pub id: u128,
}

impl AnimationPlay {
    /// A play from the first frame that starts again after the last.
    pub fn looping(top_left: Point) -> (p: Self)
        ensures
            p.top_left == top_left,
            p.curr_frame == 0,
            p.timer == 0,
            p.looping,
            !p.lasting,
    {
        Self { curr_frame: 0, timer: 0, looping: true, lasting: false, top_left, id: new_uuid() }
    }

    /// A play from the first frame that stays on the last.
    pub fn lasting(top_left: Point) -> (p: Self)
        ensures
            p.top_left == top_left,
            p.curr_frame == 0,
            p.timer == 0,
            !p.looping,
            p.lasting,
    {
        Self { curr_frame: 0, timer: 0, looping: false, lasting: true, top_left, id: new_uuid() }
    }
}

/// An animation that is playing: how many frames it has, the time between two frames (in
/// milliseconds), and the play.
#[derive(Debug, Copy, Clone, PartialEq, Eq, Structural)]
pub struct RunningAnimation {
    pub frame_count: usize,
    pub time_between_ms: usize,
    pub play: AnimationPlay,
}

/// A sum of two times that stops at the largest.
pub open spec fn sat_add(a: u64, b: u64) -> u64 {
    if a + b <= u64::MAX { (a + b) as u64 } else { u64::MAX }
}

/// One frame of `dt` nanoseconds for an animation: the animation after it, and whether it is
/// over. A lasting animation on its last frame stays; otherwise the time adds up; an animation
/// that is neither lasting nor looping is over past its frames; a looping one past its frames
/// starts again; once more milliseconds than the time between frames have passed, the next frame
/// comes.
pub open spec fn timer_step(a: RunningAnimation, dt: u64) -> (RunningAnimation, bool) {
    let p = a.play;
    if p.lasting && p.curr_frame >= a.frame_count - 1 {
        (a, false)
    } else {
        let t = sat_add(p.timer, dt);
        if !p.lasting && p.curr_frame >= a.frame_count {
            (RunningAnimation { play: AnimationPlay { timer: t, ..p }, ..a }, true)
        } else if p.looping && p.curr_frame >= a.frame_count {
            (RunningAnimation { play: AnimationPlay { timer: t, curr_frame: 0, ..p }, ..a }, false)
        } else if t / 1_000_000 > a.time_between_ms {
            (RunningAnimation { play: AnimationPlay { timer: 0, curr_frame: (p.curr_frame + 1) as usize, ..p }, ..a }, false)
        } else {
            (RunningAnimation { play: AnimationPlay { timer: t, ..p }, ..a }, false)
        }
    }
}

/// The identifiers of the animations that are over, in order.
pub open spec fn over_ids(anims: Seq<RunningAnimation>, dt: u64) -> Seq<u128>
    decreases anims.len(),
{
    if anims.len() == 0 {
        Seq::empty()
    } else {
        let rest = over_ids(anims.drop_last(), dt);
        if timer_step(anims.last(), dt).1 { rest.push(anims.last().play.id) } else { rest }
    }
}

/// The predicate "has the identifier `id`".
pub open spec fn id_pred(id: u128) -> spec_fn(RunningAnimation) -> bool {
    |a: RunningAnimation| a.play.id == id
}

/// The animations after the first with each of the identifiers `ids`, in turn, is taken away.
pub open spec fn ids_removed(anims: Seq<RunningAnimation>, ids: Seq<u128>) -> Seq<RunningAnimation>
    decreases ids.len(),
{
    if ids.len() == 0 {
        anims
    } else {
        let before = ids_removed(anims, ids.drop_last());
        match first_index(before, id_pred(ids.last())) {
            Some(k) => before.remove(k),
            None => before,
        }
    }
}

/// Advances the frame animations.
pub struct UpdateAnimationTimers;

impl UpdateAnimationTimers {
    /// Every animation has its frame of `dt` nanoseconds (`timer_step`); those that are over are
    /// taken away.
    pub fn run(&mut self, anims: &mut Vec<RunningAnimation>, dt: u64)
        requires
            forall|i: int| 0 <= i < old(anims)@.len() && (#[trigger] old(anims)@[i]).play.lasting ==> old(anims)@[i].frame_count >= 1,
        ensures
            final(anims)@ == ids_removed(old(anims)@.map_values(|a: RunningAnimation| timer_step(a, dt).0), over_ids(old(anims)@, dt)),
    {
        let ghost stepped = old(anims)@.map_values(|a: RunningAnimation| timer_step(a, dt).0);
        let mut remove_me: Vec<u128> = Vec::new();
        let mut i: usize = 0;
        while i < anims.len()
            invariant
                i <= anims@.len(),
                anims@.len() == old(anims)@.len(),
                stepped == old(anims)@.map_values(|a: RunningAnimation| timer_step(a, dt).0),
                forall|k: int| 0 <= k < old(anims)@.len() && (#[trigger] old(anims)@[k]).play.lasting ==> old(anims)@[k].frame_count >= 1,
                forall|k: int| 0 <= k < i ==> #[trigger] anims@[k] == stepped[k],
                forall|k: int| i <= k < anims@.len() ==> #[trigger] anims@[k] == old(anims)@[k],
                remove_me@ == over_ids(old(anims)@.take(i as int), dt),
            decreases anims@.len() - i,
        {
            let a = anims[i];
            let p = a.play;
            proof {
                assert(old(anims)@.take(i as int + 1).drop_last() =~= old(anims)@.take(i as int));
                assert(old(anims)@.take(i as int + 1).last() == old(anims)@[i as int]);
            }
            if p.lasting && p.curr_frame >= a.frame_count - 1 {
            } else {
                let t = p.timer.saturating_add(dt);
                if !p.lasting && p.curr_frame >= a.frame_count {
                    remove_me.push(p.id);
                    anims.set(i, RunningAnimation { play: AnimationPlay { timer: t, ..p }, ..a });
                } else if p.looping && p.curr_frame >= a.frame_count {
                    anims.set(i, RunningAnimation { play: AnimationPlay { timer: t, curr_frame: 0, ..p }, ..a });
                } else if t / 1_000_000 > a.time_between_ms as u64 {
                    anims.set(i, RunningAnimation { play: AnimationPlay { timer: 0, curr_frame: p.curr_frame + 1, ..p }, ..a });
                } else {
                    anims.set(i, RunningAnimation { play: AnimationPlay { timer: t, ..p }, ..a });
                }
            }
            i = i + 1;
        }
        assert(anims@ =~= stepped);
        assert(old(anims)@.take(i as int) =~= old(anims)@);
        let mut j: usize = 0;
        while j < remove_me.len()
            invariant
                j <= remove_me@.len(),
                anims@ == ids_removed(stepped, remove_me@.take(j as int)),
            decreases remove_me@.len() - j,
        {
            assert(remove_me@.take(j as int + 1).drop_last() =~= remove_me@.take(j as int));
            let id = remove_me[j];
            let ghost pr = id_pred(id);
            let mut k: usize = 0;
            let mut found = false;
            while !found && k < anims.len()
                invariant
                    k <= anims@.len(),
                    pr == id_pred(id),
                    forall|m: int| 0 <= m < k ==> !pr(anims@[m]),
                    found ==> k < anims@.len() && pr(anims@[k as int]),
                decreases anims@.len() - k + if found { 0int } else { 1int },
            {
                if anims[k].play.id == id {
                    found = true;
                } else {
                    k = k + 1;
                }
            }
            if found {
                proof { crate::search::lemma_first_index_is(anims@, pr, k as int); }
                anims.remove(k);
            } else {
                proof { crate::search::lemma_first_index_none(anims@, pr); }
            }
            j = j + 1;
        }
        assert(remove_me@.take(j as int) =~= remove_me@);
    }
}

/// What the activity finish system does to the entities `conds` (entity, condition), in
/// order: an entity whose spawner finished its activity is deleted, and the spawner's finished
/// mark is taken away. Returns the deleted entities and the finished marks after.
pub open spec fn activity_cleanup(conds: Seq<(EntityId, DeleteCondition)>, finished: Seq<EntityId>) -> (Seq<EntityId>, Seq<EntityId>)
    decreases conds.len(),
{
    if conds.len() == 0 {
        (Seq::empty(), finished)
    } else {
        let (deleted, fin) = activity_cleanup(conds.drop_last(), finished);
        let (e, c) = conds.last();
        match c {
            DeleteCondition::ActivityFinish(spawner) => if first_index(fin, is_pred(spawner)) is Some {
                (deleted.push(e), unmarked(fin, spawner))
            } else {
                (deleted, fin)
            },
            DeleteCondition::Timed(_) => (deleted, fin),
        }
    }
}

/// Handles all the logic that would be performed after an activity is finished. i.e. when an
/// entity finishes fishing. Refer to FinishedActivity enum for a comprehensive list
pub struct ActivityFinishSystem;

impl ActivityFinishSystem {
    /// Deletes the effects of the activities that finished, as `activity_cleanup` says; returns
    /// the entities to delete.
    pub fn run(&mut self, conds: &Vec<(EntityId, DeleteCondition)>, finished: &mut Vec<EntityId>) -> (deleted: Vec<EntityId>)
        ensures
            (deleted@, final(finished)@) == activity_cleanup(conds@, old(finished)@),
    {
        let mut deleted: Vec<EntityId> = Vec::new();
        let mut i: usize = 0;
        while i < conds.len()
            invariant
                i <= conds@.len(),
                (deleted@, finished@) == activity_cleanup(conds@.take(i as int), old(finished)@),
            decreases conds@.len() - i,
        {
            assert(conds@.take(i as int + 1).drop_last() =~= conds@.take(i as int));
            let (e, c) = conds[i];
            match c {
                DeleteCondition::ActivityFinish(spawner) => {
                    if find_marked(finished, spawner).is_some() {
                        deleted.push(e);
                        unmark(finished, spawner);
                    }
                },
                DeleteCondition::Timed(_) => {},
            }
            i = i + 1;
        }
        assert(conds@.take(i as int) =~= conds@);
        deleted
    }
}

/// A condition after `dt` nanoseconds: a timed one counts down, not below zero.
pub open spec fn cond_aged(c: DeleteCondition, dt: u64) -> DeleteCondition {
    match c {
        DeleteCondition::Timed(t) => DeleteCondition::Timed(if t >= dt { (t - dt) as u64 } else { 0 }),
        _ => c,
    }
}

/// Whether an entity with the condition `c` (already counted down) is to be deleted.
pub open spec fn cond_met(c: DeleteCondition, finished: Seq<EntityId>) -> bool {
    match c {
        DeleteCondition::ActivityFinish(spawner) => first_index(finished, is_pred(spawner)) is Some,
        DeleteCondition::Timed(t) => t == 0,
    }
}

/// Cleans up tile animations whose time ran out or whose spawner finished.
pub struct TileAnimationCleanUpSystem;

impl TileAnimationCleanUpSystem {
    /// Every timed condition counts down by `dt` nanoseconds; returns, in order, the entities
    /// whose condition is met: the time ran out, or the spawner finished its activity.
    pub fn run(&mut self, conds: &mut Vec<(EntityId, DeleteCondition)>, finished: &Vec<EntityId>, dt: u64) -> (deleted: Vec<EntityId>)
        ensures
            final(conds)@ == old(conds)@.map_values(|p: (EntityId, DeleteCondition)| (p.0, cond_aged(p.1, dt))),
            deleted@ == final(conds)@.filter(|p: (EntityId, DeleteCondition)| cond_met(p.1, finished@)).map_values(|p: (EntityId, DeleteCondition)| p.0),
    {
        let ghost aged = old(conds)@.map_values(|p: (EntityId, DeleteCondition)| (p.0, cond_aged(p.1, dt)));
        let mut deleted: Vec<EntityId> = Vec::new();
        let mut i: usize = 0;
        while i < conds.len()
            invariant
                i <= conds@.len(),
                conds@.len() == old(conds)@.len(),
                aged == old(conds)@.map_values(|p: (EntityId, DeleteCondition)| (p.0, cond_aged(p.1, dt))),
                forall|k: int| 0 <= k < i ==> #[trigger] conds@[k] == aged[k],
                forall|k: int| i <= k < conds@.len() ==> #[trigger] conds@[k] == old(conds)@[k],
                deleted@ == aged.take(i as int).filter(|p: (EntityId, DeleteCondition)| cond_met(p.1, finished@)).map_values(|p: (EntityId, DeleteCondition)| p.0),
            decreases conds@.len() - i,
        {
            let (e, c) = conds[i];
            let (c2, met) = match c {
                DeleteCondition::ActivityFinish(spawner) => (c, find_marked(finished, spawner).is_some()),
                DeleteCondition::Timed(t) => {
                    let left = t.saturating_sub(dt);
                    (DeleteCondition::Timed(left), left == 0)
                },
            };
            conds.set(i, (e, c2));
            proof {
                assert(aged.take(i as int + 1).drop_last() =~= aged.take(i as int));
                assert(aged[i as int] == (e, c2));
                reveal(Seq::filter);
            }
            if met {
                deleted.push(e);
            }
            assert(deleted@ =~= aged.take(i as int + 1).filter(|p: (EntityId, DeleteCondition)| cond_met(p.1, finished@)).map_values(|p: (EntityId, DeleteCondition)| p.0));
            i = i + 1;
        }
        assert(conds@ =~= aged);
        assert(aged.take(i as int) =~= aged);
        deleted
    }
}

} // verus!
