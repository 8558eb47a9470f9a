use vstd::prelude::*;
use crate::components::{EntityId, EquipAction, Equipable, EquipmentSlot, EquipmentSlots, Equipped};
use crate::search::first_index;

verus! {

broadcast use crate::search::lemma_first_index;

/// The predicate "belongs to the entity `e`".
pub open spec fn equipable_pred(e: EntityId) -> spec_fn((EntityId, Equipable)) -> bool {
    |p: (EntityId, Equipable)| p.0 == e
}

/// The predicate "belongs to the entity `e`".
pub open spec fn equipped_pred(e: EntityId) -> spec_fn((EntityId, Equipped)) -> bool {
    |p: (EntityId, Equipped)| p.0 == e
}

/// The slot the item `e` is worn in, if it can be equipped.
pub open spec fn slot_of(equipables: Seq<(EntityId, Equipable)>, e: EntityId) -> Option<EquipmentSlot> {
    match first_index(equipables, equipable_pred(e)) {
        Some(k) => Some(equipables[k].1.slot),
        None => None,
    }
}

/// How many of the slots are `slot`.
pub open spec fn slot_count(slots: Seq<EquipmentSlot>, slot: EquipmentSlot) -> nat
    decreases slots.len(),
{
    if slots.len() == 0 {
        0
    } else {
        slot_count(slots.drop_last(), slot) + if slots.last() == slot { 1nat } else { 0nat }
    }
}

/// How many items equipped on `on` are worn in `slot`.
pub open spec fn worn_count(equipped: Seq<(EntityId, Equipped)>, equipables: Seq<(EntityId, Equipable)>, on: EntityId, slot: EquipmentSlot) -> nat
    decreases equipped.len(),
{
    if equipped.len() == 0 {
        0
    } else {
        worn_count(equipped.drop_last(), equipables, on, slot)
            + if equipped.last().1.on == on && slot_of(equipables, equipped.last().0) == Some(slot) { 1nat } else { 0nat }
    }
}

/// The equipped items after `equipper`, with the slots `slots`, toggles the item `item`: an
/// item that cannot be equipped is left alone; an equipped item is taken off; otherwise it is
/// put on when fewer items are worn in its slot than the equipper has such slots.
pub open spec fn toggled(
    equipped: Seq<(EntityId, Equipped)>,
    equipables: Seq<(EntityId, Equipable)>,
    equipper: EntityId,
    slots: Seq<EquipmentSlot>,
    item: EntityId,
) -> Seq<(EntityId, Equipped)> {
    match slot_of(equipables, item) {
        None => equipped,
        Some(slot) => match first_index(equipped, equipped_pred(item)) {
            Some(k) => equipped.remove(k),
            None => if worn_count(equipped, equipables, equipper, slot) >= slot_count(slots, slot) {
                equipped
            } else {
                equipped.push((item, Equipped { on: equipper }))
            },
        },
    }
}

/// The equipped items after the requests `reqs` (equipper, action, its slots), in order.
pub open spec fn all_toggled(
    equipped: Seq<(EntityId, Equipped)>,
    equipables: Seq<(EntityId, Equipable)>,
    reqs: Seq<(EntityId, EquipAction, EquipmentSlots)>,
) -> Seq<(EntityId, Equipped)>
    decreases reqs.len(),
{
    if reqs.len() == 0 {
        equipped
    } else {
        let r = reqs.last();
        toggled(all_toggled(equipped, equipables, reqs.drop_last()), equipables, r.0, r.2.slots@, r.1.item)
    }
}

/// The slot of the item `e`, if it can be equipped.
fn find_slot(equipables: &Vec<(EntityId, Equipable)>, e: EntityId) -> (r: Option<EquipmentSlot>)
    ensures
        r == slot_of(equipables@, e),
{
    let ghost p = equipable_pred(e);
    let mut i: usize = 0;
    while i < equipables.len()
        invariant
            i <= equipables@.len(),
            p == equipable_pred(e),
            forall|j: int| 0 <= j < i ==> !p(equipables@[j]),
        decreases equipables@.len() - i,
    {
        if equipables[i].0 == e {
            proof { crate::search::lemma_first_index_is(equipables@, p, i as int); }
            return Some(equipables[i].1.slot);
        }
        i = i + 1;
    }
    proof { crate::search::lemma_first_index_none(equipables@, p); }
    None
}

/// Toggles whether items are equipped.
pub struct EquipActionHandler;

impl EquipActionHandler {
    /// Serves the requests (equipper, action, the equipper's slots) in order, each toggling its
    /// item as `toggled` says, and then drops the requests.
    pub fn run(&mut self, reqs: &mut Vec<(EntityId, EquipAction, EquipmentSlots)>, equipped: &mut Vec<(EntityId, Equipped)>, equipables: &Vec<(EntityId, Equipable)>)
        ensures
            final(equipped)@ == all_toggled(old(equipped)@, equipables@, old(reqs)@),
            final(reqs)@.len() == 0,
    {
        let mut i: usize = 0;
        while i < reqs.len()
            invariant
                i <= reqs@.len(),
                reqs@ == old(reqs)@,
                equipped@ == all_toggled(old(equipped)@, equipables@, reqs@.take(i as int)),
            decreases reqs@.len() - i,
        {
            proof {
                assert(reqs@.take(i as int + 1).drop_last() =~= reqs@.take(i as int));
            }
            let equipper = reqs[i].0;
            let item = reqs[i].1.item;
            let ghost before = equipped@;
            match find_slot(equipables, item) {
                None => {},
                Some(slot) => {
                    let mut available: usize = 0;
                    let mut k: usize = 0;
                    while k < reqs[i].2.slots.len()
                        invariant
                            k <= reqs@[i as int].2.slots@.len(),
                            i < reqs@.len(),
                            available == slot_count(reqs@[i as int].2.slots@.take(k as int), slot),
                            available <= k,
                        decreases reqs@[i as int].2.slots@.len() - k,
                    {
                        assert(reqs@[i as int].2.slots@.take(k as int + 1).drop_last() =~= reqs@[i as int].2.slots@.take(k as int));
                        if reqs[i].2.slots[k] == slot {
                            available = available + 1;
                        }
                        k = k + 1;
                    }
                    assert(reqs@[i as int].2.slots@.take(k as int) =~= reqs@[i as int].2.slots@);
                    let ghost ep = equipped_pred(item);
                    let mut worn: usize = 0;
                    let mut at: Option<usize> = None;
                    let mut m: usize = 0;
                    while m < equipped.len()
                        invariant
                            m <= equipped@.len(),
                            ep == equipped_pred(item),
                            worn == worn_count(equipped@.take(m as int), equipables@, equipper, slot),
                            worn <= m,
                            match at {
                                Some(a) => a < m && first_index(equipped@, ep) == Some(a as int),
                                None => forall|j: int| 0 <= j < m ==> !ep(equipped@[j]),
                            },
                        decreases equipped@.len() - m,
                    {
                        assert(equipped@.take(m as int + 1).drop_last() =~= equipped@.take(m as int));
                        let (e, eq) = equipped[m];
                        if eq.on == equipper {
                            if find_slot(equipables, e) == Some(slot) {
                                worn = worn + 1;
                            }
                        }
                        if at.is_none() && e == item {
                            proof { crate::search::lemma_first_index_is(equipped@, ep, m as int); }
                            at = Some(m);
                        }
                        m = m + 1;
                    }
                    assert(equipped@.take(m as int) =~= equipped@);
                    match at {
                        Some(a) => {
                            equipped.remove(a);
                        },
                        None => {
                            proof { crate::search::lemma_first_index_none(equipped@, ep); }
                            if worn < available {
                                equipped.push((item, Equipped { on: equipper }));
                            }
                        },
                    }
                },
            }
            assert(equipped@ == toggled(before, equipables@, equipper, reqs@[i as int].2.slots@, item));
            i = i + 1;
        }
        assert(reqs@.take(i as int) =~= reqs@);
        reqs.clear();
    }
}

/// Toggling an item that is not equipped twice leaves the equipped items as they were: either
/// it could not be put on, or it was put on and is taken off again.
pub proof fn lemma_toggle_twice(
    equipped: Seq<(EntityId, Equipped)>,
    equipables: Seq<(EntityId, Equipable)>,
    equipper: EntityId,
    slots: Seq<EquipmentSlot>,
    item: EntityId,
)
    requires
        first_index(equipped, equipped_pred(item)) is None,
    ensures
        toggled(toggled(equipped, equipables, equipper, slots, item), equipables, equipper, slots, item) == equipped,
{
    match slot_of(equipables, item) {
        None => {},
        Some(slot) => {
            if worn_count(equipped, equipables, equipper, slot) < slot_count(slots, slot) {
                let t = equipped.push((item, Equipped { on: equipper }));
                let p = equipped_pred(item);
                assert forall|m: int| 0 <= m < equipped.len() implies !p(t[m]) by {
                    assert(t[m] == equipped[m]);
                }
                crate::search::lemma_first_index_is(t, p, equipped.len() as int);
                assert(t.remove(equipped.len() as int) =~= equipped);
            }
        },
    }
}

proof fn lemma_worn_count_push(
    equipped: Seq<(EntityId, Equipped)>,
    equipables: Seq<(EntityId, Equipable)>,
    on: EntityId,
    slot: EquipmentSlot,
    x: (EntityId, Equipped),
)
    ensures
        worn_count(equipped.push(x), equipables, on, slot) == worn_count(equipped, equipables, on, slot)
            + if x.1.on == on && slot_of(equipables, x.0) == Some(slot) { 1nat } else { 0nat },
{
    assert(equipped.push(x).drop_last() =~= equipped);
}

proof fn lemma_worn_count_remove(
    equipped: Seq<(EntityId, Equipped)>,
    equipables: Seq<(EntityId, Equipable)>,
    on: EntityId,
    slot: EquipmentSlot,
    k: int,
)
    requires
        0 <= k < equipped.len(),
    ensures
        worn_count(equipped.remove(k), equipables, on, slot) <= worn_count(equipped, equipables, on, slot),
    decreases equipped.len(),
{
    if k == equipped.len() - 1 {
        assert(equipped.remove(k) =~= equipped.drop_last());
    } else {
        lemma_worn_count_remove(equipped.drop_last(), equipables, on, slot, k);
        assert(equipped.remove(k).drop_last() =~= equipped.drop_last().remove(k));
        assert(equipped.remove(k).last() == equipped.last());
    }
}

/// An equip request never gives its equipper more items in a slot than it has slots of that
/// kind, when it had no more before.
pub proof fn lemma_toggle_keeps_capacity(
    equipped: Seq<(EntityId, Equipped)>,
    equipables: Seq<(EntityId, Equipable)>,
    equipper: EntityId,
    slots: Seq<EquipmentSlot>,
    item: EntityId,
    slot: EquipmentSlot,
)
    requires
        worn_count(equipped, equipables, equipper, slot) <= slot_count(slots, slot),
    ensures
        worn_count(toggled(equipped, equipables, equipper, slots, item), equipables, equipper, slot) <= slot_count(slots, slot),
{
    match slot_of(equipables, item) {
        None => {},
        Some(s) => match first_index(equipped, equipped_pred(item)) {
            Some(k) => {
                lemma_worn_count_remove(equipped, equipables, equipper, slot, k);
            },
            None => {
                if worn_count(equipped, equipables, equipper, s) < slot_count(slots, s) {
                    lemma_worn_count_push(equipped, equipables, equipper, slot, (item, Equipped { on: equipper }));
                }
            },
        },
    }
}

/// A toggle by `equipper` never adds to what another entity wears.
proof fn lemma_toggle_others(
    equipped: Seq<(EntityId, Equipped)>,
    equipables: Seq<(EntityId, Equipable)>,
    equipper: EntityId,
    slots: Seq<EquipmentSlot>,
    item: EntityId,
    on: EntityId,
    slot: EquipmentSlot,
)
    requires
        on != equipper,
    ensures
        worn_count(toggled(equipped, equipables, equipper, slots, item), equipables, on, slot)
            <= worn_count(equipped, equipables, on, slot),
{
    match slot_of(equipables, item) {
        None => {},
        Some(s) => match first_index(equipped, equipped_pred(item)) {
            Some(k) => {
                lemma_worn_count_remove(equipped, equipables, on, slot, k);
            },
            None => {
                if worn_count(equipped, equipables, equipper, s) < slot_count(slots, s) {
                    lemma_worn_count_push(equipped, equipables, on, slot, (item, Equipped { on: equipper }));
                }
            },
        },
    }
}

/// Whether no entity wears more items in a slot than it has slots of that kind, where
/// `slots_of` gives each entity's slots.
pub open spec fn within_slots(
    equipped: Seq<(EntityId, Equipped)>,
    equipables: Seq<(EntityId, Equipable)>,
    slots_of: spec_fn(EntityId) -> Seq<EquipmentSlot>,
) -> bool {
    forall|on: EntityId, slot: EquipmentSlot| #[trigger] worn_count(equipped, equipables, on, slot) <= slot_count(slots_of(on), slot)
}

/// Serving a whole run of equip requests (as `EquipActionHandler::run` does, its result being
/// `all_toggled`) keeps every entity within its slots, when each request carries its
/// equipper's slots and every entity was within its slots before.
pub proof fn lemma_run_keeps_capacity(
    equipped: Seq<(EntityId, Equipped)>,
    equipables: Seq<(EntityId, Equipable)>,
    reqs: Seq<(EntityId, EquipAction, EquipmentSlots)>,
    slots_of: spec_fn(EntityId) -> Seq<EquipmentSlot>,
)
    requires
        within_slots(equipped, equipables, slots_of),
        forall|i: int| 0 <= i < reqs.len() ==> (#[trigger] reqs[i]).2.slots@ == slots_of(reqs[i].0),
    ensures
        within_slots(all_toggled(equipped, equipables, reqs), equipables, slots_of),
    decreases reqs.len(),
{
    if reqs.len() > 0 {
        let rest = reqs.drop_last();
        assert forall|i: int| 0 <= i < rest.len() implies (#[trigger] rest[i]).2.slots@ == slots_of(rest[i].0) by {
            assert(rest[i] == reqs[i]);
        }
        lemma_run_keeps_capacity(equipped, equipables, rest, slots_of);
        let prev = all_toggled(equipped, equipables, rest);
        let r = reqs.last();
        assert(r.2.slots@ == slots_of(r.0)) by {
            assert(reqs[reqs.len() - 1] == r);
        }
        assert forall|on: EntityId, slot: EquipmentSlot|
            #[trigger] worn_count(all_toggled(equipped, equipables, reqs), equipables, on, slot) <= slot_count(slots_of(on), slot) by {
            assert(worn_count(prev, equipables, on, slot) <= slot_count(slots_of(on), slot));
            if on == r.0 {
                lemma_toggle_keeps_capacity(prev, equipables, r.0, r.2.slots@, r.1.item, slot);
            } else {
                lemma_toggle_others(prev, equipables, r.0, r.2.slots@, r.1.item, on, slot);
            }
        }
    }
}

} // verus!
