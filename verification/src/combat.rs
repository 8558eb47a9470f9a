use vstd::prelude::*;
use crate::components::{AttackAction, AttackBonus, EntityId, EntityStats, HealthStats, SufferDamage};
use crate::message_log::{lines_view, LogLine, MessageType};
use crate::search::first_index;
use crate::text::{decimal, decimal_text};

verus! {

broadcast use crate::search::lemma_first_index;

/// The damage queued up for entities, one entry per entity.
pub struct DamageStore {
    pub entries: Vec<(EntityId, SufferDamage)>,
}

impl View for DamageStore {
    type V = Seq<(EntityId, Seq<i32>)>;

    open spec fn view(&self) -> Seq<(EntityId, Seq<i32>)> {
        self.entries@.map_values(|p: (EntityId, SufferDamage)| (p.0, p.1.amount@))
    }
}

/// The predicate "is the entry of `e`".
pub open spec fn damage_pred(e: EntityId) -> spec_fn((EntityId, Seq<i32>)) -> bool {
    |p: (EntityId, Seq<i32>)| p.0 == e
}

/// The store after `amount` is queued for `victim`: added to its entry, or as a new entry.
pub open spec fn damage_added(s: Seq<(EntityId, Seq<i32>)>, victim: EntityId, amount: i32) -> Seq<(EntityId, Seq<i32>)> {
    match first_index(s, damage_pred(victim)) {
        Some(k) => s.update(k, (victim, s[k].1.push(amount))),
        None => s.push((victim, seq![amount])),
    }
}

impl DamageStore {
    pub fn new() -> (s: Self)
        ensures
            s@ == Seq::<(EntityId, Seq<i32>)>::empty(),
    {
        let s = Self { entries: Vec::new() };
        assert(s@ =~= Seq::<(EntityId, Seq<i32>)>::empty());
        s
    }

    /// Empties the store.
    pub fn clear(&mut self)
        ensures
            final(self)@ == Seq::<(EntityId, Seq<i32>)>::empty(),
    {
        self.entries.clear();
        assert(self@ =~= Seq::<(EntityId, Seq<i32>)>::empty());
    }
}

impl SufferDamage {
    /// Queues `amount` (negative: damage, positive: healing) for `victim`.
    pub fn new_damage(store: &mut DamageStore, victim: EntityId, amount: i32)
        ensures
            final(store)@ == damage_added(old(store)@, victim, amount),
    {
        let ghost p = damage_pred(victim);
        let mut i: usize = 0;
        while i < store.entries.len()
            invariant
                i <= store@.len(),
                store.entries@ == old(store).entries@,
                store@.len() == store.entries@.len(),
                p == damage_pred(victim),
                forall|j: int| 0 <= j < i ==> !p(store@[j]),
            decreases store.entries@.len() - i,
        {
            if store.entries[i].0 == victim {
                proof { crate::search::lemma_first_index_is(store@, p, i as int); }
                let (e, old_entry) = store.entries.remove(i);
                let mut amounts = old_entry.amount;
                amounts.push(amount);
                store.entries.insert(i, (e, SufferDamage { amount: amounts }));
                assert(store@ =~= damage_added(old(store)@, victim, amount));
                return;
            }
            i = i + 1;
        }
        proof { crate::search::lemma_first_index_none(store@, p); }
        let mut amounts: Vec<i32> = Vec::new();
        amounts.push(amount);
        store.entries.push((victim, SufferDamage { amount: amounts }));
        assert(store@ =~= damage_added(old(store)@, victim, amount));
    }
}

/// An equipped item with an attack bonus, in the bag of `owner`.
#[derive(Debug, Copy, Clone, PartialEq, Eq, Structural)]
pub struct BonusItem {
    pub owner: EntityId,
    pub bonus: AttackBonus,
}

/// The damage after one bonus: a positive bonus adds, a negative one takes away down to zero.
pub open spec fn apply_bonus(d: int, b: i32) -> int {
    if b >= 0 || d + b >= 0 { d + b } else { 0 }
}

/// The damage after the bonuses `bs`, in order.
pub open spec fn with_bonuses(d: int, bs: Seq<i32>) -> int
    decreases bs.len(),
{
    if bs.len() == 0 { d } else { apply_bonus(with_bonuses(d, bs.drop_last()), bs.last()) }
}

/// The bonuses of the items in the bag of `owner`, in order.
pub open spec fn bonuses_of(items: Seq<BonusItem>, owner: EntityId) -> Seq<i32>
    decreases items.len(),
{
    if items.len() == 0 {
        Seq::empty()
    } else if items.last().owner == owner {
        bonuses_of(items.drop_last(), owner).push(items.last().bonus.0)
    } else {
        bonuses_of(items.drop_last(), owner)
    }
}

/// The sum of the positive bonuses of the items in the bag of `owner`.
pub open spec fn positive_total(items: Seq<BonusItem>, owner: EntityId) -> int
    decreases items.len(),
{
    if items.len() == 0 {
        0
    } else {
        positive_total(items.drop_last(), owner) + if items.last().owner == owner && items.last().bonus.0 > 0 {
            items.last().bonus.0 as int
        } else {
            0
        }
    }
}

/// No item in the bag of `owner` has the smallest bonus, whose size does not fit an `i32`.
pub open spec fn bonuses_ok(items: Seq<BonusItem>, owner: EntityId) -> bool {
    forall|i: int| 0 <= i < items.len() && (#[trigger] items[i]).owner == owner ==> items[i].bonus.0 > i32::MIN
}

proof fn lemma_positive_total_prefix(items: Seq<BonusItem>, owner: EntityId, j: int)
    requires
        0 <= j <= items.len(),
    ensures
        0 <= positive_total(items.take(j), owner) <= positive_total(items, owner),
    decreases items.len(),
{
    if j < items.len() {
        lemma_positive_total_prefix(items.drop_last(), owner, j);
        assert(items.drop_last().take(j) =~= items.take(j));
    } else {
        assert(items.take(j) =~= items);
    }
    if items.take(j).len() > 0 {
        lemma_positive_total_prefix(items.take(j).drop_last(), owner, j - 1);
        assert(items.take(j).drop_last().take(j - 1) =~= items.take(j).drop_last());
    }
}

/// The damage `base` after the bonuses of the items in the bag of `attacker`.
fn attack_damage(base: usize, attacker: EntityId, items: &Vec<BonusItem>) -> (d: usize)
    requires
        base + positive_total(items@, attacker) <= i32::MAX,
        bonuses_ok(items@, attacker),
    ensures
        d == with_bonuses(base as int, bonuses_of(items@, attacker)),
        d <= base + positive_total(items@, attacker),
{
    let mut damage = base;
    let mut j: usize = 0;
    while j < items.len()
        invariant
            j <= items@.len(),
            base + positive_total(items@, attacker) <= i32::MAX,
            bonuses_ok(items@, attacker),
            damage == with_bonuses(base as int, bonuses_of(items@.take(j as int), attacker)),
            damage <= base + positive_total(items@.take(j as int), attacker),
        decreases items@.len() - j,
    {
        proof {
            lemma_positive_total_prefix(items@, attacker, j as int + 1);
            assert(items@.take(j as int + 1).drop_last() =~= items@.take(j as int));
            assert(items@.take(j as int + 1).last() == items@[j as int]);
        }
        let item = items[j];
        let ghost prev = bonuses_of(items@.take(j as int), attacker);
        if item.owner == attacker {
            let b = item.bonus.0;
            assert(items@[j as int].owner == attacker);
            assert(bonuses_of(items@.take(j as int + 1), attacker) == prev.push(b));
            assert(prev.push(b).drop_last() =~= prev);
            if b >= 0 {
                damage = damage + (b as usize);
            } else {
                let less = (-b) as usize;
                damage = damage.saturating_sub(less);
            }
        }
        j = j + 1;
    }
    assert(items@.take(j as int) =~= items@);
    damage
}

/// An entity that attacks: its strength and its name.
pub struct Attacker {
    pub entity: EntityId,
    pub stats: EntityStats,
    pub name: String,
}

/// An entity that can be hit: its health and its name, if it has one.
pub struct HitTarget {
    pub entity: EntityId,
    pub health: HealthStats,
    pub name: Option<String>,
}

/// The predicate "is the target `e`".
pub open spec fn target_pred(e: EntityId) -> spec_fn(HitTarget) -> bool {
    |t: HitTarget| t.entity == e
}

/// The message when the target's defense is above the attacker's strength.
pub open spec fn no_damage_text() -> Seq<char> {
    "Took no damage because defense is greater"@
}

/// The message of an attacker named `name` dealing `damage` to a target named `target`.
pub open spec fn dealt_text(name: Seq<char>, damage: nat, target: Seq<char>) -> Seq<char> {
    name + " dealt "@ + decimal(damage) + " damage to "@ + target
}

/// What one attack does: `None` when the target cannot be hit, otherwise the damage it deals
/// (`None` when the defense is above the strength).
pub open spec fn attack_result(a: (Attacker, AttackAction), targets: Seq<HitTarget>, items: Seq<BonusItem>) -> Option<Option<int>> {
    match first_index(targets, target_pred(a.1.target)) {
        None => None,
        Some(t) => if targets[t].health.defense > a.0.stats.set.strength {
            Some(None)
        } else {
            Some(Some(with_bonuses(a.0.stats.set.strength - targets[t].health.defense, bonuses_of(items, a.0.entity))))
        },
    }
}

/// The message line of one attack.
pub open spec fn attack_lines(a: (Attacker, AttackAction), targets: Seq<HitTarget>, items: Seq<BonusItem>) -> Seq<(MessageType, Seq<char>)> {
    match attack_result(a, targets, items) {
        None => Seq::empty(),
        Some(None) => seq![(MessageType::INFO, no_damage_text())],
        Some(Some(d)) => {
            let t = first_index(targets, target_pred(a.1.target))->0;
            seq![(MessageType::INFO, dealt_text(a.0.name@, d as nat, targets[t].name->0@))]
        },
    }
}

/// The messages of the attacks `attacks`, in order.
pub open spec fn attacks_lines(attacks: Seq<(Attacker, AttackAction)>, targets: Seq<HitTarget>, items: Seq<BonusItem>) -> Seq<(MessageType, Seq<char>)>
    decreases attacks.len(),
{
    if attacks.len() == 0 {
        Seq::empty()
    } else {
        attacks_lines(attacks.drop_last(), targets, items) + attack_lines(attacks.last(), targets, items)
    }
}

/// The damage store after the attacks `attacks`, in order: each that hits queues its damage,
/// negated, for its target.
pub open spec fn attacks_damage(s: Seq<(EntityId, Seq<i32>)>, attacks: Seq<(Attacker, AttackAction)>, targets: Seq<HitTarget>, items: Seq<BonusItem>) -> Seq<(EntityId, Seq<i32>)>
    decreases attacks.len(),
{
    if attacks.len() == 0 {
        s
    } else {
        let before = attacks_damage(s, attacks.drop_last(), targets, items);
        match attack_result(attacks.last(), targets, items) {
            Some(Some(d)) => damage_added(before, attacks.last().1.target, (-d) as i32),
            _ => before,
        }
    }
}

/// Whether an attack can be carried out: a target that can be hit has a name, and the damage
/// with every positive bonus fits an `i32`.
pub open spec fn attack_ok(a: (Attacker, AttackAction), targets: Seq<HitTarget>, items: Seq<BonusItem>) -> bool {
    match first_index(targets, target_pred(a.1.target)) {
        None => true,
        Some(t) => {
            &&& targets[t].name is Some
            &&& a.0.stats.set.strength + positive_total(items, a.0.entity) <= i32::MAX
            &&& bonuses_ok(items, a.0.entity)
        },
    }
}

/// Deals the damage of attacks.
pub struct AttackActionHandler;

impl AttackActionHandler {
    /// Carries out the attacks `attacks` in order: for an attack whose target can be hit, the
    /// damage is the attacker's strength less the target's defense (nothing when the defense is
    /// greater), with the bonuses of the attacker's equipped items applied in turn; it is queued,
    /// negated, for the target. Returns the messages.
    pub fn run(&mut self, attacks: &Vec<(Attacker, AttackAction)>, targets: &Vec<HitTarget>, items: &Vec<BonusItem>, store: &mut DamageStore) -> (lines: Vec<LogLine>)
        requires
            forall|i: int| 0 <= i < attacks@.len() ==> attack_ok(#[trigger] attacks@[i], targets@, items@),
        ensures
            lines_view(lines@) == attacks_lines(attacks@, targets@, items@),
            final(store)@ == attacks_damage(old(store)@, attacks@, targets@, items@),
    {
        let mut lines: Vec<LogLine> = Vec::new();
        let mut i: usize = 0;
        while i < attacks.len()
            invariant
                i <= attacks@.len(),
                forall|k: int| 0 <= k < attacks@.len() ==> attack_ok(#[trigger] attacks@[k], targets@, items@),
                lines_view(lines@) == attacks_lines(attacks@.take(i as int), targets@, items@),
                store@ == attacks_damage(old(store)@, attacks@.take(i as int), targets@, items@),
            decreases attacks@.len() - i,
        {
            proof {
                assert(attacks@.take(i as int + 1).drop_last() =~= attacks@.take(i as int));
            }
            let ghost lines_before = lines_view(lines@);
            let (attacker, action) = &attacks[i];
            assert(attack_ok(attacks@[i as int], targets@, items@));
            let ghost tp = target_pred(action.target);
            let mut t: usize = 0;
            let mut found = false;
            while !found && t < targets.len()
                invariant
                    t <= targets@.len(),
                    tp == target_pred(action.target),
                    forall|j: int| 0 <= j < t ==> !tp(targets@[j]),
                    found ==> t < targets@.len() && tp(targets@[t as int]),
                decreases targets@.len() - t + if found { 0int } else { 1int },
            {
                if targets[t].entity == action.target {
                    found = true;
                } else {
                    t = t + 1;
                }
            }
            if found {
                proof { crate::search::lemma_first_index_is(targets@, tp, t as int); }
                let target = &targets[t];
                let strength = attacker.stats.set.strength;
                if target.health.defense as usize > strength {
                    proof { reveal_strlit("Took no damage because defense is greater"); }
                    lines.push(LogLine::new(MessageType::INFO, String::from_str("Took no damage because defense is greater")));
                } else {
                    let damage = attack_damage(strength - target.health.defense as usize, attacker.entity, items);
                    let target_name = match &target.name {
                        Some(n) => n,
                        None => {
                            assert(false);
                            return lines;
                        },
                    };
                    let mut text = attacker.name.clone();
                    proof { reveal_strlit(" dealt "); reveal_strlit(" damage to "); }
                    text.append(" dealt ");
                    let amount = decimal_text(damage);
                    text.append(amount.as_str());
                    text.append(" damage to ");
                    text.append(target_name.as_str());
                    lines.push(LogLine::new(MessageType::INFO, text));
                    SufferDamage::new_damage(store, action.target, -(damage as i32));
                }
            } else {
                proof { crate::search::lemma_first_index_none(targets@, tp); }
            }
            assert(lines_view(lines@) =~= lines_before + attack_lines(attacks@[i as int], targets@, items@));
            i = i + 1;
        }
        assert(attacks@.take(i as int) =~= attacks@);
        lines
    }
}

} // verus!
