use vstd::prelude::*;
use crate::items::{ItemID, ItemQty};

verus! {

/// A loot table: the chance (out of 100) of a first drop, and the weighted entries.
pub struct Drops {
    /// 1 - 100 indicates the chance there is a drop
    pub drop_chance: u32,
    pub loot_table: Vec<Loot>,
}

/// One entry of a loot table.
pub struct Loot {
    pub id: ItemID,
    pub qty: DropQty,
    pub weight: u32,
}

/// How many items one drop of an entry gives.
#[derive(Debug, Copy, Clone, PartialEq, Eq, Structural)]
pub enum DropQty {
    Single(usize),
    Range { min: usize, max: usize },
}

} // verus!

use weighted_rand::builder::{NewBuilder, WalkerTableBuilder};
use weighted_rand::table::WalkerTable;

verus! {

/// The alias table builder of `weighted_rand`; its contents are not visible.
#[verifier::external_type_specification]
#[verifier::external_body]
pub struct ExWalkerTableBuilder(WalkerTableBuilder);

/// The alias table of `weighted_rand`; its contents are not visible.
#[verifier::external_type_specification]
#[verifier::external_body]
pub struct ExWalkerTable(WalkerTable);

/// The weights a table builder was made from, one per entry.
pub uninterp spec fn builder_weights(b: WalkerTableBuilder) -> Seq<u32>;

/// For each entry of an alias table, whether a draw can give it.
pub uninterp spec fn table_drawable(t: WalkerTable) -> Seq<bool>;

/// The sum of the weights.
pub open spec fn weight_sum(s: Seq<u32>) -> nat
    decreases s.len(),
{
    if s.len() == 0 { 0 } else { (weight_sum(s.drop_last()) + s.last()) as nat }
}

/// `WalkerTableBuilder::new` on `u32` weights: keeps one weight per entry, each multiplied by
/// the number of entries (that product must fit in a `u32`, as must their sum, which `build`
/// computes). The builder is made from the weights given.
#[verifier::external_body]
fn walker_builder(weights: &[u32]) -> (b: WalkerTableBuilder)
    requires
        weight_sum(weights@) * weights@.len() <= u32::MAX,
    ensures
        builder_weights(b) == weights@,
{
    WalkerTableBuilder::new(weights)
}

/// `WalkerTableBuilder::build`: the alias table for the builder's weights, one entry per
/// weight. As the crate's documentation says, an entry of weight zero cannot be drawn (its
/// probability sends every draw of it to its alias, an entry above the mean weight), unless all
/// weights are zero: then every entry is drawn alike. Which of the other entries a draw can give
/// is left unsaid: rounding of the `f32` probabilities decides it at the edges.
#[verifier::external_body]
fn walker_build(b: &WalkerTableBuilder) -> (t: WalkerTable)
    ensures
        table_drawable(t).len() == builder_weights(*b).len(),
        weight_sum(builder_weights(*b)) > 0 ==> forall|i: int|
            0 <= i < builder_weights(*b).len() && builder_weights(*b)[i] == 0 ==> !#[trigger] table_drawable(t)[i],
        weight_sum(builder_weights(*b)) == 0 ==> forall|i: int|
            0 <= i < builder_weights(*b).len() ==> #[trigger] table_drawable(t)[i],
{
    b.build()
}

/// `WalkerTable::next`: an index of an entry that a draw can give, drawn with the thread's
/// random generator. Which one comes out is left unsaid, as it rests on chance; `gen_range`
/// panics on an empty table, hence the `requires`.
#[verifier::external_body]
fn walker_next(t: &WalkerTable) -> (i: usize)
    requires
        table_drawable(*t).len() > 0,
    ensures
        i < table_drawable(*t).len(),
        table_drawable(*t)[i as int],
{
    t.next()
}

/// Most drops one loot roll can give.
pub const MAX_ITEM_DROPS: u32 = 10;

/// Two to the power `k`.
pub open spec fn two_pow(k: nat) -> nat
    decreases k,
{
    if k == 0 { 1 } else { 2 * two_pow((k - 1) as nat) }
}

/// `two_pow` grows with its exponent and is at least one.
proof fn lemma_two_pow_mono(k: nat, m: nat)
    requires
        k <= m,
    ensures
        1 <= two_pow(k) <= two_pow(m),
    decreases m,
{
    if m > k {
        lemma_two_pow_mono(k, (m - 1) as nat);
    } else if k > 0 {
        lemma_two_pow_mono((k - 1) as nat, (k - 1) as nat);
    }
}

/// Whether another drop follows when `k` drops were made and the roll (out of 100) is `roll`:
/// the roll must be below the chance halved `k` times, and fewer than ten drops made.
pub open spec fn keeps_dropping(chance: u32, k: nat, roll: usize) -> bool {
    roll < chance as int / two_pow(k) as int && k < MAX_ITEM_DROPS
}

/// The drop given by entry `pick` of the table, with `qty_draw` as the amount of a range entry.
pub open spec fn drop_of(table: Seq<Loot>, pick: usize, qty_draw: usize) -> (ItemID, ItemQty) {
    (table[pick as int].id, ItemQty(match table[pick as int].qty {
        DropQty::Single(n) => n,
        DropQty::Range { .. } => qty_draw,
    }))
}

/// `drops` is what the loot table gives for the rolls `rolls` (out of 100), the entries picked
/// `picks` and the amounts drawn `qtys`: one drop per roll that keeps dropping, stopping at the
/// first roll that does not. Entries are picked by weight: unless all weights are zero, no
/// entry of weight zero is picked.
pub open spec fn drops_from_draws(d: Drops, rolls: Seq<usize>, picks: Seq<usize>, qtys: Seq<usize>, drops: Seq<(ItemID, ItemQty)>) -> bool {
    let n = drops.len();
    &&& rolls.len() == n + 1
    &&& picks.len() == n
    &&& qtys.len() == n
    &&& forall|k: int| 0 <= k <= n ==> #[trigger] rolls[k] < 100
    &&& forall|k: int| 0 <= k < n ==> keeps_dropping(d.drop_chance, k as nat, #[trigger] rolls[k])
    &&& !keeps_dropping(d.drop_chance, n, rolls[n as int])
    &&& forall|k: int| 0 <= k < n ==> (#[trigger] picks[k]) < d.loot_table@.len()
    &&& weight_sum(loot_weights(d.loot_table@)) > 0 ==> forall|k: int| 0 <= k < n ==> d.loot_table@[#[trigger] picks[k] as int].weight > 0
    &&& forall|k: int| 0 <= k < n ==> #[trigger] drops[k] == drop_of(d.loot_table@, picks[k], qtys[k])
    &&& forall|k: int| 0 <= k < n ==> match d.loot_table@[picks[k] as int].qty {
        DropQty::Range { min, max } => min <= #[trigger] qtys[k] < max,
        DropQty::Single(_) => true,
    }
}

/// The weights of the loot table.
pub open spec fn loot_weights(table: Seq<Loot>) -> Seq<u32> {
    table.map_values(|l: Loot| l.weight)
}

/// Whether an entry of a loot table can come out of a pick: unless all weights are zero, only
/// entries of positive weight can.
pub open spec fn may_be_picked(table: Seq<Loot>, i: int) -> bool {
    table[i].weight > 0 || weight_sum(loot_weights(table)) == 0
}

/// Whether the loot table can be rolled without a failure: its weights times their number fit
/// in a `u32` (the table is always built), and, when the first roll of the generator seeded with
/// 99 makes a drop, the table has entries and every entry that can be picked has a range that
/// is not empty.
pub open spec fn drops_ok(d: Drops) -> bool {
    &&& weight_sum(loot_weights(d.loot_table@)) * d.loot_table@.len() <= u32::MAX
    &&& crate::rng::seeded_first_draw(99, 0, 100) < d.drop_chance ==> {
        &&& d.loot_table@.len() > 0
        &&& forall|i: int| 0 <= i < d.loot_table@.len() && #[trigger] may_be_picked(d.loot_table@, i) ==> match d.loot_table@[i].qty {
            DropQty::Range { min, max } => min < max,
            DropQty::Single(_) => true,
        }
    }
}

/// A sum of weights only grows with more weights.
proof fn lemma_weight_sum_prefix(s: Seq<u32>, j: int)
    requires
        0 <= j <= s.len(),
    ensures
        weight_sum(s.take(j)) <= weight_sum(s),
    decreases s.len(),
{
    if j < s.len() {
        lemma_weight_sum_prefix(s.drop_last(), j);
        assert(s.drop_last().take(j) =~= s.take(j));
    } else {
        assert(s.take(j) =~= s);
    }
}

/// Whether the loot table can be rolled without a failure, as `drops_ok` says.
pub fn check_drops(d: &Drops) -> (r: bool)
    ensures
        r == drops_ok(*d),
{
    let ghost ws = loot_weights(d.loot_table@);
    let n = d.loot_table.len();
    let mut sum: u64 = 0;
    let mut j: usize = 0;
    while j < n
        invariant
            j <= n,
            n == d.loot_table@.len(),
            ws == loot_weights(d.loot_table@),
            sum == weight_sum(ws.take(j as int)),
            sum <= u32::MAX,
        decreases n - j,
    {
        assert(ws.take(j as int + 1).drop_last() =~= ws.take(j as int));
        sum = sum + d.loot_table[j].weight as u64;
        if sum > u32::MAX as u64 {
            proof {
                lemma_weight_sum_prefix(ws, j as int + 1);
                assert(weight_sum(ws) * n >= weight_sum(ws)) by (nonlinear_arith)
                    requires n >= 1;
            }
            return false;
        }
        j = j + 1;
    }
    assert(ws.take(n as int) =~= ws);
    assert((sum as u128) * (n as u128) <= 0x1_0000_0000u128 * 0x1_0000_0000_0000_0000u128) by (nonlinear_arith)
        requires
            sum <= 0x1_0000_0000,
            n <= 0x1_0000_0000_0000_0000;
    if (sum as u128) * (n as u128) > u32::MAX as u128 {
        return false;
    }
    let (_, first) = crate::rng::rng_seeded_first(99, 0, 100);
    if first >= d.drop_chance {
        return true;
    }
    if n == 0 {
        return false;
    }
    let mut i: usize = 0;
    while i < n
        invariant
            i <= n,
            n == d.loot_table@.len(),
            ws == loot_weights(d.loot_table@),
            sum == weight_sum(ws),
            crate::rng::seeded_first_draw(99, 0, 100) < d.drop_chance,
            forall|k: int| 0 <= k < i && #[trigger] may_be_picked(d.loot_table@, k) ==> match d.loot_table@[k].qty {
                DropQty::Range { min, max } => min < max,
                DropQty::Single(_) => true,
            },
        decreases n - i,
    {
        if d.loot_table[i].weight > 0 || sum == 0 {
            match d.loot_table[i].qty {
                DropQty::Range { min, max } => {
                    if min >= max {
                        assert(may_be_picked(d.loot_table@, i as int));
                        return false;
                    }
                },
                DropQty::Single(_) => {},
            }
        } else {
            assert(!may_be_picked(d.loot_table@, i as int));
        }
        i = i + 1;
    }
    true
}

/// Whether every loot table that the dead among `ents` have can be rolled, as `deaths_ok` says.
pub fn check_deaths(edb: &crate::data_read::GameData, ents: &Vec<(crate::components::Position, crate::components::HealthStats, String)>) -> (r: bool)
    ensures
        r == deaths_ok(*edb, ents@),
{
    let mut i: usize = 0;
    while i < ents.len()
        invariant
            i <= ents@.len(),
            forall|k: int| 0 <= k < i && (#[trigger] ents@[k]).1.hp == 0 ==> opt_drops_ok(loot_table_of(*edb, ents@[k].2@)),
        decreases ents@.len() - i,
    {
        if ents[i].1.hp == 0 {
            match DeathLootDrop::drop_table_for(edb, ents[i].2.as_str()) {
                Some(t) => {
                    if !check_drops(t) {
                        assert(!opt_drops_ok(loot_table_of(*edb, ents@[i as int].2@)));
                        return false;
                    }
                },
                None => {},
            }
        }
        i = i + 1;
    }
    true
}

/// Rolls the loot table: a first drop with the table's chance out of 100, each further drop
/// with half the chance of the one before, at most ten; each drop an entry picked by weight.
/// The rolls come from a generator seeded with 99, so whether anything drops at all is fixed by
/// the first roll of that generator.
pub fn generate_drops(drop_table: &Drops) -> (r: Vec<(ItemID, ItemQty)>)
    requires
        drops_ok(*drop_table),
    ensures
        rolled_from(*drop_table, r@),
        r@.len() <= MAX_ITEM_DROPS,
        (r@.len() == 0) == (crate::rng::seeded_first_draw(99, 0, 100) >= drop_table.drop_chance),
{
    let mut drops: Vec<(ItemID, ItemQty)> = Vec::new();
    let mut total_drops: u32 = 0;
    let mut weights: Vec<u32> = Vec::new();
    let mut j: usize = 0;
    while j < drop_table.loot_table.len()
        invariant
            j <= drop_table.loot_table@.len(),
            weights@ == loot_weights(drop_table.loot_table@).take(j as int),
        decreases drop_table.loot_table@.len() - j,
    {
        weights.push(drop_table.loot_table[j].weight);
        assert(weights@ =~= loot_weights(drop_table.loot_table@).take(j as int + 1));
        j = j + 1;
    }
    assert(weights@ =~= loot_weights(drop_table.loot_table@));
    let builder = walker_builder(weights.as_slice());
    let w = walker_build(&builder);
    let ghost mut rolls: Seq<usize> = Seq::empty();
    let ghost mut picks: Seq<usize> = Seq::empty();
    let ghost mut qtys: Seq<usize> = Seq::empty();
    let mut divisor: u32 = 1;
    let (mut rng, first) = crate::rng::rng_seeded_first(99, 0, 100);
    let mut roll: u32 = first;
    proof {
        rolls = rolls.push(roll as usize);
        lemma_two_pow_mono(0, 0);
    }
    while roll < drop_table.drop_chance / divisor && total_drops < MAX_ITEM_DROPS
        invariant
            drops_ok(*drop_table),
            table_drawable(w).len() == drop_table.loot_table@.len(),
            weight_sum(loot_weights(drop_table.loot_table@)) > 0 ==> forall|i: int|
                0 <= i < drop_table.loot_table@.len() && drop_table.loot_table@[i].weight == 0 ==> !#[trigger] table_drawable(w)[i],
            total_drops <= MAX_ITEM_DROPS,
            divisor == two_pow(total_drops as nat),
            divisor >= 1,
            drops@.len() == total_drops,
            rolls.len() == total_drops + 1,
            picks.len() == total_drops,
            qtys.len() == total_drops,
            rolls.last() == roll as usize,
            rolls[0] == crate::rng::seeded_first_draw(99, 0, 100) as usize,
            total_drops == 0 ==> roll == crate::rng::seeded_first_draw(99, 0, 100),
            total_drops > 0 ==> crate::rng::seeded_first_draw(99, 0, 100) < drop_table.drop_chance,
            roll < 100,
            forall|k: int| 0 <= k <= total_drops ==> #[trigger] rolls[k] < 100,
            forall|k: int| 0 <= k < total_drops ==> keeps_dropping(drop_table.drop_chance, k as nat, #[trigger] rolls[k]),
            forall|k: int| 0 <= k < total_drops ==> (#[trigger] picks[k]) < drop_table.loot_table@.len(),
            weight_sum(loot_weights(drop_table.loot_table@)) > 0 ==> forall|k: int| 0 <= k < total_drops ==> drop_table.loot_table@[#[trigger] picks[k] as int].weight > 0,
            forall|k: int| 0 <= k < total_drops ==> #[trigger] drops@[k] == drop_of(drop_table.loot_table@, picks[k], qtys[k]),
            forall|k: int| 0 <= k < total_drops ==> match drop_table.loot_table@[picks[k] as int].qty {
                DropQty::Range { min, max } => min <= #[trigger] qtys[k] < max,
                DropQty::Single(_) => true,
            },
        decreases MAX_ITEM_DROPS - total_drops,
    {
        assert(keeps_dropping(drop_table.drop_chance, total_drops as nat, roll as usize));
        proof {
            lemma_two_pow_mono(total_drops as nat, 9);
            assert(two_pow(9) == 512) by {
                reveal_with_fuel(two_pow, 10);
            }
        }
        assert(crate::rng::seeded_first_draw(99, 0, 100) < drop_table.drop_chance);
        let idx = walker_next(&w);
        assert(loot_weights(drop_table.loot_table@)[idx as int] == drop_table.loot_table@[idx as int].weight);
        assert(may_be_picked(drop_table.loot_table@, idx as int));
        let drop = &drop_table.loot_table[idx];
        let mut qty_draw: usize = 0;
        let qty = match drop.qty {
            DropQty::Single(n) => n,
            DropQty::Range { min, max } => {
                qty_draw = crate::rng::rng_range(&mut rng, min, max);
                qty_draw
            },
        };
        drops.push((drop.id, ItemQty(qty)));
        proof {
            picks = picks.push(idx);
            qtys = qtys.push(qty_draw);
        }
        total_drops = total_drops + 1;
        divisor = divisor * 2;
        roll = crate::rng::rng_range_u32(&mut rng, 0, 100);
        proof { rolls = rolls.push(roll as usize); }
    }
    assert(!keeps_dropping(drop_table.drop_chance, total_drops as nat, rolls[total_drops as int]));
    assert(drops_from_draws(*drop_table, rolls, picks, qtys, drops@));
    proof {
        if total_drops > 0 {
            assert(keeps_dropping(drop_table.drop_chance, 0, rolls[0]));
        }
    }
    drops
}

/// The drops `drops` could come out of rolling the loot table `d`.
pub open spec fn rolled_from(d: Drops, drops: Seq<(ItemID, ItemQty)>) -> bool {
    exists|rolls: Seq<usize>, picks: Seq<usize>, qtys: Seq<usize>| drops_from_draws(d, rolls, picks, qtys, drops)
}

/// The loot table for a dead entity named `name`: the being of that name decides if there is
/// one, otherwise the world object of that name.
pub open spec fn loot_table_of(edb: crate::data_read::GameData, name: Seq<char>) -> Option<Drops> {
    match crate::data_read::beings::being_by_name(edb.beings.data@, name) {
        Some(b) => edb.beings.data@[b].loot,
        None => match crate::data_read::world_objs::obj_by_name(edb.world_objs.data@, name) {
            Some(o) => edb.world_objs.data@[o].loot,
            None => None,
        },
    }
}

/// A missing loot table, or one that can be rolled.
pub open spec fn opt_drops_ok(o: Option<Drops>) -> bool {
    match o {
        Some(t) => drops_ok(t),
        None => true,
    }
}

/// Every loot table that the dead among `ents` (position, health, name) have rolled can be
/// rolled.
pub open spec fn deaths_ok(edb: crate::data_read::GameData, ents: Seq<(crate::components::Position, crate::components::HealthStats, String)>) -> bool {
    forall|i: int| 0 <= i < ents.len() && (#[trigger] ents[i]).1.hp == 0 ==> opt_drops_ok(loot_table_of(edb, ents[i].2@))
}

/// `n` requests for one item `id` on the ground at `pos`.
pub open spec fn ground_requests(id: ItemID, pos: crate::components::Position, n: nat) -> Seq<crate::items::ItemSpawnRequest> {
    Seq::new(n, |k: int| crate::items::ItemSpawnRequest { item_id: id, spawn_type: crate::items::SpawnType::OnGround(pos) })
}

/// The requests that put the drops `drops` on the ground at `pos`, one per item.
pub open spec fn drop_requests(pos: crate::components::Position, drops: Seq<(ItemID, ItemQty)>) -> Seq<crate::items::ItemSpawnRequest>
    decreases drops.len(),
{
    if drops.len() == 0 {
        Seq::empty()
    } else {
        drop_requests(pos, drops.drop_last()) + ground_requests(drops.last().0, pos, drops.last().1.0 as nat)
    }
}

/// The drops `ds[i]` of entity `i` of `ents` (position, health, name): rolled from its loot
/// table when its health is zero and it has one, none otherwise.
pub open spec fn deaths_rolled(edb: crate::data_read::GameData, ents: Seq<(crate::components::Position, crate::components::HealthStats, String)>, ds: Seq<Seq<(ItemID, ItemQty)>>) -> bool {
    &&& ds.len() == ents.len()
    &&& forall|i: int| 0 <= i < ents.len() ==> {
        let (pos, health, name) = #[trigger] ents[i];
        match (health.hp == 0, loot_table_of(edb, name@)) {
            (true, Some(t)) => rolled_from(t, ds[i]),
            _ => ds[i].len() == 0,
        }
    }
}

/// The requests for the drops `ds` of the entities `ents`, in order.
pub open spec fn death_requests(ents: Seq<(crate::components::Position, crate::components::HealthStats, String)>, ds: Seq<Seq<(ItemID, ItemQty)>>) -> Seq<crate::items::ItemSpawnRequest>
    decreases ents.len(),
{
    if ents.len() == 0 || ds.len() < ents.len() {
        Seq::empty()
    } else {
        death_requests(ents.drop_last(), ds) + drop_requests(ents.last().0, ds[ents.len() - 1])
    }
}

impl crate::items::ItemSpawner {
    /// Queues `qty` requests for one item `item_id` each.
    pub fn request_amt(&mut self, item_id: ItemID, spawn_type: crate::items::SpawnType, qty: ItemQty)
        ensures
            final(self).requests@ == old(self).requests@ + Seq::new(qty.0 as nat, |k: int| crate::items::ItemSpawnRequest { item_id, spawn_type }),
    {
        let mut k: usize = 0;
        while k < qty.0
            invariant
                k <= qty.0,
                self.requests@ == old(self).requests@ + Seq::new(k as nat, |j: int| crate::items::ItemSpawnRequest { item_id, spawn_type }),
            decreases qty.0 - k,
        {
            self.request(item_id, spawn_type);
            k = k + 1;
            assert(self.requests@ =~= old(self).requests@ + Seq::new(k as nat, |j: int| crate::items::ItemSpawnRequest { item_id, spawn_type }));
        }
    }
}

/// Queues the drops `drops` on the ground at `pos`.
fn queue_drops(spawner: &mut crate::items::ItemSpawner, pos: crate::components::Position, drops: &Vec<(ItemID, ItemQty)>)
    ensures
        final(spawner).requests@ == old(spawner).requests@ + drop_requests(pos, drops@),
{
    let mut i: usize = 0;
    while i < drops.len()
        invariant
            i <= drops@.len(),
            spawner.requests@ == old(spawner).requests@ + drop_requests(pos, drops@.take(i as int)),
        decreases drops@.len() - i,
    {
        let (id, qty) = drops[i];
        spawner.request_amt(id, crate::items::SpawnType::OnGround(pos), qty);
        assert(drops@.take(i as int + 1).drop_last() =~= drops@.take(i as int));
        i = i + 1;
        assert(spawner.requests@ =~= old(spawner).requests@ + drop_requests(pos, drops@.take(i as int)));
    }
    assert(drops@.take(i as int) =~= drops@);
}

/// What an entity that died drops comes from the loot table of the being, or else the world
/// object, of its name.
pub struct DeathLootDrop;

impl DeathLootDrop {
    /// The loot table for a dead entity named `name`: the being of that name decides if there
    /// is one (its table, or none), otherwise the world object of that name; `None` when neither
    /// has a table.
    pub fn drop_table_for<'a>(edb: &'a crate::data_read::GameData, name: &str) -> (r: Option<&'a Drops>)
        ensures
            match loot_table_of(*edb, name@) {
                Some(t) => r matches Some(x) && *x == t,
                None => r is None,
            },
    {
        match edb.beings.get_by_name(name) {
            Some(being) => match &being.loot {
                Some(dt) => Some(dt),
                None => None,
            },
            None => match edb.world_objs.get_by_name(name) {
                Some(world_obj) => match &world_obj.loot {
                    Some(dt) => Some(dt),
                    None => None,
                },
                None => None,
            },
        }
    }

    /// For each entity of `ents` (position, health, name) whose health is zero and whose name
    /// has a loot table, rolls the table and queues the drops on the ground where it lies.
    pub fn run(&mut self, edb: &crate::data_read::GameData, ents: &Vec<(crate::components::Position, crate::components::HealthStats, String)>, spawner: &mut crate::items::ItemSpawner)
        requires
            deaths_ok(*edb, ents@),
        ensures
            exists|ds: Seq<Seq<(ItemID, ItemQty)>>| #[trigger] deaths_rolled(*edb, ents@, ds)
                && final(spawner).requests@ == old(spawner).requests@ + death_requests(ents@, ds),
    {
        let ghost mut ds: Seq<Seq<(ItemID, ItemQty)>> = Seq::empty();
        let mut i: usize = 0;
        while i < ents.len()
            invariant
                i <= ents@.len(),
                deaths_ok(*edb, ents@),
                deaths_rolled(*edb, ents@.take(i as int), ds),
                spawner.requests@ == old(spawner).requests@ + death_requests(ents@.take(i as int), ds),
            decreases ents@.len() - i,
        {
            let ghost req_before = spawner.requests@;
            let ghost ds_before = ds;
            let (pos, health, name) = &ents[i];
            let ghost mut d: Seq<(ItemID, ItemQty)> = Seq::empty();
            if health.hp == 0 {
                match Self::drop_table_for(edb, name.as_str()) {
                    Some(drop_table) => {
                        assert(opt_drops_ok(loot_table_of(*edb, ents@[i as int].2@)));
                        let drops = generate_drops(drop_table);
                        queue_drops(spawner, *pos, &drops);
                        proof { d = drops@; }
                    },
                    None => {},
                }
            }
            proof {
                ds = ds.push(d);
                let ents_next = ents@.take(i as int + 1);
                assert(ents_next.drop_last() =~= ents@.take(i as int));
                assert forall|k: int| 0 <= k < ents_next.len() implies {
                    let (p, h, n) = #[trigger] ents_next[k];
                    match (h.hp == 0, loot_table_of(*edb, n@)) {
                        (true, Some(t)) => rolled_from(t, ds[k]),
                        _ => ds[k].len() == 0,
                    }
                } by {
                    if k < i {
                        assert(ents_next[k] == ents@.take(i as int)[k]);
                    }
                }
                if d.len() == 0 {
                    assert(drop_requests(*pos, d) =~= Seq::empty());
                }
                assert(spawner.requests@ =~= req_before + drop_requests(*pos, d));
                lemma_death_requests_prefix(ents@.take(i as int), ds.drop_last(), d);
                assert(ds.drop_last().push(d) =~= ds);
                assert(ds.drop_last() =~= ds_before);
                assert(req_before == old(spawner).requests@ + death_requests(ents@.take(i as int), ds_before));
                assert(ents_next =~= ents@.take(i as int).push(ents@[i as int]));
                assert(death_requests(ents_next, ds) == death_requests(ents@.take(i as int), ds.drop_last()) + drop_requests(*pos, d));
                assert(spawner.requests@ =~= old(spawner).requests@ + death_requests(ents_next, ds));
            }
            i = i + 1;
        }
        assert(ents@.take(i as int) =~= ents@);
    }
}

/// Adding the drops of one more entity to the end leaves the earlier requests as they were.
proof fn lemma_death_requests_prefix(ents: Seq<(crate::components::Position, crate::components::HealthStats, String)>, ds: Seq<Seq<(ItemID, ItemQty)>>, d: Seq<(ItemID, ItemQty)>)
    requires
        ds.len() == ents.len(),
    ensures
        forall|e: (crate::components::Position, crate::components::HealthStats, String)| #[trigger] death_requests(ents.push(e), ds.push(d)) == death_requests(ents, ds) + drop_requests(e.0, d),
    decreases ents.len(),
{
    assert forall|e: (crate::components::Position, crate::components::HealthStats, String)| #[trigger] death_requests(ents.push(e), ds.push(d)) == death_requests(ents, ds) + drop_requests(e.0, d) by {
        assert(ents.push(e).drop_last() =~= ents);
        lemma_death_requests_extra(ents, ds, d);
    }
}

/// The requests of the entities `ents` do not look at drops past their number.
proof fn lemma_death_requests_extra(ents: Seq<(crate::components::Position, crate::components::HealthStats, String)>, ds: Seq<Seq<(ItemID, ItemQty)>>, d: Seq<(ItemID, ItemQty)>)
    requires
        ds.len() >= ents.len(),
    ensures
        death_requests(ents, ds.push(d)) == death_requests(ents, ds),
    decreases ents.len(),
{
    if ents.len() > 0 {
        lemma_death_requests_extra(ents.drop_last(), ds, d);
    }
}

/// Every drop of a loot roll is an item of the loot table, in an amount the entry allows: its
/// single amount, or one from its range.
pub proof fn lemma_drops_come_from_table(d: Drops, drops: Seq<(ItemID, ItemQty)>, k: int)
    requires
        rolled_from(d, drops),
        0 <= k < drops.len(),
    ensures
        drops.len() <= MAX_ITEM_DROPS,
        exists|i: int| 0 <= i < d.loot_table@.len() && #[trigger] d.loot_table@[i].id == drops[k].0 && match d.loot_table@[i].qty {
            DropQty::Single(n) => drops[k].1.0 == n,
            DropQty::Range { min, max } => min <= drops[k].1.0 < max,
        },
{
    let (rolls, picks, qtys) = choose|rolls: Seq<usize>, picks: Seq<usize>, qtys: Seq<usize>| drops_from_draws(d, rolls, picks, qtys, drops);
    let i = picks[k] as int;
    assert(drops[k] == drop_of(d.loot_table@, picks[k], qtys[k]));
    assert(d.loot_table@[i].id == drops[k].0);
    if drops.len() > MAX_ITEM_DROPS {
        assert(keeps_dropping(d.drop_chance, MAX_ITEM_DROPS as nat, rolls[MAX_ITEM_DROPS as int]));
    }
}

/// How many of item `id` the drops give: the sum of the amounts of the drops of that item.
pub open spec fn drop_amount(drops: Seq<(ItemID, ItemQty)>, id: ItemID) -> nat
    decreases drops.len(),
{
    if drops.len() == 0 {
        0
    } else {
        drop_amount(drops.drop_last(), id) + if drops.last().0 == id { drops.last().1.0 as nat } else { 0 }
    }
}

/// How many items the drops give in all: the sum of their amounts.
pub open spec fn drops_total(drops: Seq<(ItemID, ItemQty)>) -> nat
    decreases drops.len(),
{
    if drops.len() == 0 { 0 } else { drops_total(drops.drop_last()) + drops.last().1.0 as nat }
}

/// The predicate "is a request for item `id`".
pub open spec fn requests_item(id: ItemID) -> spec_fn(crate::items::ItemSpawnRequest) -> bool {
    |q: crate::items::ItemSpawnRequest| q.item_id == id
}

/// The requests for `n` of one item: all of them, or none, are for item `id`.
proof fn lemma_ground_requests_filter(id: ItemID, pos: crate::components::Position, n: nat, of: ItemID)
    ensures
        ground_requests(of, pos, n).filter(requests_item(id)).len() == if of == id { n } else { 0 },
    decreases n,
{
    broadcast use vstd::seq_lib::group_seq_properties;
    if n > 0 {
        let q = crate::items::ItemSpawnRequest { item_id: of, spawn_type: crate::items::SpawnType::OnGround(pos) };
        assert(ground_requests(of, pos, n) =~= ground_requests(of, pos, (n - 1) as nat).push(q));
        lemma_ground_requests_filter(id, pos, (n - 1) as nat, of);
        ground_requests(of, pos, (n - 1) as nat).lemma_filter_push(q, requests_item(id));
    } else {
        assert(ground_requests(of, pos, n) =~= Seq::empty());
        assert(ground_requests(of, pos, n).filter(requests_item(id)) =~= Seq::empty());
    }
}

/// Dropping puts each drop on the ground in full: the requests for the drops all put an item on
/// the ground at the position, there are as many as the drops' amounts add up to, and for each
/// item exactly as many as the drops of that item give.
pub proof fn lemma_drop_requests_count(pos: crate::components::Position, drops: Seq<(ItemID, ItemQty)>, id: ItemID)
    ensures
        drop_requests(pos, drops).len() == drops_total(drops),
        forall|k: int| 0 <= k < drop_requests(pos, drops).len()
            ==> (#[trigger] drop_requests(pos, drops)[k]).spawn_type == crate::items::SpawnType::OnGround(pos),
        drop_requests(pos, drops).filter(requests_item(id)).len() == drop_amount(drops, id),
    decreases drops.len(),
{
    broadcast use vstd::seq_lib::group_seq_properties;
    if drops.len() > 0 {
        let init = drops.drop_last();
        let (of, q) = drops.last();
        lemma_drop_requests_count(pos, init, id);
        lemma_ground_requests_filter(id, pos, q.0 as nat, of);
        vstd::seq::Seq::filter_distributes_over_add(drop_requests(pos, init), ground_requests(of, pos, q.0 as nat), requests_item(id));
        let a = drop_requests(pos, init);
        let b = ground_requests(of, pos, q.0 as nat);
        assert forall|k: int| 0 <= k < drop_requests(pos, drops).len()
            implies (#[trigger] drop_requests(pos, drops)[k]).spawn_type == crate::items::SpawnType::OnGround(pos) by {
            if k < a.len() {
                assert(drop_requests(pos, drops)[k] == a[k]);
            } else {
                assert(drop_requests(pos, drops)[k] == b[k - a.len()]);
            }
        }
    } else {
        assert(drop_requests(pos, drops).filter(requests_item(id)) =~= Seq::empty());
    }
}

} // verus!
