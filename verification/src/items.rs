use vstd::prelude::*;
use crate::components::{EntityId, InBag, Item, Position};
use crate::search::{first_index, lemma_first_index};
use crate::text::{decimal, decimal_text};
use crate::message_log::{LogLine, MessageType, lines_view};

verus! {

broadcast use lemma_first_index;

/// Identifies the static data of an item kind.
#[derive(Debug, Copy, Clone, PartialEq, Eq, Hash, Structural)]
pub struct ItemID(pub usize);

/// A number of items.
#[derive(Debug, Copy, Clone, PartialEq, Eq, PartialOrd, Ord, Default, Structural)]
pub struct ItemQty(pub usize);

impl ItemQty {
    /// The sum of two quantities.
    pub fn add(self, rhs: Self) -> (r: Self)
        requires
            self.0 + rhs.0 <= usize::MAX,
        ensures
            r.0 == self.0 + rhs.0,
    {
        Self(self.0 + rhs.0)
    }

    /// The difference of two quantities, the second no larger than the first.
    pub fn sub(self, rhs: Self) -> (r: Self)
        requires
            rhs.0 <= self.0,
        ensures
            r.0 == self.0 - rhs.0,
    {
        Self(self.0 - rhs.0)
    }

    /// The quantity as decimal text.
    pub fn to_string(&self) -> (s: String)
        ensures
            s@ == decimal(self.0 as nat),
    {
        decimal_text(self.0)
    }
}

/// An entity that is an item: its item kind and quantity, the bag it is in and the position it
/// lies at, if any, and its name.
pub struct ItemEntity {
    pub entity: EntityId,
    pub item: Item,
    pub in_bag: Option<InBag>,
    pub position: Option<Position>,
    pub name: String,
}

/// An item entity as a value.
pub struct ItemRecord {
    pub entity: EntityId,
    pub item: Item,
    pub in_bag: Option<InBag>,
    pub position: Option<Position>,
    pub name: Seq<char>,
}

impl View for ItemEntity {
    type V = ItemRecord;

    open spec fn view(&self) -> ItemRecord {
        ItemRecord {
            entity: self.entity,
            item: self.item,
            in_bag: self.in_bag,
            position: self.position,
            name: self.name@,
        }
    }
}

/// The item entities of the game world, in the order the world lists its entities.
pub struct ItemWorld {
    pub items: Vec<ItemEntity>,
}

impl View for ItemWorld {
    type V = Seq<ItemRecord>;

    open spec fn view(&self) -> Seq<ItemRecord> {
        self.items@.map_values(|e: ItemEntity| e@)
    }
}

/// `r` is a stack of item kind `id` in the bag of `owner`.
pub open spec fn is_bag_stack(r: ItemRecord, owner: EntityId, id: ItemID) -> bool {
    r.in_bag == Some(InBag { owner }) && r.item.id == id
}

/// The first stack of item kind `id` in the bag of `owner`.
pub open spec fn bag_stack(s: Seq<ItemRecord>, owner: EntityId, id: ItemID) -> Option<int> {
    first_index(s, stack_pred(owner, id))
}

/// The predicate "is a stack of kind `id` in the bag of `owner`".
pub open spec fn stack_pred(owner: EntityId, id: ItemID) -> spec_fn(ItemRecord) -> bool {
    |r: ItemRecord| is_bag_stack(r, owner, id)
}

/// The predicate "is the record of entity `e`".
pub open spec fn entity_pred(e: EntityId) -> spec_fn(ItemRecord) -> bool {
    |r: ItemRecord| r.entity == e
}

/// The first record of entity `e`.
pub open spec fn record_of(s: Seq<ItemRecord>, e: EntityId) -> Option<int> {
    first_index(s, entity_pred(e))
}

/// No entity is listed twice.
pub open spec fn unique_entities(s: Seq<ItemRecord>) -> bool {
    forall|i: int, j: int| 0 <= i < s.len() && 0 <= j < s.len() && i != j ==> #[trigger] s[i].entity != #[trigger] s[j].entity
}

/// Every bag holds at most one stack of each item kind.
pub open spec fn unique_stacks(s: Seq<ItemRecord>) -> bool {
    forall|i: int, j: int|
        0 <= i < s.len() && 0 <= j < s.len() && i != j && (#[trigger] s[i]).in_bag is Some
            && s[i].in_bag == (#[trigger] s[j]).in_bag ==> s[i].item.id != s[j].item.id
}

/// The well-formedness of an item world.
pub open spec fn items_wf(s: Seq<ItemRecord>) -> bool {
    unique_entities(s) && unique_stacks(s)
}

/// `r` with its quantity raised by `n`.
pub open spec fn with_more(r: ItemRecord, n: nat) -> ItemRecord {
    ItemRecord { item: Item { id: r.item.id, qty: ItemQty((r.item.qty.0 + n) as usize) }, ..r }
}

/// A new record of one item of kind `id`.
pub open spec fn one_item(entity: EntityId, id: ItemID, in_bag: Option<InBag>, position: Option<Position>, name: Seq<char>) -> ItemRecord {
    ItemRecord { entity, item: Item { id, qty: ItemQty(1) }, in_bag, position, name }
}

/// The items after one item of kind `id` named `name` is put into the bag of `owner`: it joins the
/// bag's stack of that kind, or becomes the new entity `fresh` when the bag has none.
pub open spec fn put_in_bag(s: Seq<ItemRecord>, owner: EntityId, id: ItemID, name: Seq<char>, fresh: EntityId) -> Seq<ItemRecord> {
    match bag_stack(s, owner, id) {
        Some(k) => s.update(k, with_more(s[k], 1)),
        None => s.push(one_item(fresh, id, Some(InBag { owner }), None, name)),
    }
}

/// How many items of kind `id` the bag of `owner` holds.
pub open spec fn bag_count(s: Seq<ItemRecord>, owner: EntityId, id: ItemID) -> nat
    decreases s.len(),
{
    if s.len() == 0 {
        0
    } else {
        bag_count(s.drop_last(), owner, id) + if is_bag_stack(s.last(), owner, id) { s.last().item.qty.0 as nat } else { 0 }
    }
}

proof fn lemma_bag_count_update(s: Seq<ItemRecord>, k: int, r: ItemRecord, owner: EntityId, id: ItemID)
    requires
        0 <= k < s.len(),
    ensures
        bag_count(s.update(k, r), owner, id) + (if is_bag_stack(s[k], owner, id) { s[k].item.qty.0 as nat } else { 0 })
            == bag_count(s, owner, id) + (if is_bag_stack(r, owner, id) { r.item.qty.0 as nat } else { 0 }),
    decreases s.len(),
{
    if k < s.len() - 1 {
        lemma_bag_count_update(s.drop_last(), k, r, owner, id);
        assert(s.update(k, r).drop_last() =~= s.drop_last().update(k, r));
    } else {
        assert(s.update(k, r).drop_last() =~= s.drop_last());
    }
}

proof fn lemma_bag_count_push(s: Seq<ItemRecord>, r: ItemRecord, owner: EntityId, id: ItemID)
    ensures
        bag_count(s.push(r), owner, id) == bag_count(s, owner, id) + (if is_bag_stack(r, owner, id) { r.item.qty.0 as nat } else { 0 }),
{
    assert(s.push(r).drop_last() =~= s);
}

proof fn lemma_bag_count_remove(s: Seq<ItemRecord>, k: int, owner: EntityId, id: ItemID)
    requires
        0 <= k < s.len(),
    ensures
        bag_count(s.remove(k), owner, id) + (if is_bag_stack(s[k], owner, id) { s[k].item.qty.0 as nat } else { 0 })
            == bag_count(s, owner, id),
    decreases s.len(),
{
    if k < s.len() - 1 {
        lemma_bag_count_remove(s.drop_last(), k, owner, id);
        assert(s.remove(k).drop_last() =~= s.drop_last().remove(k));
    } else {
        assert(s.remove(k) =~= s.drop_last());
    }
}

/// Putting an item into a bag raises that bag's count of its kind by exactly one and leaves
/// every other count as it was; bags keep one stack per kind and entities stay unique.
pub proof fn lemma_put_in_bag_counts(s: Seq<ItemRecord>, owner: EntityId, id: ItemID, name: Seq<char>, fresh: EntityId, o: EntityId, j: ItemID)
    requires
        items_wf(s),
        forall|i: int| 0 <= i < s.len() ==> s[i].entity != fresh,
        bag_stack(s, owner, id) matches Some(k) ==> s[k].item.qty.0 < usize::MAX,
    ensures
        bag_count(put_in_bag(s, owner, id, name, fresh), o, j)
            == bag_count(s, o, j) + if o == owner && j == id { 1nat } else { 0nat },
        items_wf(put_in_bag(s, owner, id, name, fresh)),
{
    let r = put_in_bag(s, owner, id, name, fresh);
    match bag_stack(s, owner, id) {
        Some(k) => {
            lemma_bag_count_update(s, k, with_more(s[k], 1), o, j);
            assert forall|a: int, b: int| 0 <= a < r.len() && 0 <= b < r.len() && a != b implies
                #[trigger] r[a].entity != #[trigger] r[b].entity by {
                assert(r[a].entity == s[a].entity && r[b].entity == s[b].entity);
            }
            assert forall|a: int, b: int|
                0 <= a < r.len() && 0 <= b < r.len() && a != b && (#[trigger] r[a]).in_bag is Some
                    && r[a].in_bag == (#[trigger] r[b]).in_bag implies r[a].item.id != r[b].item.id by {
                assert(r[a].in_bag == s[a].in_bag && r[a].item.id == s[a].item.id);
                assert(r[b].in_bag == s[b].in_bag && r[b].item.id == s[b].item.id);
            }
        },
        None => {
            lemma_bag_count_push(s, one_item(fresh, id, Some(InBag { owner }), None, name), o, j);
            assert forall|a: int, b: int|
                0 <= a < r.len() && 0 <= b < r.len() && a != b && (#[trigger] r[a]).in_bag is Some
                    && r[a].in_bag == (#[trigger] r[b]).in_bag implies r[a].item.id != r[b].item.id by {
                if a == s.len() as int {
                    assert(!is_bag_stack(s[b], owner, id));
                } else if b == s.len() as int {
                    assert(!is_bag_stack(s[a], owner, id));
                }
            }
        },
    }
}

impl ItemEntity {
    /// A copy of this item entity.
    pub fn copy(&self) -> (r: Self)
        ensures
            r@ == self@,
    {
        ItemEntity {
            entity: self.entity,
            item: self.item,
            in_bag: self.in_bag,
            position: self.position,
            name: self.name.clone(),
        }
    }
}

impl ItemWorld {
    /// The index of the first stack of kind `id` in the bag of `owner`.
    pub fn find_bag_stack(&self, owner: EntityId, id: ItemID) -> (r: Option<usize>)
        ensures
            match r {
                Some(k) => bag_stack(self@, owner, id) == Some(k as int),
                None => bag_stack(self@, owner, id) is None,
            },
    {
        let ghost p = stack_pred(owner, id);
        let mut i: usize = 0;
        while i < self.items.len()
            invariant
                i <= self.items@.len(),
                p == stack_pred(owner, id),
                forall|j: int| 0 <= j < i ==> !p(self@[j]),
            decreases self.items@.len() - i,
        {
            let e = &self.items[i];
            let hit = match e.in_bag {
                Some(b) => b.owner == owner && e.item.id == id,
                None => false,
            };
            if hit {
                proof { crate::search::lemma_first_index_is(self@, p, i as int); }
                return Some(i);
            }
            i = i + 1;
        }
        proof { crate::search::lemma_first_index_none(self@, p); }
        None
    }

    /// The index of the first record of entity `e`.
    pub fn find_entity(&self, e: EntityId) -> (r: Option<usize>)
        ensures
            match r {
                Some(k) => record_of(self@, e) == Some(k as int),
                None => record_of(self@, e) is None,
            },
    {
        let ghost p = entity_pred(e);
        let mut i: usize = 0;
        while i < self.items.len()
            invariant
                i <= self.items@.len(),
                p == entity_pred(e),
                forall|j: int| 0 <= j < i ==> !p(self@[j]),
            decreases self.items@.len() - i,
        {
            if self.items[i].entity == e {
                proof { crate::search::lemma_first_index_is(self@, p, i as int); }
                return Some(i);
            }
            i = i + 1;
        }
        proof { crate::search::lemma_first_index_none(self@, p); }
        None
    }

    /// Puts one item of kind `id` into the bag of `owner`: onto its stack of that kind, or as the
    /// new entity `fresh`.
    pub fn put_in_bag(&mut self, owner: EntityId, id: ItemID, name: &str, fresh: EntityId)
        requires
            bag_stack(old(self)@, owner, id) matches Some(k) ==> old(self)@[k].item.qty.0 < usize::MAX,
        ensures
            final(self)@ == put_in_bag(old(self)@, owner, id, name@, fresh),
    {
        match self.find_bag_stack(owner, id) {
            Some(k) => {
                let old_qty = self.items[k].item.qty;
                assert(bag_stack(old(self)@, owner, id) == Some(k as int));
                assert(old_qty == old(self)@[k as int].item.qty);
                let mut e = self.items.remove(k);
                e.item = Item::new(id, old_qty.add(ItemQty(1)));
                self.items.insert(k, e);
                assert(self@ =~= put_in_bag(old(self)@, owner, id, name@, fresh));
            },
            None => {
                let e = ItemEntity {
                    entity: fresh,
                    item: Item::new(id, ItemQty(1)),
                    in_bag: Some(InBag { owner }),
                    position: None,
                    name: String::from_str(name),
                };
                self.items.push(e);
                assert(self@ =~= put_in_bag(old(self)@, owner, id, name@, fresh));
            },
        }
    }
}

} // verus!

verus! {

/// The static data of an item kind.
pub struct ItemInfo {
    /// Unique id to find the item's static data
    pub identifier: ItemID,
    pub name: String,
    pub examine_text: String,
    pub atlas_index: u8,
    pub fg: (u8, u8, u8),
    pub pickup_text: Option<String>,
    pub equipable: Option<crate::components::Equipable>,
    pub attack_bonus: Option<crate::components::AttackBonus>,
}

/// The index of the first entry of the database `db` with identifier `id`.
pub open spec fn info_by_id(db: Seq<ItemInfo>, id: ItemID) -> Option<int> {
    first_index(db, info_id_pred(id))
}

/// The predicate "has identifier `id`".
pub open spec fn info_id_pred(id: ItemID) -> spec_fn(ItemInfo) -> bool {
    |i: ItemInfo| i.identifier == id
}

/// The index of the first entry of the database `db` named `name`.
pub open spec fn info_by_name(db: Seq<ItemInfo>, name: Seq<char>) -> Option<int> {
    first_index(db, info_name_pred(name))
}

/// The predicate "is named `name`".
pub open spec fn info_name_pred(name: Seq<char>) -> spec_fn(ItemInfo) -> bool {
    |i: ItemInfo| i.name@ == name
}

/// Where a requested item appears.
#[derive(Debug, Copy, Clone, PartialEq, Eq, Structural)]
pub enum SpawnType {
    OnGround(Position),
    InBag(EntityId),
}

/// A request for one item of kind `item_id`.
#[derive(Debug, Copy, Clone, PartialEq, Eq, Structural)]
pub struct ItemSpawnRequest {
    pub item_id: ItemID,
    pub spawn_type: SpawnType,
}

/// The queue of item spawn requests.
pub struct ItemSpawner {
    pub requests: Vec<ItemSpawnRequest>,
}

impl ItemSpawner {
    pub fn new() -> (s: Self)
        ensures
            s.requests@ == Seq::<ItemSpawnRequest>::empty(),
    {
        Self { requests: Vec::new() }
    }

    /// Queues a request for one item of kind `item_id`.
    pub fn request(&mut self, item_id: ItemID, spawn_type: SpawnType)
        ensures
            final(self).requests@ == old(self).requests@.push(ItemSpawnRequest { item_id, spawn_type }),
    {
        self.requests.push(ItemSpawnRequest { item_id, spawn_type });
    }

    /// Queues a request for one item of the kind named `name`; nothing when no kind has that
    /// name.
    pub fn request_named(&mut self, name: &str, spawn_type: SpawnType, db: &Vec<ItemInfo>)
        ensures
            final(self).requests@ == match info_by_name(db@, name@) {
                Some(d) => old(self).requests@.push(ItemSpawnRequest { item_id: db@[d].identifier, spawn_type }),
                None => old(self).requests@,
            },
    {
        match find_info_by_name(db, name) {
            Some(d) => self.request(db[d].identifier, spawn_type),
            None => {},
        }
    }
}

/// The items after the request `req` is served with the new entity `fresh`: nothing happens for
/// an unknown item kind; on the ground a new item appears; into a bag the item joins its stack.
pub open spec fn spawn_one(s: Seq<ItemRecord>, req: ItemSpawnRequest, db: Seq<ItemInfo>, fresh: EntityId) -> Seq<ItemRecord> {
    match info_by_id(db, req.item_id) {
        None => s,
        Some(d) => match req.spawn_type {
            SpawnType::OnGround(pos) => s.push(one_item(fresh, req.item_id, None, Some(pos), db[d].name@)),
            SpawnType::InBag(owner) => put_in_bag(s, owner, req.item_id, db[d].name@, fresh),
        },
    }
}

/// Whether serving `req` cannot overflow a stack.
pub open spec fn spawn_one_ok(s: Seq<ItemRecord>, req: ItemSpawnRequest, db: Seq<ItemInfo>) -> bool {
    match (info_by_id(db, req.item_id), req.spawn_type) {
        (Some(_), SpawnType::InBag(owner)) => bag_stack(s, owner, req.item_id) matches Some(k) ==> s[k].item.qty.0 < usize::MAX,
        _ => true,
    }
}

/// The items after the requests `reqs` are served in order, request `i` with entity `fresh[i]`.
pub open spec fn spawn_all(s: Seq<ItemRecord>, reqs: Seq<ItemSpawnRequest>, db: Seq<ItemInfo>, fresh: Seq<EntityId>) -> Seq<ItemRecord>
    decreases reqs.len(),
{
    if reqs.len() == 0 {
        s
    } else {
        spawn_one(spawn_all(s, reqs.drop_last(), db, fresh), reqs.last(), db, fresh[reqs.len() - 1])
    }
}

/// Whether serving the requests `reqs` in order cannot overflow a stack.
pub open spec fn spawn_all_ok(s: Seq<ItemRecord>, reqs: Seq<ItemSpawnRequest>, db: Seq<ItemInfo>, fresh: Seq<EntityId>) -> bool
    decreases reqs.len(),
{
    reqs.len() == 0 || (spawn_all_ok(s, reqs.drop_last(), db, fresh)
        && spawn_one_ok(spawn_all(s, reqs.drop_last(), db, fresh), reqs.last(), db))
}

/// Serves the queued item requests.
pub struct ItemSpawnerSystem;

impl ItemSpawnerSystem {
    /// Serves every queued request in order, request `i` creating the entity `fresh[i]`, and
    /// empties the queue. Returns, per request, the database entry of the item kind, which the
    /// new entity takes its name, sprite and equipment slot from (`None`: unknown kind, nothing
    /// was spawned).
    pub fn run(&mut self, spawner: &mut ItemSpawner, db: &Vec<ItemInfo>, world: &mut ItemWorld, fresh: &Vec<EntityId>) -> (r: Vec<Option<usize>>)
        requires
            fresh@.len() >= old(spawner).requests@.len(),
            spawn_all_ok(old(world)@, old(spawner).requests@, db@, fresh@),
        ensures
            final(world)@ == spawn_all(old(world)@, old(spawner).requests@, db@, fresh@),
            final(spawner).requests@.len() == 0,
            r@.len() == old(spawner).requests@.len(),
            forall|i: int| 0 <= i < r@.len() ==> match #[trigger] r@[i] {
                Some(d) => info_by_id(db@, old(spawner).requests@[i].item_id) == Some(d as int),
                None => info_by_id(db@, old(spawner).requests@[i].item_id) is None,
            },
    {
        let ghost s0 = world@;
        let ghost reqs = spawner.requests@;
        let n = spawner.requests.len();
        let mut r: Vec<Option<usize>> = Vec::new();
        let mut i: usize = 0;
        while i < n
            invariant
                n == reqs.len(),
                reqs == spawner.requests@,
                fresh@.len() >= n,
                i <= n,
                spawn_all_ok(s0, reqs, db@, fresh@),
                world@ == spawn_all(s0, reqs.take(i as int), db@, fresh@),
                r@.len() == i,
                forall|k: int| 0 <= k < i ==> match #[trigger] r@[k] {
                    Some(d) => info_by_id(db@, reqs[k].item_id) == Some(d as int),
                    None => info_by_id(db@, reqs[k].item_id) is None,
                },
            decreases n - i,
        {
            proof {
                lemma_spawn_all_ok_prefix(s0, reqs, db@, fresh@, i as int + 1);
                assert(reqs.take(i as int + 1).drop_last() =~= reqs.take(i as int));
            }
            let req = spawner.requests[i];
            let found = find_info_by_id(db, req.item_id);
            match found {
                Some(d) => {
                    match req.spawn_type {
                        SpawnType::OnGround(pos) => {
                            world.items.push(ItemEntity {
                                entity: fresh[i],
                                item: Item::new(req.item_id, ItemQty(1)),
                                in_bag: None,
                                position: Some(pos),
                                name: db[d].name.clone(),
                            });
                        },
                        SpawnType::InBag(owner) => {
                            world.put_in_bag(owner, req.item_id, db[d].name.as_str(), fresh[i]);
                        },
                    }
                },
                None => {},
            }
            r.push(found);
            assert(world@ =~= spawn_all(s0, reqs.take(i as int + 1), db@, fresh@));
            i = i + 1;
        }
        assert(reqs.take(n as int) =~= reqs);
        spawner.requests.clear();
        r
    }
}

proof fn lemma_spawn_all_ok_prefix(s: Seq<ItemRecord>, reqs: Seq<ItemSpawnRequest>, db: Seq<ItemInfo>, fresh: Seq<EntityId>, k: int)
    requires
        0 <= k <= reqs.len(),
        spawn_all_ok(s, reqs, db, fresh),
    ensures
        spawn_all_ok(s, reqs.take(k), db, fresh),
    decreases reqs.len(),
{
    if k < reqs.len() {
        lemma_spawn_all_ok_prefix(s, reqs.drop_last(), db, fresh, k);
        assert(reqs.drop_last().take(k) =~= reqs.take(k));
    } else {
        assert(reqs.take(k) =~= reqs);
    }
}

/// The index of the first database entry with identifier `id`.
pub fn find_info_by_id(db: &Vec<ItemInfo>, id: ItemID) -> (r: Option<usize>)
    ensures
        match r {
            Some(k) => info_by_id(db@, id) == Some(k as int),
            None => info_by_id(db@, id) is None,
        },
{
    let ghost p = info_id_pred(id);
    let mut i: usize = 0;
    while i < db.len()
        invariant
            i <= db@.len(),
            p == info_id_pred(id),
            forall|j: int| 0 <= j < i ==> !p(db@[j]),
        decreases db@.len() - i,
    {
        if db[i].identifier == id {
            proof { crate::search::lemma_first_index_is(db@, p, i as int); }
            return Some(i);
        }
        i = i + 1;
    }
    proof { crate::search::lemma_first_index_none(db@, p); }
    None
}

/// The index of the first database entry named `name`.
pub fn find_info_by_name(db: &Vec<ItemInfo>, name: &str) -> (r: Option<usize>)
    ensures
        match r {
            Some(k) => info_by_name(db@, name@) == Some(k as int),
            None => info_by_name(db@, name@) is None,
        },
{
    let ghost p = info_name_pred(name@);
    let mut i: usize = 0;
    while i < db.len()
        invariant
            i <= db@.len(),
            p == info_name_pred(name@),
            forall|j: int| 0 <= j < i ==> !p(db@[j]),
        decreases db@.len() - i,
    {
        if crate::components::str_eq(db[i].name.as_str(), name) {
            proof { crate::search::lemma_first_index_is(db@, p, i as int); }
            return Some(i);
        }
        i = i + 1;
    }
    proof { crate::search::lemma_first_index_none(db@, p); }
    None
}

} // verus!

verus! {

/// How a pickup went.
#[derive(Debug, Copy, Clone, PartialEq, Eq, Structural)]
pub enum PickupOutcome {
    /// The target was not an item; nothing changed.
    NotAnItem,
    /// The item joined the picker's stack of its kind, held by this entity; the picked up
    /// entity is gone.
    Stacked(EntityId),
    /// The item went into the picker's bag as it was.
    Bagged,
}

/// `r` moved into the bag of `owner` and off the ground.
pub open spec fn bagged(r: ItemRecord, owner: EntityId) -> ItemRecord {
    ItemRecord { in_bag: Some(InBag { owner }), position: None, ..r }
}

/// The items after `picker` picks up the item entity `target`: it joins the picker's stack of
/// its kind (and its own entity goes), or moves into the picker's bag when there is no such
/// stack.
pub open spec fn picked_up(s: Seq<ItemRecord>, picker: EntityId, target: EntityId) -> Seq<ItemRecord> {
    match record_of(s, target) {
        None => s,
        Some(g) => match bag_stack(s, picker, s[g].item.id) {
            Some(k) => s.update(k, with_more(s[k], s[g].item.qty.0 as nat)).remove(g),
            None => s.update(g, bagged(s[g], picker)),
        },
    }
}

/// The outcome of `picker` picking up `target`.
pub open spec fn pickup_outcome(s: Seq<ItemRecord>, picker: EntityId, target: EntityId) -> PickupOutcome {
    match record_of(s, target) {
        None => PickupOutcome::NotAnItem,
        Some(g) => match bag_stack(s, picker, s[g].item.id) {
            Some(k) => PickupOutcome::Stacked(s[k].entity),
            None => PickupOutcome::Bagged,
        },
    }
}

/// Whether the pickup cannot overflow a stack.
pub open spec fn pickup_ok(s: Seq<ItemRecord>, picker: EntityId, target: EntityId) -> bool {
    match record_of(s, target) {
        None => true,
        Some(g) => match bag_stack(s, picker, s[g].item.id) {
            Some(k) => s[k].item.qty.0 + s[g].item.qty.0 <= usize::MAX,
            None => true,
        },
    }
}

impl ItemWorld {
    /// `picker` picks up the item entity `target`.
    pub fn pickup(&mut self, picker: EntityId, target: EntityId) -> (o: PickupOutcome)
        requires
            pickup_ok(old(self)@, picker, target),
        ensures
            final(self)@ == picked_up(old(self)@, picker, target),
            o == pickup_outcome(old(self)@, picker, target),
    {
        let g = match self.find_entity(target) {
            Some(g) => g,
            None => return PickupOutcome::NotAnItem,
        };
        let ground_item = self.items[g].item;
        match self.find_bag_stack(picker, ground_item.id) {
            Some(k) => {
                let into = self.items[k].entity;
                let mut stack = self.items.remove(k);
                stack.item = Item::new(stack.item.id, stack.item.qty.add(ground_item.qty));
                self.items.insert(k, stack);
                self.items.remove(g);
                assert(self@ =~= picked_up(old(self)@, picker, target));
                PickupOutcome::Stacked(into)
            },
            None => {
                let mut e = self.items.remove(g);
                e.in_bag = Some(InBag { owner: picker });
                e.position = None;
                self.items.insert(g, e);
                assert(self@ =~= picked_up(old(self)@, picker, target));
                PickupOutcome::Bagged
            },
        }
    }
}

/// A picker, its name, and the item entity it wants to pick up.
pub struct PickupRequest {
    pub picker: EntityId,
    pub picker_name: String,
    pub item: EntityId,
}

/// The message of a picker named `picker_name` picking up an item named `item_name`.
pub open spec fn picked_up_text(picker_name: Seq<char>, item_name: Seq<char>) -> Seq<char> {
    picker_name + " picked up a "@ + crate::text::lowercase(item_name)
}

/// The messages of one pickup: the item's pickup text (flavor) when it went into the bag as it
/// was and has one, then who picked up what (info).
pub open spec fn pickup_lines(s: Seq<ItemRecord>, req: PickupRequest, db: Seq<ItemInfo>) -> Seq<(MessageType, Seq<char>)> {
    match record_of(s, req.item) {
        None => Seq::empty(),
        Some(g) => {
            let flavor: Seq<(MessageType, Seq<char>)> = match bag_stack(s, req.picker, s[g].item.id) {
                Some(_) => Seq::empty(),
                None => match info_by_name(db, s[g].name) {
                    Some(d) => match db[d].pickup_text {
                        Some(t) => seq![(MessageType::FLAVOR, t@)],
                        None => Seq::empty(),
                    },
                    None => Seq::empty(),
                },
            };
            flavor.push((MessageType::INFO, picked_up_text(req.picker_name@, s[g].name)))
        },
    }
}

/// Whether one pickup can go ahead: no stack overflows, and an item that goes into a bag as it
/// was has an entry of its name in the database.
pub open spec fn pickup_step_ok(s: Seq<ItemRecord>, req: PickupRequest, db: Seq<ItemInfo>) -> bool {
    pickup_ok(s, req.picker, req.item) && match record_of(s, req.item) {
        Some(g) => bag_stack(s, req.picker, s[g].item.id) is None ==> info_by_name(db, s[g].name) is Some,
        None => true,
    }
}

/// The items after the pickups `reqs` in order.
pub open spec fn pickups_done(s: Seq<ItemRecord>, reqs: Seq<PickupRequest>) -> Seq<ItemRecord>
    decreases reqs.len(),
{
    if reqs.len() == 0 {
        s
    } else {
        let before = pickups_done(s, reqs.drop_last());
        picked_up(before, reqs.last().picker, reqs.last().item)
    }
}

/// The messages of the pickups `reqs` in order.
pub open spec fn pickups_lines(s: Seq<ItemRecord>, reqs: Seq<PickupRequest>, db: Seq<ItemInfo>) -> Seq<(MessageType, Seq<char>)>
    decreases reqs.len(),
{
    if reqs.len() == 0 {
        Seq::empty()
    } else {
        pickups_lines(s, reqs.drop_last(), db) + pickup_lines(pickups_done(s, reqs.drop_last()), reqs.last(), db)
    }
}

/// Whether every pickup of `reqs` can go ahead in turn.
pub open spec fn pickups_ok(s: Seq<ItemRecord>, reqs: Seq<PickupRequest>, db: Seq<ItemInfo>) -> bool
    decreases reqs.len(),
{
    reqs.len() == 0 || (pickups_ok(s, reqs.drop_last(), db) && pickup_step_ok(pickups_done(s, reqs.drop_last()), reqs.last(), db))
}

proof fn lemma_pickups_ok_prefix(s: Seq<ItemRecord>, reqs: Seq<PickupRequest>, db: Seq<ItemInfo>, k: int)
    requires
        0 <= k <= reqs.len(),
        pickups_ok(s, reqs, db),
    ensures
        pickups_ok(s, reqs.take(k), db),
    decreases reqs.len(),
{
    if k < reqs.len() {
        lemma_pickups_ok_prefix(s, reqs.drop_last(), db, k);
        assert(reqs.drop_last().take(k) =~= reqs.take(k));
    } else {
        assert(reqs.take(k) =~= reqs);
    }
}

/// Moves picked up items into the bags of their pickers.
pub struct ItemPickupHandler;

impl ItemPickupHandler {
    /// Performs the pickups `reqs` in order, drops the requests, and returns the messages the
    /// pickups give.
    pub fn run(&mut self, world: &mut ItemWorld, reqs: &mut Vec<PickupRequest>, db: &Vec<ItemInfo>) -> (lines: Vec<LogLine>)
        requires
            pickups_ok(old(world)@, old(reqs)@, db@),
        ensures
            final(world)@ == pickups_done(old(world)@, old(reqs)@),
            lines_view(lines@) == pickups_lines(old(world)@, old(reqs)@, db@),
            final(reqs)@.len() == 0,
    {
        let mut taken: Vec<PickupRequest> = Vec::new();
        std::mem::swap(&mut taken, reqs);
        let reqs = &taken;
        let ghost s0 = world@;
        let mut lines: Vec<LogLine> = Vec::new();
        let mut i: usize = 0;
        while i < reqs.len()
            invariant
                i <= reqs@.len(),
                pickups_ok(s0, reqs@, db@),
                world@ == pickups_done(s0, reqs@.take(i as int)),
                lines_view(lines@) == pickups_lines(s0, reqs@.take(i as int), db@),
            decreases reqs@.len() - i,
        {
            proof {
                lemma_pickups_ok_prefix(s0, reqs@, db@, i as int + 1);
                assert(reqs@.take(i as int + 1).drop_last() =~= reqs@.take(i as int));
            }
            let req = &reqs[i];
            let ghost before = world@;
            let ghost lines_before = lines_view(lines@);
            let found = world.find_entity(req.item);
            match found {
                None => {
                    world.pickup(req.picker, req.item);
                    assert(pickup_lines(before, *req, db@) =~= Seq::empty());
                },
                Some(g) => {
                    let item_name = world.items[g].name.clone();
                    let outcome = world.pickup(req.picker, req.item);
                    if outcome == PickupOutcome::Bagged {
                        let d = find_info_by_name(db, item_name.as_str());
                        match d {
                            Some(d) => {
                                match &db[d].pickup_text {
                                    Some(t) => {
                                        lines.push(LogLine::new(MessageType::FLAVOR, t.clone()));
                                    },
                                    None => {},
                                }
                            },
                            None => {},
                        }
                    }
                    let mut text = req.picker_name.clone();
                    proof { reveal_strlit(" picked up a "); }
                    text.append(" picked up a ");
                    let lower = crate::text::to_lowercase(item_name.as_str());
                    text.append(lower.as_str());
                    lines.push(LogLine::new(MessageType::INFO, text));
                    assert(lines_view(lines@) =~= lines_before + pickup_lines(before, *req, db@));
                },
            }
            assert(lines_view(lines@) =~= pickups_lines(s0, reqs@.take(i as int + 1), db@));
            i = i + 1;
        }
        assert(reqs@.take(reqs@.len() as int) =~= reqs@);
        lines
    }
}

/// The items without those whose quantity dropped to zero.
pub open spec fn without_empty(s: Seq<ItemRecord>) -> Seq<ItemRecord>
    decreases s.len(),
{
    if s.len() == 0 {
        s
    } else if s.last().item.qty.0 == 0 {
        without_empty(s.drop_last())
    } else {
        without_empty(s.drop_last()).push(s.last())
    }
}

/// The entities of the items whose quantity dropped to zero, in order.
pub open spec fn empty_entities(s: Seq<ItemRecord>) -> Seq<EntityId>
    decreases s.len(),
{
    if s.len() == 0 {
        Seq::empty()
    } else if s.last().item.qty.0 == 0 {
        empty_entities(s.drop_last()).push(s.last().entity)
    } else {
        empty_entities(s.drop_last())
    }
}

/// Deletes the items whose quantity dropped to zero.
pub struct ZeroQtyItemCleanup;

impl ZeroQtyItemCleanup {
    /// Removes every item with quantity zero and returns their entities, for deletion.
    pub fn run(&mut self, world: &mut ItemWorld) -> (deleted: Vec<EntityId>)
        ensures
            final(world)@ == without_empty(old(world)@),
            deleted@ == empty_entities(old(world)@),
    {
        let ghost s0 = world@;
        let n = world.items.len();
        let mut kept: Vec<ItemEntity> = Vec::new();
        let mut deleted: Vec<EntityId> = Vec::new();
        let mut i: usize = 0;
        while i < n
            invariant
                n == s0.len(),
                world@ == s0,
                i <= n,
                kept@.map_values(|e: ItemEntity| e@) == without_empty(s0.take(i as int)),
                deleted@ == empty_entities(s0.take(i as int)),
            decreases n - i,
        {
            proof {
                assert(s0.take(i as int + 1).drop_last() =~= s0.take(i as int));
                assert(s0.take(i as int + 1).last() == s0[i as int]);
            }
            let e = &world.items[i];
            if e.item.qty.0 == 0 {
                deleted.push(e.entity);
            } else {
                kept.push(e.copy());
            }
            assert(kept@.map_values(|e: ItemEntity| e@) =~= without_empty(s0.take(i as int + 1)));
            i = i + 1;
        }
        assert(s0.take(n as int) =~= s0);
        world.items = kept;
        deleted
    }
}

} // verus!

verus! {

/// Whether the bag of `owner` holds an item named `target`.
pub open spec fn bag_holds_named(s: Seq<ItemRecord>, target: Seq<char>, owner: EntityId) -> bool {
    exists|i: int| 0 <= i < s.len() && (#[trigger] s[i]).name == target && s[i].in_bag == Some(InBag { owner })
}

/// Checks to see if there is atleast one `target` item on the `owner`
pub fn inventory_contains(target: &crate::components::Name, owner: EntityId, world: &ItemWorld) -> (r: bool)
    ensures
        r == bag_holds_named(world@, target.0@, owner),
{
    let mut i: usize = 0;
    while i < world.items.len()
        invariant
            i <= world@.len(),
            forall|k: int| 0 <= k < i ==> !((#[trigger] world@[k]).name == target.0@ && world@[k].in_bag == Some(InBag { owner })),
        decreases world@.len() - i,
    {
        let e = &world.items[i];
        let in_owner_bag = match e.in_bag {
            Some(b) => b.owner == owner,
            None => false,
        };
        if in_owner_bag && e.name == target.0 {
            assert(world@[i as int].name == target.0@);
            return true;
        }
        i = i + 1;
    }
    false
}

proof fn lemma_wf_prefix(s: Seq<ItemRecord>)
    requires
        s.len() > 0,
        items_wf(s),
    ensures
        items_wf(s.drop_last()),
{
    let t = s.drop_last();
    assert forall|a: int, b: int| 0 <= a < t.len() && 0 <= b < t.len() && a != b implies
        #[trigger] t[a].entity != #[trigger] t[b].entity by {
        assert(t[a] == s[a] && t[b] == s[b]);
    }
    assert forall|a: int, b: int|
        0 <= a < t.len() && 0 <= b < t.len() && a != b && (#[trigger] t[a]).in_bag is Some
            && t[a].in_bag == (#[trigger] t[b]).in_bag implies t[a].item.id != t[b].item.id by {
        assert(t[a] == s[a] && t[b] == s[b]);
    }
}

proof fn lemma_without_empty_from(s: Seq<ItemRecord>)
    ensures
        forall|i: int| 0 <= i < without_empty(s).len() ==> exists|j: int| 0 <= j < s.len() && #[trigger] without_empty(s)[i] == s[j],
    decreases s.len(),
{
    if s.len() > 0 {
        lemma_without_empty_from(s.drop_last());
        let w = without_empty(s);
        let w0 = without_empty(s.drop_last());
        assert forall|i: int| 0 <= i < w.len() implies exists|j: int| 0 <= j < s.len() && #[trigger] w[i] == s[j] by {
            if i < w0.len() {
                assert(w[i] == w0[i]);
                let j = choose|j: int| 0 <= j < s.drop_last().len() && w0[i] == s.drop_last()[j];
                assert(s[j] == s.drop_last()[j]);
            } else {
                assert(w[i] == s[s.len() - 1]);
            }
        }
    }
}

/// Removing the empty items changes no bag's count of any item kind, and keeps the items
/// well formed.
pub proof fn lemma_cleanup_keeps_counts(s: Seq<ItemRecord>, owner: EntityId, id: ItemID)
    requires
        items_wf(s),
    ensures
        bag_count(without_empty(s), owner, id) == bag_count(s, owner, id),
        items_wf(without_empty(s)),
    decreases s.len(),
{
    if s.len() > 0 {
        lemma_wf_prefix(s);
        lemma_cleanup_keeps_counts(s.drop_last(), owner, id);
        let w0 = without_empty(s.drop_last());
        if s.last().item.qty.0 != 0 {
            let w = w0.push(s.last());
            assert(w.drop_last() =~= w0);
            lemma_without_empty_from(s.drop_last());
            let l = s.len() - 1;
            assert forall|a: int, b: int| 0 <= a < w.len() && 0 <= b < w.len() && a != b implies
                #[trigger] w[a].entity != #[trigger] w[b].entity by {
                if a == w0.len() {
                    let j = choose|j: int| 0 <= j < s.drop_last().len() && #[trigger] w0[b] == s.drop_last()[j];
                    assert(s[j] == s.drop_last()[j]);
                    assert(w[b] == s[j] && w[a] == s[l]);
                } else if b == w0.len() {
                    let j = choose|j: int| 0 <= j < s.drop_last().len() && #[trigger] w0[a] == s.drop_last()[j];
                    assert(s[j] == s.drop_last()[j]);
                    assert(w[a] == s[j] && w[b] == s[l]);
                } else {
                    assert(w[a] == w0[a] && w[b] == w0[b]);
                }
            }
            assert forall|a: int, b: int|
                0 <= a < w.len() && 0 <= b < w.len() && a != b && (#[trigger] w[a]).in_bag is Some
                    && w[a].in_bag == (#[trigger] w[b]).in_bag implies w[a].item.id != w[b].item.id by {
                if a == w0.len() {
                    let j = choose|j: int| 0 <= j < s.drop_last().len() && #[trigger] w0[b] == s.drop_last()[j];
                    assert(s[j] == s.drop_last()[j]);
                    assert(w[b] == s[j] && w[a] == s[l]);
                } else if b == w0.len() {
                    let j = choose|j: int| 0 <= j < s.drop_last().len() && #[trigger] w0[a] == s.drop_last()[j];
                    assert(s[j] == s.drop_last()[j]);
                    assert(w[a] == s[j] && w[b] == s[l]);
                } else {
                    assert(w[a] == w0[a] && w[b] == w0[b]);
                }
            }
        }
    }
}

/// Picking up a ground item moves all of it into the picker's bag: the picker's count of its
/// kind grows by its quantity, no other bag count changes, and the items stay well formed.
pub proof fn lemma_pickup_conserves(s: Seq<ItemRecord>, picker: EntityId, target: EntityId, o: EntityId, j: ItemID)
    requires
        items_wf(s),
        pickup_ok(s, picker, target),
        record_of(s, target) matches Some(g) && s[g].in_bag is None,
    ensures
        ({
            let g = record_of(s, target)->0;
            bag_count(picked_up(s, picker, target), o, j)
                == bag_count(s, o, j) + if o == picker && j == s[g].item.id { s[g].item.qty.0 as nat } else { 0nat }
        }),
        items_wf(picked_up(s, picker, target)),
{
    let g = record_of(s, target)->0;
    let id = s[g].item.id;
    let r = picked_up(s, picker, target);
    match bag_stack(s, picker, id) {
        Some(k) => {
            let s1 = s.update(k, with_more(s[k], s[g].item.qty.0 as nat));
            lemma_bag_count_update(s, k, with_more(s[k], s[g].item.qty.0 as nat), o, j);
            assert(k != g);
            assert(s1[g] == s[g]);
            lemma_bag_count_remove(s1, g, o, j);
            assert forall|a: int, b: int| 0 <= a < r.len() && 0 <= b < r.len() && a != b implies
                #[trigger] r[a].entity != #[trigger] r[b].entity by {
                let a1 = if a < g { a } else { a + 1 };
                let b1 = if b < g { b } else { b + 1 };
                assert(r[a] == s1[a1] && r[b] == s1[b1]);
                assert(s1[a1].entity == s[a1].entity && s1[b1].entity == s[b1].entity);
            }
            assert forall|a: int, b: int|
                0 <= a < r.len() && 0 <= b < r.len() && a != b && (#[trigger] r[a]).in_bag is Some
                    && r[a].in_bag == (#[trigger] r[b]).in_bag implies r[a].item.id != r[b].item.id by {
                let a1 = if a < g { a } else { a + 1 };
                let b1 = if b < g { b } else { b + 1 };
                assert(r[a] == s1[a1] && r[b] == s1[b1]);
                assert(s1[a1].in_bag == s[a1].in_bag && s1[a1].item.id == s[a1].item.id);
                assert(s1[b1].in_bag == s[b1].in_bag && s1[b1].item.id == s[b1].item.id);
            }
        },
        None => {
            lemma_bag_count_update(s, g, bagged(s[g], picker), o, j);
            assert forall|a: int, b: int| 0 <= a < r.len() && 0 <= b < r.len() && a != b implies
                #[trigger] r[a].entity != #[trigger] r[b].entity by {
                assert(r[a].entity == s[a].entity && r[b].entity == s[b].entity);
            }
            assert forall|a: int, b: int|
                0 <= a < r.len() && 0 <= b < r.len() && a != b && (#[trigger] r[a]).in_bag is Some
                    && r[a].in_bag == (#[trigger] r[b]).in_bag implies r[a].item.id != r[b].item.id by {
                if a == g {
                    assert(!is_bag_stack(s[b], picker, id));
                } else if b == g {
                    assert(!is_bag_stack(s[a], picker, id));
                } else {
                    assert(r[a] == s[a] && r[b] == s[b]);
                }
            }
        },
    }
}

/// Serving spawn requests keeps the items well formed when the new entities are distinct and
/// not yet in the world.
pub proof fn lemma_spawn_all_wf(s: Seq<ItemRecord>, reqs: Seq<ItemSpawnRequest>, db: Seq<ItemInfo>, fresh: Seq<EntityId>)
    requires
        items_wf(s),
        fresh.len() >= reqs.len(),
        spawn_all_ok(s, reqs, db, fresh),
        forall|i: int, k: int| 0 <= i < s.len() && 0 <= k < fresh.len() ==> s[i].entity != fresh[k],
        forall|a: int, b: int| 0 <= a < fresh.len() && 0 <= b < fresh.len() && a != b ==> fresh[a] != fresh[b],
    ensures
        items_wf(spawn_all(s, reqs, db, fresh)),
        forall|i: int, k: int| 0 <= i < spawn_all(s, reqs, db, fresh).len() && reqs.len() <= k < fresh.len()
            ==> spawn_all(s, reqs, db, fresh)[i].entity != fresh[k],
    decreases reqs.len(),
{
    if reqs.len() > 0 {
        let n = reqs.len() - 1;
        lemma_spawn_all_wf(s, reqs.drop_last(), db, fresh);
        let before = spawn_all(s, reqs.drop_last(), db, fresh);
        let req = reqs.last();
        let f = fresh[n];
        let after = spawn_all(s, reqs, db, fresh);
        match info_by_id(db, req.item_id) {
            None => {},
            Some(d) => match req.spawn_type {
                SpawnType::OnGround(pos) => {
                    assert forall|a: int, b: int| 0 <= a < after.len() && 0 <= b < after.len() && a != b implies
                        #[trigger] after[a].entity != #[trigger] after[b].entity by {
                        if a < before.len() && b < before.len() {
                            assert(after[a] == before[a] && after[b] == before[b]);
                        }
                    }
                    assert forall|a: int, b: int|
                        0 <= a < after.len() && 0 <= b < after.len() && a != b && (#[trigger] after[a]).in_bag is Some
                            && after[a].in_bag == (#[trigger] after[b]).in_bag implies after[a].item.id != after[b].item.id by {
                        if a < before.len() && b < before.len() {
                            assert(after[a] == before[a] && after[b] == before[b]);
                        }
                    }
                },
                SpawnType::InBag(owner) => {
                    lemma_put_in_bag_counts(before, owner, req.item_id, db[d].name@, f, owner, req.item_id);
                },
            },
        }
        assert forall|i: int, k: int| 0 <= i < after.len() && reqs.len() <= k < fresh.len()
            implies after[i].entity != fresh[k] by {
            if i < before.len() {
                match info_by_id(db, req.item_id) {
                    None => {},
                    Some(d) => match req.spawn_type {
                        SpawnType::OnGround(pos) => { assert(after[i] == before[i]); },
                        SpawnType::InBag(owner) => {
                            match bag_stack(before, owner, req.item_id) {
                                Some(kk) => { assert(after[i].entity == before[i].entity); },
                                None => { assert(after[i] == before[i]); },
                            }
                        },
                    },
                }
            }
        }
    }
}

} // verus!
