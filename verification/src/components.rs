use vstd::prelude::*;

verus! {

/// Identifies an entity of the game world: its index and its generation.
#[derive(Debug, Copy, Clone, PartialEq, Eq, Hash, Structural)]
pub struct EntityId {
    pub id: u32,
    pub gen: i32,
}

/// Represents a position of anything that exists physically in the game world.
#[derive(Debug, Copy, Clone, PartialEq, Eq, Hash, Structural)]
pub struct Position {
    pub x: usize,
    pub y: usize,
}

/// The coordinates of the tile at index `idx` of a row major grid of width `width`.
pub open spec fn spec_idx_to_xy(idx: int, width: int) -> (int, int) {
    (idx % width, idx / width)
}

impl Position {
    pub fn new(x: usize, y: usize) -> (p: Self)
        ensures
            p.x == x,
            p.y == y,
    {
        Self { x, y }
    }

    /// The position of tile `idx` in a row major grid of width `width`.
    pub fn from_idx(idx: usize, width: usize) -> (p: Self)
        requires
            width > 0,
        ensures
            p.x == spec_idx_to_xy(idx as int, width as int).0,
            p.y == spec_idx_to_xy(idx as int, width as int).1,
    {
        Self { x: idx % width, y: idx / width }
    }
}

} // verus!

verus! {

/// A point on the grid that may lie outside the map, with signed coordinates.
#[derive(Debug, Copy, Clone, PartialEq, Eq, Hash, Structural)]
pub struct Point {
    pub x: i32,
    pub y: i32,
}

impl Point {
    pub fn new(x: i32, y: i32) -> (p: Self)
        ensures
            p.x == x,
            p.y == y,
    {
        Self { x, y }
    }
}

impl Position {
    /// The position of a point whose coordinates are not negative.
    pub fn from_point(value: Point) -> (p: Self)
        requires
            value.x >= 0,
            value.y >= 0,
        ensures
            p.x == value.x,
            p.y == value.y,
    {
        Self::new(value.x as usize, value.y as usize)
    }
}

/// A plain strength amount, used when breaking things.
pub struct Strength {
    pub amt: u32,
}

/// Prevents gameobjects from passing through it
pub struct Blocking;

/// A water tile where a fish may bite, for the given time left in nanoseconds.
#[derive(Debug, Copy, Clone, PartialEq, Eq, Structural)]
pub struct Fishable {
    pub time_left: u64,
}

#[derive(Debug, Copy, Clone, PartialEq, Eq, Structural)]
pub struct FishAction {
    /// mainly just for finding where the fishing rod will be spawned
    pub target: Position,
}

/// An entity waiting for a fish to bite: its attempts left and the time since the last attempt
/// in nanoseconds.
#[derive(Debug, Copy, Clone, PartialEq, Eq, Structural)]
pub struct WaitingForFish {
    pub attempts: usize,
    pub time_since_last_attempt: u64,
}

impl WaitingForFish {
    pub fn new(attempts: usize) -> (w: Self)
        ensures
            w.attempts == attempts,
            w.time_since_last_attempt == 0,
    {
        Self { attempts, time_since_last_attempt: 0 }
    }
}

pub struct FishOnTheLine;

/// The name of an entity.
pub struct Name(pub String);

impl Name {
    pub fn new(t: &str) -> (n: Self)
        ensures
            n.0@ == t@,
    {
        Self(String::from_str(t))
    }
}

pub struct Monster;

/// Makes the entity walk around in a random cardinal direction
pub struct RandomWalkerAI;

/// Hit points and defense of an entity that can be damaged.
#[derive(Debug, Copy, Clone, PartialEq, Eq, Structural)]
pub struct HealthStats {
    pub hp: u32,
    pub max_hp: u32,
    pub defense: u32,
}

impl HealthStats {
    /// Full health: the hit points start at the maximum.
    pub fn new(max_hp: u32, defense: u32) -> (h: Self)
        ensures
            h.hp == max_hp,
            h.max_hp == max_hp,
            h.defense == defense,
    {
        Self { hp: max_hp, max_hp, defense }
    }
}

/// An item that will be spawned on the associated entity's death
pub struct DeathDrop {
    pub item_id: usize,
}

impl DeathDrop {
    pub fn new(item_id: usize) -> (d: Self)
        ensures
            d.item_id == item_id,
    {
        Self { item_id }
    }
}

/// The tool that is needed to break something.
#[derive(Debug, Copy, Clone, PartialEq, Eq, Structural)]
pub enum ToolType {
    Hand,
    Pickaxe,
    Axe,
    Shovel,
}

/// Something that can be broken with the given tool.
#[derive(Debug, Copy, Clone, PartialEq, Eq, Structural)]
pub struct Breakable {
    pub by: ToolType,
}

impl Breakable {
    pub fn new(by: ToolType) -> (b: Self)
        ensures
            b.by == by,
    {
        Self { by }
    }
}

/// Damage (negative) and healing (positive) queued up for an entity.
pub struct SufferDamage {
    pub amount: Vec<i32>,
}

/// Used to signal to other systems that an entity finished their activity
pub struct FinishedActivity;

/// The item kind an entity is, and how many of it.
#[derive(Debug, Copy, Clone, PartialEq, Eq, Structural)]
pub struct Item {
    pub id: crate::items::ItemID,
    pub qty: crate::items::ItemQty,
}

impl Item {
    pub fn new(id: crate::items::ItemID, qty: crate::items::ItemQty) -> (i: Self)
        ensures
            i.id == id,
            i.qty == qty,
    {
        Self { id, qty }
    }
}

/// Marks an item as held in the bag of `owner`.
#[derive(Debug, Copy, Clone, PartialEq, Eq, Structural)]
pub struct InBag {
    pub owner: EntityId,
}

} // verus!

verus! {

/// A place on a body where an item can be worn or held.
#[derive(Debug, Copy, Clone, PartialEq, Eq, Structural)]
pub enum EquipmentSlot {
    Hand,
    Torso,
    Head,
    Legs,
    Feet,
    Tail,
}

/// The slot that `name` stands for; unknown names stand for the head.
pub open spec fn slot_named(name: Seq<char>) -> EquipmentSlot {
    if name == "Hand"@ {
        EquipmentSlot::Hand
    } else if name == "Torso"@ {
        EquipmentSlot::Torso
    } else if name == "Head"@ {
        EquipmentSlot::Head
    } else if name == "Legs"@ {
        EquipmentSlot::Legs
    } else if name == "Feet"@ {
        EquipmentSlot::Feet
    } else if name == "Tail"@ {
        EquipmentSlot::Tail
    } else {
        EquipmentSlot::Head
    }
}

/// An item that can be equipped in a slot.
#[derive(Debug, Copy, Clone, PartialEq, Eq, Structural)]
pub struct Equipable {
    pub slot: EquipmentSlot,
}

impl Equipable {
    /// The equipable for the slot named `name`: `Hand`, `Torso`, `Head`, `Legs`, `Feet` or
    /// `Tail`; any other name gives the head.
    pub fn from_str(name: &str) -> (e: Self)
        ensures
            e.slot == slot_named(name@),
    {
        let slot = if str_eq(name, "Hand") {
            EquipmentSlot::Hand
        } else if str_eq(name, "Torso") {
            EquipmentSlot::Torso
        } else if str_eq(name, "Head") {
            EquipmentSlot::Head
        } else if str_eq(name, "Legs") {
            EquipmentSlot::Legs
        } else if str_eq(name, "Feet") {
            EquipmentSlot::Feet
        } else if str_eq(name, "Tail") {
            EquipmentSlot::Tail
        } else {
            EquipmentSlot::Head
        };
        Self { slot }
    }
}

/// Whether two texts are equal, character by character.
pub fn str_eq(a: &str, b: &str) -> (r: bool)
    ensures
        r == (a@ == b@),
{
    let n = a.unicode_len();
    let m = b.unicode_len();
    if n != m {
        return false;
    }
    let mut i: usize = 0;
    while i < n
        invariant
            n == a@.len(),
            m == b@.len(),
            n == m,
            i <= n,
            forall|k: int| 0 <= k < i ==> a@[k] == b@[k],
        decreases n - i,
    {
        if a.get_char(i) != b.get_char(i) {
            return false;
        }
        i = i + 1;
    }
    assert(a@ =~= b@);
    true
}

/// A bonus (or malus) to the damage its wearer deals.
#[derive(Debug, Copy, Clone, PartialEq, Eq, Structural)]
pub struct AttackBonus(pub i32);

/// The equipment slots an entity has, one entry per slot.
pub struct EquipmentSlots {
    pub slots: Vec<EquipmentSlot>,
}

/// Marks an item as equipped on an entity.
#[derive(Debug, Copy, Clone, PartialEq, Eq, Structural)]
pub struct Equipped {
    pub on: EntityId,
}

/// Request of an entity to pick up the item entity `item`.
#[derive(Debug, Copy, Clone, PartialEq, Eq, Structural)]
pub struct PickupAction {
    pub item: EntityId,
}

/// Request of an entity to break `target`.
#[derive(Debug, Copy, Clone, PartialEq, Eq, Structural)]
pub struct BreakAction {
    pub target: EntityId,
}

/// Request of an entity to attack `target`.
#[derive(Debug, Copy, Clone, PartialEq, Eq, Structural)]
pub struct AttackAction {
    pub target: EntityId,
}

/// Request of an entity to move to `new_pos`.
#[derive(Debug, Copy, Clone, PartialEq, Eq, Structural)]
pub struct MoveAction {
    pub new_pos: Position,
}

impl MoveAction {
    pub fn new(new_pos: Position) -> (m: Self)
        ensures
            m.new_pos == new_pos,
    {
        Self { new_pos }
    }
}

/// Request of an entity to equip (or unequip) the item entity `item`.
#[derive(Debug, Copy, Clone, PartialEq, Eq, Structural)]
pub struct EquipAction {
    pub item: EntityId,
}

/// Request of an entity to consume the item entity `item`.
#[derive(Debug, Copy, Clone, PartialEq, Eq, Structural)]
pub struct ConsumeAction {
    pub item: EntityId,
}

/// Request of an entity to craft with two item entities of its bag.
#[derive(Debug, Copy, Clone, PartialEq, Eq, Structural)]
pub struct CraftAction {
    pub first_item: EntityId,
    pub second_item: EntityId,
}

/// The six attributes of an entity.
#[derive(Debug, Copy, Clone, PartialEq, Eq, Structural)]
pub struct EntityStats {
    pub set: crate::stats::Stats,
}

impl EntityStats {
    pub fn from(set: crate::stats::Stats) -> (e: Self)
        ensures
            e.set == set,
    {
        Self { set }
    }
}

} // verus!
