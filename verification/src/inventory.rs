use vstd::prelude::*;
use crate::app_state::AppState;
use crate::components::{ConsumeAction, CraftAction, EntityId, EquipAction, InBag, Item, Position};
use crate::config::{next_sort_mode, InventoryConfig, SortMode};
use crate::data_read::items::ItemDatabase;
use crate::items::{info_by_id, ItemID, ItemQty, ItemRecord, ItemWorld};
use crate::message_log::{lines_view, LogLine, MessageType};
use crate::player::Key;
use crate::search::first_index;
use crate::text::{chars_lt, decimal, decimal_text, signed_decimal, signed_decimal_text, str_lt};

verus! {

broadcast use crate::search::lemma_first_index;

/// An action chosen in the use menu.
#[derive(Debug, Copy, Clone, PartialEq, Eq, Structural)]
pub enum UseMenuResult {
    Craft,
    Drop,
    Examine,
    Equip,
    Consume,
    Cancel,
}

/// The item the player selected in the inventory and the action chosen for it, if any.
#[derive(Debug, Copy, Clone, PartialEq, Eq, Structural)]
pub struct SelectedInventoryItem {
    pub first_item: EntityId,
    pub intended_action: Option<UseMenuResult>,
}

/// What the inventory input means for the frame.
pub enum InventoryResponse {
    Waiting,
    ActionReady,
    SecondItemSelected { second_item: EntityId },
    StateChange(AppState),
}

/// How far the player got in choosing.
#[derive(Debug, Copy, Clone, PartialEq, Eq, Structural)]
pub enum SelectionStatus {
    NoSelection,
    SelectionWithoutAction,
    SelectionAndAction,
}

/// How far a selection got.
pub open spec fn status_of(sel: Option<SelectedInventoryItem>) -> SelectionStatus {
    match sel {
        Some(s) => match s.intended_action {
            Some(_) => SelectionStatus::SelectionAndAction,
            None => SelectionStatus::SelectionWithoutAction,
        },
        None => SelectionStatus::NoSelection,
    }
}

/// Gets the state of the player in the inventory screen.
/// Checks if the player has made a selection and an action for the selection
pub fn check_inventory_selection(sel: &Option<SelectedInventoryItem>) -> (r: SelectionStatus)
    ensures
        r == status_of(*sel),
{
    match sel {
        Some(selection) => match selection.intended_action {
            Some(_) => SelectionStatus::SelectionAndAction,
            None => SelectionStatus::SelectionWithoutAction,
        },
        None => SelectionStatus::NoSelection,
    }
}

/// The items in the bag of `owner`, in world order.
pub open spec fn bag_records(s: Seq<ItemRecord>, owner: EntityId) -> Seq<ItemRecord>
    decreases s.len(),
{
    if s.len() == 0 {
        Seq::empty()
    } else if s.last().in_bag == Some(InBag { owner }) {
        bag_records(s.drop_last(), owner).push(s.last())
    } else {
        bag_records(s.drop_last(), owner)
    }
}

/// Whether `a` sorts strictly after `b`: by name, or else by item id.
pub open spec fn sorts_after(mode: SortMode, a: ItemRecord, b: ItemRecord) -> bool {
    match mode {
        SortMode::NameABC => chars_lt(b.name, a.name),
        _ => a.item.id.0 > b.item.id.0,
    }
}

/// The predicate "sorts strictly after `x`".
pub open spec fn after_pred(mode: SortMode, x: ItemRecord) -> spec_fn(ItemRecord) -> bool {
    |r: ItemRecord| sorts_after(mode, r, x)
}

/// `x` put into the sorted list before the first entry that sorts after it.
pub open spec fn insert_sorted(sorted: Seq<ItemRecord>, x: ItemRecord, mode: SortMode) -> Seq<ItemRecord> {
    match first_index(sorted, after_pred(mode, x)) {
        Some(k) => sorted.insert(k, x),
        None => sorted.push(x),
    }
}

/// The records sorted by the mode, equal ones kept in their order (a stable sort).
pub open spec fn sorted_by_mode(s: Seq<ItemRecord>, mode: SortMode) -> Seq<ItemRecord>
    decreases s.len(),
{
    if s.len() == 0 { Seq::empty() } else { insert_sorted(sorted_by_mode(s.drop_last(), mode), s.last(), mode) }
}

/// The item entity listed at `n` in the inventory of `owner`.
pub open spec fn listed_item(s: Seq<ItemRecord>, owner: EntityId, mode: SortMode, n: int) -> Option<EntityId> {
    let l = sorted_by_mode(bag_records(s, owner), mode);
    if 0 <= n < l.len() { Some(l[n].entity) } else { None }
}

/// Whether item `i` of the world sorts strictly after item `j`.
fn after(world: &ItemWorld, mode: SortMode, i: usize, j: usize) -> (r: bool)
    requires
        i < world@.len(),
        j < world@.len(),
    ensures
        r == sorts_after(mode, world@[i as int], world@[j as int]),
{
    match mode {
        SortMode::NameABC => str_lt(world.items[j].name.as_str(), world.items[i].name.as_str()),
        _ => world.items[i].item.id.0 > world.items[j].item.id.0,
    }
}

/// The indices of the items in the bag of `owner`, in inventory order.
fn inventory_order(world: &ItemWorld, owner: EntityId, mode: SortMode) -> (r: Vec<usize>)
    ensures
        forall|k: int| 0 <= k < r@.len() ==> #[trigger] r@[k] < world@.len(),
        r@.map_values(|i: usize| world@[i as int]) == sorted_by_mode(bag_records(world@, owner), mode),
{
    let mut r: Vec<usize> = Vec::new();
    let mut j: usize = 0;
    while j < world.items.len()
        invariant
            j <= world@.len(),
            world@.len() == world.items@.len(),
            forall|k: int| 0 <= k < r@.len() ==> #[trigger] r@[k] < world@.len(),
            r@.map_values(|i: usize| world@[i as int]) == sorted_by_mode(bag_records(world@.take(j as int), owner), mode),
        decreases world@.len() - j,
    {
        assert(world@.take(j as int + 1).drop_last() =~= world@.take(j as int));
        assert(world@.take(j as int + 1).last() == world@[j as int]);
        let ghost prev = bag_records(world@.take(j as int), owner);
        if world.items[j].in_bag == Some(InBag { owner }) {
            assert(bag_records(world@.take(j as int + 1), owner) == prev.push(world@[j as int]));
            assert(prev.push(world@[j as int]).drop_last() =~= prev);
            let ghost sorted = r@.map_values(|i: usize| world@[i as int]);
            let ghost x = world@[j as int];
            let ghost p = after_pred(mode, x);
            let mut k: usize = 0;
            let mut found = false;
            while !found && k < r.len()
                invariant
                    k <= r@.len(),
                    forall|m: int| 0 <= m < r@.len() ==> #[trigger] r@[m] < world@.len(),
                    j < world@.len(),
                    sorted == r@.map_values(|i: usize| world@[i as int]),
                    p == after_pred(mode, x),
                    x == world@[j as int],
                    forall|m: int| 0 <= m < k ==> !p(sorted[m]),
                    found ==> k < r@.len() && p(sorted[k as int]),
                decreases r@.len() - k + if found { 0int } else { 1int },
            {
                if after(world, mode, r[k], j) {
                    found = true;
                } else {
                    k = k + 1;
                }
            }
            if found {
                proof { crate::search::lemma_first_index_is(sorted, p, k as int); }
                r.insert(k, j);
                assert(r@.map_values(|i: usize| world@[i as int]) =~= sorted.insert(k as int, x));
            } else {
                proof { crate::search::lemma_first_index_none(sorted, p); }
                r.push(j);
                assert(r@.map_values(|i: usize| world@[i as int]) =~= sorted.push(x));
            }
        }
        j = j + 1;
    }
    assert(world@.take(j as int) =~= world@);
    r
}

/// The item entity listed at `n` in the inventory of `owner`.
pub fn item_at(world: &ItemWorld, owner: EntityId, mode: SortMode, n: usize) -> (r: Option<EntityId>)
    ensures
        r == listed_item(world@, owner, mode, n as int),
{
    let order = inventory_order(world, owner, mode);
    proof {
        assert(order@.len() == sorted_by_mode(bag_records(world@, owner), mode).len());
    }
    if n < order.len() {
        assert(order@.map_values(|i: usize| world@[i as int])[n as int] == world@[order@[n as int] as int]);
        Some(world.items[order[n]].entity)
    } else {
        None
    }
}

/// The message when the chosen index is past the items of the bag.
pub open spec fn out_of_bounds_text() -> Seq<char> {
    "Index selected is out of bounds of the backapack."@
}

/// What choosing the inventory entry `n` does: with nothing selected, the entry becomes the
/// selection (or a message says it is past the bag); with a selection and an action, the entry
/// is the second item of a two item action; otherwise nothing happens.
pub open spec fn spec_select(sel: Option<SelectedInventoryItem>, picked: Option<EntityId>)
    -> (InventoryResponse, Option<SelectedInventoryItem>, Option<Seq<char>>)
{
    match status_of(sel) {
        SelectionStatus::NoSelection => match picked {
            Some(first_item) => (InventoryResponse::Waiting, Some(SelectedInventoryItem { first_item, intended_action: None }), None),
            None => (InventoryResponse::Waiting, sel, Some(out_of_bounds_text())),
        },
        SelectionStatus::SelectionWithoutAction => (InventoryResponse::Waiting, sel, None),
        SelectionStatus::SelectionAndAction => match picked {
            Some(second_item) => (InventoryResponse::SecondItemSelected { second_item }, sel, None),
            None => (InventoryResponse::Waiting, sel, None),
        },
    }
}

/// Chooses the inventory entry `idx_selected` of the player's bag, as `spec_select` says.
fn select_item(
    player: EntityId,
    idx_selected: usize,
    world: &ItemWorld,
    cfg: &InventoryConfig,
    sel: &mut Option<SelectedInventoryItem>,
) -> (r: (InventoryResponse, Option<String>))
    ensures
        ({
            let (resp, s, line) = spec_select(*old(sel), listed_item(world@, player, cfg.sort_mode, idx_selected as int));
            &&& r.0 == resp
            &&& *final(sel) == s
            &&& (match line { Some(t) => r.1 matches Some(l) && l@ == t, None => r.1 is None })
        }),
{
    let selected_entity = item_at(world, player, cfg.sort_mode, idx_selected);
    match check_inventory_selection(sel) {
        SelectionStatus::NoSelection => match selected_entity {
            Some(first_item) => {
                *sel = Some(SelectedInventoryItem { first_item, intended_action: None });
                (InventoryResponse::Waiting, None)
            },
            None => {
                proof { reveal_strlit("Index selected is out of bounds of the backapack."); }
                (InventoryResponse::Waiting, Some(String::from_str("Index selected is out of bounds of the backapack.")))
            },
        },
        SelectionStatus::SelectionWithoutAction => (InventoryResponse::Waiting, None),
        SelectionStatus::SelectionAndAction => match selected_entity {
            Some(second_item) => (InventoryResponse::SecondItemSelected { second_item }, None),
            None => (InventoryResponse::Waiting, None),
        },
    }
}

/// The inventory entry a key chooses: the digits 1 to 9, then the letters A to H.
pub open spec fn key_entry(k: Key) -> Option<int> {
    match k {
        Key::Key1 => Some(0), Key::Key2 => Some(1), Key::Key3 => Some(2), Key::Key4 => Some(3),
        Key::Key5 => Some(4), Key::Key6 => Some(5), Key::Key7 => Some(6), Key::Key8 => Some(7),
        Key::Key9 => Some(8), Key::A => Some(9), Key::B => Some(10), Key::C => Some(11),
        Key::D => Some(12), Key::E => Some(13), Key::F => Some(14), Key::G => Some(15),
        Key::H => Some(16),
        _ => None,
    }
}

/// The action a key gives a selection that has none: `U` uses it with another item (crafting,
/// and the game waits for the second item), `E` examines, `D` drops, `Q` equips, `C` consumes,
/// escape cancels.
pub open spec fn key_action(k: Key) -> Option<UseMenuResult> {
    match k {
        Key::U => Some(UseMenuResult::Craft),
        Key::E => Some(UseMenuResult::Examine),
        Key::D => Some(UseMenuResult::Drop),
        Key::Q => Some(UseMenuResult::Equip),
        Key::C => Some(UseMenuResult::Consume),
        Key::Escape => Some(UseMenuResult::Cancel),
        _ => None,
    }
}

/// What a key press in the inventory does: the response, the selection, the sort mode, and a
/// message.
pub open spec fn spec_inventory_input(key: Option<Key>, sel: Option<SelectedInventoryItem>, mode: SortMode, world: Seq<ItemRecord>, player: EntityId)
    -> (InventoryResponse, Option<SelectedInventoryItem>, SortMode, Option<Seq<char>>)
{
    match key {
        None => (InventoryResponse::Waiting, sel, mode, None),
        Some(k) => if status_of(sel) == SelectionStatus::SelectionWithoutAction {
            match key_action(k) {
                Some(a) => (
                    if a == UseMenuResult::Craft { InventoryResponse::Waiting } else { InventoryResponse::ActionReady },
                    Some(SelectedInventoryItem { intended_action: Some(a), ..sel->0 }),
                    mode,
                    None,
                ),
                None => (InventoryResponse::Waiting, sel, mode, None),
            }
        } else {
            match key_entry(k) {
                Some(n) => {
                    let (r, s, line) = spec_select(sel, listed_item(world, player, mode, n));
                    (r, s, mode, line)
                },
                None => match k {
                    Key::S => (InventoryResponse::Waiting, sel, next_sort_mode(mode), None),
                    Key::Escape | Key::I => (InventoryResponse::StateChange(AppState::InGame), None, mode, None),
                    _ => (InventoryResponse::Waiting, sel, mode, None),
                },
            }
        },
    }
}

/// Handles a key press in the inventory screen as `spec_inventory_input` says.
pub fn p_input_inventory(
    key: Option<Key>,
    player: EntityId,
    sel: &mut Option<SelectedInventoryItem>,
    world: &ItemWorld,
    cfg: &mut InventoryConfig,
) -> (r: (InventoryResponse, Option<String>))
    ensures
        ({
            let (resp, s, mode, line) = spec_inventory_input(key, *old(sel), old(cfg).sort_mode, world@, player);
            &&& r.0 == resp
            &&& *final(sel) == s
            &&& final(cfg).sort_mode == mode
            &&& (match line { Some(t) => r.1 matches Some(l) && l@ == t, None => r.1 is None })
        }),
{
    match key {
        None => (InventoryResponse::Waiting, None),
        Some(k) => {
            if check_inventory_selection(sel) == SelectionStatus::SelectionWithoutAction {
                let action = match k {
                    Key::U => Some(UseMenuResult::Craft),
                    Key::E => Some(UseMenuResult::Examine),
                    Key::D => Some(UseMenuResult::Drop),
                    Key::Q => Some(UseMenuResult::Equip),
                    Key::C => Some(UseMenuResult::Consume),
                    Key::Escape => Some(UseMenuResult::Cancel),
                    _ => None,
                };
                match action {
                    Some(a) => {
                        let first_item = match sel {
                            Some(s) => s.first_item,
                            None => {
                                return (InventoryResponse::Waiting, None);
                            },
                        };
                        *sel = Some(SelectedInventoryItem { first_item, intended_action: Some(a) });
                        if a == UseMenuResult::Craft {
                            (InventoryResponse::Waiting, None)
                        } else {
                            (InventoryResponse::ActionReady, None)
                        }
                    },
                    None => (InventoryResponse::Waiting, None),
                }
            } else {
                let entry: Option<usize> = match k {
                    Key::Key1 => Some(0), Key::Key2 => Some(1), Key::Key3 => Some(2), Key::Key4 => Some(3),
                    Key::Key5 => Some(4), Key::Key6 => Some(5), Key::Key7 => Some(6), Key::Key8 => Some(7),
                    Key::Key9 => Some(8), Key::A => Some(9), Key::B => Some(10), Key::C => Some(11),
                    Key::D => Some(12), Key::E => Some(13), Key::F => Some(14), Key::G => Some(15),
                    Key::H => Some(16),
                    _ => None,
                };
                match entry {
                    Some(n) => select_item(player, n, world, cfg, sel),
                    None => match k {
                        Key::S => {
                            cfg.rotate_sort_mode();
                            (InventoryResponse::Waiting, None)
                        },
                        Key::Escape | Key::I => (clean_and_exit_inventory(sel), None),
                        _ => (InventoryResponse::Waiting, None),
                    },
                }
            }
        },
    }
}

/// Drops the selection and leaves the inventory for the game.
fn clean_and_exit_inventory(sel: &mut Option<SelectedInventoryItem>) -> (r: InventoryResponse)
    ensures
        *final(sel) == None::<SelectedInventoryItem>,
        r == InventoryResponse::StateChange(AppState::InGame),
{
    *sel = None;
    InventoryResponse::StateChange(AppState::InGame)
}

/// The predicate "is the item `e` in the bag of `owner`".
pub open spec fn held_pred(e: EntityId, owner: EntityId) -> spec_fn(ItemRecord) -> bool {
    |r: ItemRecord| r.entity == e && r.in_bag == Some(InBag { owner })
}

/// The predicate "lies at `pos` and is of kind `id`".
pub open spec fn ground_pred(pos: Position, id: ItemID) -> spec_fn(ItemRecord) -> bool {
    |r: ItemRecord| r.position == Some(pos) && r.item.id == id
}

/// The message of a drop.
pub open spec fn dropped_text() -> Seq<char> {
    "Dropped it"@
}

/// The message when an item kind has no entry.
pub open spec fn unknown_item_text(id: ItemID) -> Seq<char> {
    "Could not find item with id: "@ + decimal(id.0 as nat)
}

/// The message when the selected entity is not in the player's bag.
pub open spec fn not_examined_text(e: EntityId) -> Seq<char> {
    "Couldn't examine entity: Entity("@ + decimal(e.id as nat) + ", Generation("@ + signed_decimal(e.gen as int) + "))"@
}

/// The items after the item at index `k` of the player's bag is dropped at `pos` (if the player
/// has a position): it leaves the bag; a stack of its kind lying at `pos` takes its amount, or
/// else it lies at `pos` itself.
pub open spec fn dropped(s: Seq<ItemRecord>, k: int, pos: Option<Position>) -> Seq<ItemRecord> {
    let out = s.update(k, ItemRecord { in_bag: None, ..s[k] });
    match pos {
        None => out,
        Some(p) => match first_index(out, ground_pred(p, s[k].item.id)) {
            Some(g) => out.update(g, ItemRecord { item: Item { id: out[g].item.id, qty: ItemQty((out[g].item.qty.0 + s[k].item.qty.0) as usize) }, ..out[g] }),
            None => out.update(k, ItemRecord { position: Some(p), ..out[k] }),
        },
    }
}

/// What a one item action gives besides the changed items: the messages and the equip or
/// consume action for the player.
pub struct OneItemOutcome {
    pub lines: Vec<LogLine>,
    pub equip: Option<EquipAction>,
    pub consume: Option<ConsumeAction>,
}

/// What a one item action does: the items after it, the messages, the equip action and the
/// consume action. The selected item is looked for in the player's bag; dropping takes it out
/// (see `dropped`), examining gives the item's examine text, equipping and consuming request it.
pub open spec fn spec_one_item(s: Seq<ItemRecord>, player: EntityId, sel: SelectedInventoryItem, pos: Option<Position>, db: ItemDatabase)
    -> (Seq<ItemRecord>, Seq<(MessageType, Seq<char>)>, Option<EquipAction>, Option<ConsumeAction>)
{
    let found = first_index(s, held_pred(sel.first_item, player));
    match sel.intended_action->0 {
        UseMenuResult::Drop => match found {
            Some(k) => (dropped(s, k, pos), seq![(MessageType::INFO, dropped_text())], None, None),
            None => (s, Seq::empty(), None, None),
        },
        UseMenuResult::Examine => match found {
            Some(k) => {
                let text = match info_by_id(db.data@, s[k].item.id) {
                    Some(d) => db.data@[d].examine_text@,
                    None => unknown_item_text(s[k].item.id),
                };
                (s, seq![(MessageType::INFO, text)], None, None)
            },
            None => (s, seq![(MessageType::INFO, not_examined_text(sel.first_item))], None, None),
        },
        UseMenuResult::Equip => match found {
            Some(k) => (s, Seq::empty(), Some(EquipAction { item: s[k].entity }), None),
            None => (s, Seq::empty(), None, None),
        },
        UseMenuResult::Consume => match found {
            Some(k) => (s, Seq::empty(), None, Some(ConsumeAction { item: s[k].entity })),
            None => (s, Seq::empty(), None, None),
        },
        _ => (s, Seq::empty(), None, None),
    }
}

/// Whether the one item action can be carried out: it is no crafting, and a drop onto a stack
/// does not overflow it.
pub open spec fn one_item_ok(s: Seq<ItemRecord>, player: EntityId, sel: SelectedInventoryItem, pos: Option<Position>) -> bool {
    &&& sel.intended_action is Some
    &&& sel.intended_action != Some(UseMenuResult::Craft)
    &&& (sel.intended_action == Some(UseMenuResult::Drop) ==> match (first_index(s, held_pred(sel.first_item, player)), pos) {
        (Some(k), Some(p)) => {
            let out = s.update(k, ItemRecord { in_bag: None, ..s[k] });
            match first_index(out, ground_pred(p, s[k].item.id)) {
                Some(g) => out[g].item.qty.0 + s[k].item.qty.0 <= usize::MAX,
                None => true,
            }
        },
        _ => true,
    })
}

/// The index of the first item of the world that satisfies `held_pred(e, owner)`.
fn find_held(world: &ItemWorld, e: EntityId, owner: EntityId) -> (r: Option<usize>)
    ensures
        match r {
            Some(k) => first_index(world@, held_pred(e, owner)) == Some(k as int),
            None => first_index(world@, held_pred(e, owner)) is None,
        },
{
    let ghost p = held_pred(e, owner);
    let mut i: usize = 0;
    while i < world.items.len()
        invariant
            i <= world@.len(),
            world@.len() == world.items@.len(),
            p == held_pred(e, owner),
            forall|j: int| 0 <= j < i ==> !p(world@[j]),
        decreases world@.len() - i,
    {
        if world.items[i].entity == e && world.items[i].in_bag == Some(InBag { owner }) {
            proof { crate::search::lemma_first_index_is(world@, p, i as int); }
            return Some(i);
        }
        i = i + 1;
    }
    proof { crate::search::lemma_first_index_none(world@, p); }
    None
}

/// The index of the first item lying at `pos` of kind `id`.
fn find_ground(world: &ItemWorld, pos: Position, id: ItemID) -> (r: Option<usize>)
    ensures
        match r {
            Some(k) => first_index(world@, ground_pred(pos, id)) == Some(k as int),
            None => first_index(world@, ground_pred(pos, id)) is None,
        },
{
    let ghost p = ground_pred(pos, id);
    let mut i: usize = 0;
    while i < world.items.len()
        invariant
            i <= world@.len(),
            world@.len() == world.items@.len(),
            p == ground_pred(pos, id),
            forall|j: int| 0 <= j < i ==> !p(world@[j]),
        decreases world@.len() - i,
    {
        if world.items[i].position == Some(pos) && world.items[i].item.id == id {
            proof { crate::search::lemma_first_index_is(world@, p, i as int); }
            return Some(i);
        }
        i = i + 1;
    }
    proof { crate::search::lemma_first_index_none(world@, p); }
    None
}

/// Carries out the one item action of the player's selection as `spec_one_item` says, and drops
/// the selection. Without a selection nothing happens.
pub fn handle_one_item_actions(
    player: EntityId,
    sel: &mut Option<SelectedInventoryItem>,
    world: &mut ItemWorld,
    player_pos: Option<Position>,
    db: &ItemDatabase,
) -> (r: OneItemOutcome)
    requires
        *old(sel) matches Some(s) ==> one_item_ok(old(world)@, player, s, player_pos),
    ensures
        match *old(sel) {
            None => {
                &&& *final(sel) == None::<SelectedInventoryItem>
                &&& final(world)@ == old(world)@
                &&& r.lines@.len() == 0
                &&& r.equip is None
                &&& r.consume is None
            },
            Some(s) => {
                let (w, lines, equip, consume) = spec_one_item(old(world)@, player, s, player_pos, *db);
                &&& *final(sel) == None::<SelectedInventoryItem>
                &&& final(world)@ == w
                &&& lines_view(r.lines@) == lines
                &&& r.equip == equip
                &&& r.consume == consume
            },
        },
{
    let mut lines: Vec<LogLine> = Vec::new();
    let mut equip: Option<EquipAction> = None;
    let mut consume: Option<ConsumeAction> = None;
    let selection = match sel {
        Some(s) => *s,
        None => {
            return OneItemOutcome { lines, equip, consume };
        },
    };
    let found = find_held(world, selection.first_item, player);
    let action = match selection.intended_action {
        Some(a) => a,
        None => {
            return OneItemOutcome { lines, equip, consume };
        },
    };
    match action {
        UseMenuResult::Drop => {
            match found {
                Some(k) => {
                    let dropped_item = world.items[k].item;
                    let mut e = world.items.remove(k);
                    e.in_bag = None;
                    world.items.insert(k, e);
                    let ghost out = world@;
                    assert(out =~= old(world)@.update(k as int, ItemRecord { in_bag: None, ..old(world)@[k as int] }));
                    proof { reveal_strlit("Dropped it"); }
                    lines.push(LogLine::new(MessageType::INFO, String::from_str("Dropped it")));
                    match player_pos {
                        Some(p) => {
                            match find_ground(world, p, dropped_item.id) {
                                Some(g) => {
                                    let mut ge = world.items.remove(g);
                                    ge.item = Item::new(ge.item.id, ge.item.qty.add(dropped_item.qty));
                                    world.items.insert(g, ge);
                                    assert(world@ =~= dropped(old(world)@, k as int, player_pos));
                                },
                                None => {
                                    let mut e2 = world.items.remove(k);
                                    e2.position = Some(p);
                                    world.items.insert(k, e2);
                                    assert(world@ =~= dropped(old(world)@, k as int, player_pos));
                                },
                            }
                        },
                        None => {},
                    }
                },
                None => {},
            }
        },
        UseMenuResult::Examine => {
            match found {
                Some(k) => {
                    let id = world.items[k].item.id;
                    let text = match db.get_by_id(id) {
                        Some(info) => info.examine_text.clone(),
                        None => {
                            proof { reveal_strlit("Could not find item with id: "); }
                            let mut t = String::from_str("Could not find item with id: ");
                            let digits = decimal_text(id.0);
                            t.append(digits.as_str());
                            t
                        },
                    };
                    lines.push(LogLine::new(MessageType::INFO, text));
                },
                None => {
                    proof {
                        reveal_strlit("Couldn't examine entity: Entity(");
                        reveal_strlit(", Generation(");
                        reveal_strlit("))");
                    }
                    let mut t = String::from_str("Couldn't examine entity: Entity(");
                    let id = decimal_text(selection.first_item.id as usize);
                    t.append(id.as_str());
                    t.append(", Generation(");
                    let gen = signed_decimal_text(selection.first_item.gen);
                    t.append(gen.as_str());
                    t.append("))");
                    lines.push(LogLine::new(MessageType::INFO, t));
                },
            }
        },
        UseMenuResult::Equip => {
            match found {
                Some(k) => {
                    equip = Some(EquipAction { item: world.items[k].entity });
                },
                None => {},
            }
        },
        UseMenuResult::Consume => {
            match found {
                Some(k) => {
                    consume = Some(ConsumeAction { item: world.items[k].entity });
                },
                None => {},
            }
        },
        UseMenuResult::Craft => {},
        UseMenuResult::Cancel => {},
    }
    *sel = None;
    assert(lines_view(lines@) =~= spec_one_item(old(world)@, player, selection, player_pos, *db).1);
    OneItemOutcome { lines, equip, consume }
}

/// Carries out the two item action of the player's selection with the item `second_item`: a
/// craft with two different items requests the craft and drops the selection; with the same
/// item twice nothing happens (the selection stays). Without a selection nothing happens.
pub fn handle_two_item_actions(sel: &mut Option<SelectedInventoryItem>, second_item: EntityId) -> (r: Option<CraftAction>)
    requires
        *old(sel) matches Some(s) ==> s.intended_action == Some(UseMenuResult::Craft),
    ensures
        match *old(sel) {
            None => r is None && *final(sel) == None::<SelectedInventoryItem>,
            Some(s) => if s.first_item == second_item {
                r is None && *final(sel) == *old(sel)
            } else {
                r == Some(CraftAction { first_item: s.first_item, second_item })
                    && *final(sel) == None::<SelectedInventoryItem>
            },
        },
{
    let selection = match sel {
        Some(s) => *s,
        None => {
            return None;
        },
    };
    if selection.first_item == second_item {
        return None;
    }
    *sel = None;
    Some(CraftAction { first_item: selection.first_item, second_item })
}

/// Sorting after is a strict order.
proof fn lemma_after_order(mode: SortMode, a: ItemRecord, b: ItemRecord, c: ItemRecord)
    ensures
        !(sorts_after(mode, a, b) && sorts_after(mode, b, a)),
        sorts_after(mode, a, b) && sorts_after(mode, b, c) ==> sorts_after(mode, a, c),
        sorts_after(mode, a, b) && !sorts_after(mode, b, c) && !sorts_after(mode, c, b) ==> sorts_after(mode, a, c),
        sorts_after(mode, a, b) && !sorts_after(mode, c, b) ==> sorts_after(mode, a, c) || !sorts_after(mode, c, a),
{
    match mode {
        SortMode::NameABC => {
            crate::text::lemma_chars_lt_asymmetric(a.name, b.name);
            crate::text::lemma_chars_lt_total(b.name, c.name);
            crate::text::lemma_chars_lt_total(a.name, c.name);
            if chars_lt(b.name, a.name) && chars_lt(c.name, b.name) {
                crate::text::lemma_chars_lt_transitive(c.name, b.name, a.name);
            }
            if chars_lt(b.name, a.name) && chars_lt(b.name, c.name) && chars_lt(c.name, a.name) {
            }
        },
        _ => {},
    }
}

/// Whether the list is in inventory order: nothing sorts after an entry that comes later.
pub open spec fn in_order(l: Seq<ItemRecord>, mode: SortMode) -> bool {
    forall|i: int, j: int| 0 <= i < j < l.len() ==> !sorts_after(mode, #[trigger] l[i], #[trigger] l[j])
}

proof fn lemma_insert_sorted_in_order(l: Seq<ItemRecord>, x: ItemRecord, mode: SortMode)
    requires
        in_order(l, mode),
    ensures
        in_order(insert_sorted(l, x, mode), mode),
        insert_sorted(l, x, mode).to_multiset() == l.to_multiset().insert(x),
{
    broadcast use vstd::seq_lib::group_to_multiset_ensures;
    let p = after_pred(mode, x);
    match first_index(l, p) {
        Some(k) => {
            let t = l.insert(k, x);
            assert forall|i: int, j: int| 0 <= i < j < t.len() implies !sorts_after(mode, #[trigger] t[i], #[trigger] t[j]) by {
                if j < k {
                    assert(t[i] == l[i] && t[j] == l[j]);
                } else if j == k {
                    assert(t[i] == l[i] && t[j] == x);
                    assert(!p(l[i]));
                } else if i == k {
                    assert(t[i] == x && t[j] == l[j - 1]);
                    assert(p(l[k]));
                    if j - 1 > k {
                        assert(!sorts_after(mode, l[k], l[j - 1]));
                    }
                    lemma_after_order(mode, l[k], x, l[j - 1]);
                    lemma_after_order(mode, l[j - 1], l[k], x);
                    lemma_after_order(mode, x, l[j - 1], l[k]);
                    lemma_after_order(mode, l[k], l[j - 1], x);
                } else if i < k {
                    assert(t[i] == l[i] && t[j] == l[j - 1]);
                } else {
                    assert(t[i] == l[i - 1] && t[j] == l[j - 1]);
                }
            }
        },
        None => {
            let t = l.push(x);
            assert forall|i: int, j: int| 0 <= i < j < t.len() implies !sorts_after(mode, #[trigger] t[i], #[trigger] t[j]) by {
                assert(t[i] == l[i]);
                if j < l.len() {
                    assert(t[j] == l[j]);
                } else {
                    assert(!p(l[i]));
                }
            }
        },
    }
}

/// The inventory lists the items of the bag in order (nothing sorts after an item listed
/// later) and lists each of them exactly once.
pub proof fn lemma_inventory_sorted(s: Seq<ItemRecord>, mode: SortMode)
    ensures
        in_order(sorted_by_mode(s, mode), mode),
        sorted_by_mode(s, mode).to_multiset() == s.to_multiset(),
    decreases s.len(),
{
    broadcast use vstd::seq_lib::group_to_multiset_ensures;
    if s.len() == 0 {
        assert(sorted_by_mode(s, mode) =~= Seq::<ItemRecord>::empty());
        assert(s =~= Seq::<ItemRecord>::empty());
    } else {
        lemma_inventory_sorted(s.drop_last(), mode);
        lemma_insert_sorted_in_order(sorted_by_mode(s.drop_last(), mode), s.last(), mode);
        assert(s.drop_last().push(s.last()) =~= s);
    }
}

/// How many of kind `id` lie at `pos`: the sum of the amounts of the item entities of that kind
/// whose position is `pos`.
pub open spec fn ground_total(s: Seq<ItemRecord>, pos: Position, id: ItemID) -> nat
    decreases s.len(),
{
    if s.len() == 0 {
        0
    } else {
        ground_total(s.drop_last(), pos, id) + if ground_pred(pos, id)(s.last()) { s.last().item.qty.0 as nat } else { 0 }
    }
}

/// Changing one item entity changes the amount lying at `pos` by what that entity adds there
/// after the change, less what it added before.
proof fn lemma_ground_total_update(s: Seq<ItemRecord>, i: int, x: ItemRecord, pos: Position, id: ItemID)
    requires
        0 <= i < s.len(),
    ensures
        ground_total(s.update(i, x), pos, id) + (if ground_pred(pos, id)(s[i]) { s[i].item.qty.0 as nat } else { 0 })
            == ground_total(s, pos, id) + (if ground_pred(pos, id)(x) { x.item.qty.0 as nat } else { 0 }),
    decreases s.len(),
{
    let t = s.update(i, x);
    if i < s.len() - 1 {
        assert(t.drop_last() =~= s.drop_last().update(i, x));
        lemma_ground_total_update(s.drop_last(), i, x, pos, id);
    } else {
        assert(t.drop_last() =~= s.drop_last());
    }
}

/// Dropping conserves items: after the player drops the selected item of its bag while standing
/// at `p`, the item is out of the bag, and the amount of its kind lying at `p` has grown by
/// exactly the amount dropped (whether it joined a stack there or lies there itself); the amount
/// of every other kind lying at `p` is unchanged.
pub proof fn lemma_drop_conserves(
    s: Seq<ItemRecord>,
    player: EntityId,
    sel: SelectedInventoryItem,
    p: Position,
    db: ItemDatabase,
    k: int,
    id: ItemID,
)
    requires
        sel.intended_action == Some(UseMenuResult::Drop),
        one_item_ok(s, player, sel, Some(p)),
        first_index(s, held_pred(sel.first_item, player)) == Some(k),
    ensures
        spec_one_item(s, player, sel, Some(p), db).0.len() == s.len(),
        spec_one_item(s, player, sel, Some(p), db).0[k].entity == sel.first_item,
        spec_one_item(s, player, sel, Some(p), db).0[k].in_bag is None,
        ground_total(spec_one_item(s, player, sel, Some(p), db).0, p, id)
            == ground_total(s, p, id) + if id == s[k].item.id { s[k].item.qty.0 as nat } else { 0 },
{
    let q = s[k].item.qty.0 as nat;
    let kind = s[k].item.id;
    let out = s.update(k, ItemRecord { in_bag: None, ..s[k] });
    lemma_ground_total_update(s, k, ItemRecord { in_bag: None, ..s[k] }, p, id);
    assert(ground_total(out, p, id) == ground_total(s, p, id));
    match first_index(out, ground_pred(p, kind)) {
        Some(g) => {
            let x = ItemRecord { item: Item { id: out[g].item.id, qty: ItemQty((out[g].item.qty.0 + s[k].item.qty.0) as usize) }, ..out[g] };
            lemma_ground_total_update(out, g, x, p, id);
            assert(dropped(s, k, Some(p)) == out.update(g, x));
            if g == k {
                assert(out.update(g, x)[k].in_bag is None);
            }
        },
        None => {
            let x = ItemRecord { position: Some(p), ..out[k] };
            assert(!ground_pred(p, kind)(out[k]));
            lemma_ground_total_update(out, k, x, p, id);
            assert(dropped(s, k, Some(p)) == out.update(k, x));
        },
    }
}

} // verus!
