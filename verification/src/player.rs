use vstd::prelude::*;
use crate::app_state::AppState;
use crate::components::{AttackAction, BreakAction, EntityId, FishAction, Name, PickupAction, Point, Position};
use crate::items::{bag_holds_named, inventory_contains, ItemWorld};
use crate::map::{best_index, items_only, TileEntity, TileMap};

verus! {

/// A key of the keyboard that the game reads; `Other` stands for any other key.
#[derive(Debug, Copy, Clone, PartialEq, Eq, Structural)]
pub enum Key {
    W, A, S, D, Up, Down, Left, Right,
    P, M, I, U, E, Q, C, B, F, G, H,
    Key1, Key2, Key3, Key4, Key5, Key6, Key7, Key8, Key9,
    Back, Space, Escape, Return,
    Other,
}

/// Marks the player entity.
pub struct Player;

/// How the player treats what blocks its way.
#[derive(Debug, Copy, Clone, PartialEq, Eq, Structural)]
pub enum InteractorMode {
    Reactive,
    Agressive,
}

/// An entity that interacts with what it walks into.
#[derive(Debug, Copy, Clone, PartialEq, Eq, Structural)]
pub struct Interactor {
    pub mode: InteractorMode,
}

/// The entries of the main menu.
#[derive(Debug, Copy, Clone, PartialEq, Eq, Structural)]
pub enum MenuSelection {
    NewGame,
    LoadGame,
    Settings,
    QuitGame,
}

/// The text of a main menu entry.
pub open spec fn menu_text(m: MenuSelection) -> Seq<char> {
    match m {
        MenuSelection::NewGame => "new game"@,
        MenuSelection::LoadGame => "load game"@,
        MenuSelection::Settings => "settings"@,
        MenuSelection::QuitGame => "quit game"@,
    }
}

impl MenuSelection {
    /// The entry's text, in lower case.
    pub fn as_lowercase(&self) -> (s: &'static str)
        ensures
            s@ == menu_text(*self),
    {
        proof { reveal_strlit("new game"); reveal_strlit("load game"); reveal_strlit("settings"); reveal_strlit("quit game"); }
        match self {
            MenuSelection::NewGame => "new game",
            MenuSelection::LoadGame => "load game",
            MenuSelection::Settings => "settings",
            MenuSelection::QuitGame => "quit game",
        }
    }
}

/// What the player did in the main menu.
#[derive(Debug, Copy, Clone, PartialEq, Eq, Structural)]
pub enum MenuAction {
    Selected(MenuSelection),
    Hovering(MenuSelection),
    Waiting,
}

/// What the player's input means for the frame.
pub enum PlayerResponse {
    StateChange(AppState),
    TurnAdvance,
    Waiting,
}

/// An action the player's input gives the player entity.
#[derive(Debug, Copy, Clone, PartialEq, Eq, Structural)]
pub enum PlayerAction {
    Attack(AttackAction),
    Fish(FishAction),
    Break(BreakAction),
    Pickup(PickupAction),
}

/// The player: its entity, where it stands and how it interacts.
#[derive(Debug, Copy, Clone, PartialEq, Eq, Structural)]
pub struct PlayerState {
    pub entity: EntityId,
    pub pos: Position,
    pub interactor: Interactor,
}

/// What the player's input gives: the response, the action for the player entity, whether to
/// quit the game, and a message to log.
pub struct PlayerOutcome {
    pub response: PlayerResponse,
    pub action: Option<PlayerAction>,
    pub quit: bool,
    pub line: Option<String>,
}

/// The name of the item a player needs to fish.
pub open spec fn fishing_rod() -> Seq<char> {
    "Fishing Rod"@
}

/// What moving the player by `(dx, dy)` does: the response, the action, and the position after.
/// Off the map nothing happens. Into a blocker: a reactive player waits, an aggressive one
/// attacks it. Into a fishing spot: with a fishing rod in the bag the player fishes there and
/// the game waits for the activity, otherwise nothing happens. Into something breakable: the
/// player breaks it. Onto an item or an empty tile: the player moves there.
pub open spec fn spec_move(p: PlayerState, dx: int, dy: int, map: TileMap, items: Seq<crate::items::ItemRecord>) -> (PlayerResponse, Option<PlayerAction>, Position) {
    let tx = p.pos.x + dx;
    let ty = p.pos.y + dy;
    if !map.spec_in_bounds(tx, ty) {
        (PlayerResponse::Waiting, None, p.pos)
    } else {
        let target = Position { x: tx as usize, y: ty as usize };
        let cell = map.entities_at(tx, ty);
        if cell.len() == 0 {
            (PlayerResponse::TurnAdvance, None, target)
        } else {
            match cell[best_index(cell)] {
                TileEntity::Blocking(b) => match p.interactor.mode {
                    InteractorMode::Reactive => (PlayerResponse::Waiting, None, p.pos),
                    InteractorMode::Agressive => (PlayerResponse::TurnAdvance, Some(PlayerAction::Attack(AttackAction { target: b })), p.pos),
                },
                TileEntity::Fishable(_) => if bag_holds_named(items, fishing_rod(), p.entity) {
                    (
                        PlayerResponse::StateChange(AppState::ActivityBound { response_delay: 0 }),
                        Some(PlayerAction::Fish(FishAction { target })),
                        p.pos,
                    )
                } else {
                    (PlayerResponse::Waiting, None, p.pos)
                },
                TileEntity::Breakable(e) => (PlayerResponse::TurnAdvance, Some(PlayerAction::Break(BreakAction { target: e })), p.pos),
                TileEntity::Item(_) => (PlayerResponse::TurnAdvance, None, target),
            }
        }
    }
}

/// What the map needs for the player to move on it.
pub open spec fn move_ok(p: PlayerState, map: TileMap) -> bool {
    &&& map.wf()
    &&& map.width <= i32::MAX
    &&& map.height <= i32::MAX
    &&& p.pos.x < i32::MAX
    &&& p.pos.y < i32::MAX
}

/// Moves the player by `(delta_x, delta_y)` as `spec_move` says.
pub fn try_move_player(delta_x: i32, delta_y: i32, player: &mut PlayerState, map: &TileMap, items: &ItemWorld) -> (r: (PlayerResponse, Option<PlayerAction>))
    requires
        i32::MIN <= old(player).pos.x + delta_x <= i32::MAX,
        i32::MIN <= old(player).pos.y + delta_y <= i32::MAX,
        move_ok(*old(player), *map),
    ensures
        ({
            let (resp, act, pos) = spec_move(*old(player), delta_x as int, delta_y as int, *map, items@);
            &&& r.0 == resp
            &&& r.1 == act
            &&& final(player).pos == pos
            &&& final(player).entity == old(player).entity
            &&& final(player).interactor == old(player).interactor
        }),
{
    let target_pos = Point::new(player.pos.x as i32 + delta_x, player.pos.y as i32 + delta_y);
    if !map.in_bounds(target_pos) {
        return (PlayerResponse::Waiting, None);
    }
    let target = Position::from_point(target_pos);
    match map.first_entity_in_pos(&target) {
        Some(tile) => match tile {
            TileEntity::Blocking(blocker) => match player.interactor.mode {
                InteractorMode::Reactive => (PlayerResponse::Waiting, None),
                InteractorMode::Agressive => (PlayerResponse::TurnAdvance, Some(PlayerAction::Attack(AttackAction { target: blocker }))),
            },
            TileEntity::Fishable(_) => {
                let rod = Name::new("Fishing Rod");
                proof { reveal_strlit("Fishing Rod"); }
                if inventory_contains(&rod, player.entity, items) {
                    (PlayerResponse::StateChange(AppState::activity_bound()), Some(PlayerAction::Fish(FishAction { target })))
                } else {
                    (PlayerResponse::Waiting, None)
                }
            },
            TileEntity::Breakable(entity) => (PlayerResponse::TurnAdvance, Some(PlayerAction::Break(BreakAction { target: entity }))),
            TileEntity::Item(_) => {
                player.pos = target;
                (PlayerResponse::TurnAdvance, None)
            },
        },
        None => {
            player.pos = target;
            (PlayerResponse::TurnAdvance, None)
        },
    }
}

/// What picking up gives: the first item lying where the player stands.
pub open spec fn spec_pickup(p: PlayerState, map: TileMap) -> Option<PlayerAction> {
    let its = items_only(map.entities_at(p.pos.x as int, p.pos.y as int));
    if its.len() == 0 {
        None
    } else {
        match its[0] {
            TileEntity::Item(e) => Some(PlayerAction::Pickup(PickupAction { item: e })),
            _ => None,
        }
    }
}

/// The player picks up the first item where it stands, if any; the game waits.
fn try_pickup(player: &PlayerState, map: &TileMap) -> (r: Option<PlayerAction>)
    requires
        map.wf(),
        map.spec_in_bounds(player.pos.x as int, player.pos.y as int),
    ensures
        r == spec_pickup(*player, *map),
{
    let items = map.all_items_at_pos(&player.pos);
    if items.len() > 0 {
        match items[0].as_item_entity() {
            Some(e) => Some(PlayerAction::Pickup(PickupAction { item: e })),
            None => None,
        }
    } else {
        None
    }
}

/// The other interaction mode.
pub open spec fn switched(m: InteractorMode) -> InteractorMode {
    match m {
        InteractorMode::Reactive => InteractorMode::Agressive,
        InteractorMode::Agressive => InteractorMode::Reactive,
    }
}

/// Switches the player between reacting to and attacking what blocks its way.
pub fn switch_interaction_mode(player: &mut PlayerState)
    ensures
        final(player).interactor.mode == switched(old(player).interactor.mode),
        final(player).pos == old(player).pos,
        final(player).entity == old(player).entity,
{
    player.interactor.mode = match player.interactor.mode {
        InteractorMode::Reactive => InteractorMode::Agressive,
        InteractorMode::Agressive => InteractorMode::Reactive,
    };
}

/// The message when the player waits a turn.
pub open spec fn stands_text() -> Seq<char> {
    "The player stands around."@
}

/// The move of a direction key.
pub open spec fn key_delta(k: Key) -> Option<(int, int)> {
    match k {
        Key::W | Key::Up => Some((0, -1)),
        Key::S | Key::Down => Some((0, 1)),
        Key::A | Key::Left => Some((-1, 0)),
        Key::D | Key::Right => Some((1, 0)),
        _ => None,
    }
}

/// What the player's key press in game gives: a direction key moves (`spec_move`), `P` picks
/// up, `M` switches the interaction mode, `I` opens the inventory, backspace quits, space
/// waits a turn (with a message); anything else, or no key, waits.
pub open spec fn input_outcome(key: Option<Key>, p: PlayerState, map: TileMap, items: Seq<crate::items::ItemRecord>)
    -> (PlayerResponse, Option<PlayerAction>, bool, Option<Seq<char>>, PlayerState)
{
    match key {
        None => (PlayerResponse::Waiting, None, false, None, p),
        Some(k) => match key_delta(k) {
            Some((dx, dy)) => {
                let (r, a, pos) = spec_move(p, dx, dy, map, items);
                (r, a, false, None, PlayerState { pos, ..p })
            },
            None => match k {
                Key::P => (PlayerResponse::Waiting, spec_pickup(p, map), false, None, p),
                Key::M => (PlayerResponse::Waiting, None, false, None, PlayerState { interactor: Interactor { mode: switched(p.interactor.mode) }, ..p }),
                Key::I => (PlayerResponse::StateChange(AppState::PlayerInInventory), None, false, None, p),
                Key::Back => (PlayerResponse::Waiting, None, true, None, p),
                Key::Space => (PlayerResponse::TurnAdvance, None, false, Some(stands_text()), p),
                _ => (PlayerResponse::Waiting, None, false, None, p),
            },
        },
    }
}

/// Handles the player's key press in game as `input_outcome` says.
pub fn manage_player_input(key: Option<Key>, player: &mut PlayerState, map: &TileMap, items: &ItemWorld) -> (r: PlayerOutcome)
    requires
        move_ok(*old(player), *map),
        key == Some(Key::P) ==> map.spec_in_bounds(old(player).pos.x as int, old(player).pos.y as int),
    ensures
        ({
            let (resp, act, quit, line, p) = input_outcome(key, *old(player), *map, items@);
            &&& r.response == resp
            &&& r.action == act
            &&& r.quit == quit
            &&& (match line { Some(t) => r.line matches Some(l) && l@ == t, None => r.line is None })
            &&& *final(player) == p
        }),
{
    match key {
        None => PlayerOutcome { response: PlayerResponse::Waiting, action: None, quit: false, line: None },
        Some(k) => {
            let (dx, dy): (i32, i32) = match k {
                Key::W | Key::Up => (0, -1),
                Key::S | Key::Down => (0, 1),
                Key::A | Key::Left => (-1, 0),
                Key::D | Key::Right => (1, 0),
                _ => (0, 0),
            };
            if dx != 0 || dy != 0 {
                let (response, action) = try_move_player(dx, dy, player, map, items);
                return PlayerOutcome { response, action, quit: false, line: None };
            }
            match k {
                Key::P => PlayerOutcome { response: PlayerResponse::Waiting, action: try_pickup(player, map), quit: false, line: None },
                Key::M => {
                    switch_interaction_mode(player);
                    PlayerOutcome { response: PlayerResponse::Waiting, action: None, quit: false, line: None }
                },
                Key::I => PlayerOutcome { response: PlayerResponse::StateChange(AppState::PlayerInInventory), action: None, quit: false, line: None },
                Key::Back => PlayerOutcome { response: PlayerResponse::Waiting, action: None, quit: true, line: None },
                Key::Space => {
                    proof { reveal_strlit("The player stands around."); }
                    PlayerOutcome {
                        response: PlayerResponse::TurnAdvance,
                        action: None,
                        quit: false,
                        line: Some(String::from_str("The player stands around.")),
                    }
                },
                _ => PlayerOutcome { response: PlayerResponse::Waiting, action: None, quit: false, line: None },
            }
        },
    }
}

/// Checks if a player entity has a finished activity, so the game can go back in game.
pub fn check_player_activity(players: &Vec<EntityId>, finished: &Vec<EntityId>) -> (r: bool)
    ensures
        r == exists|i: int, j: int| 0 <= i < players@.len() && 0 <= j < finished@.len() && #[trigger] players@[i] == #[trigger] finished@[j],
{
    let mut i: usize = 0;
    while i < players.len()
        invariant
            i <= players@.len(),
            forall|a: int, b: int| 0 <= a < i && 0 <= b < finished@.len() ==> #[trigger] players@[a] != #[trigger] finished@[b],
        decreases players@.len() - i,
    {
        let mut j: usize = 0;
        while j < finished.len()
            invariant
                i < players@.len(),
                j <= finished@.len(),
                forall|b: int| 0 <= b < j ==> players@[i as int] != #[trigger] finished@[b],
            decreases finished@.len() - j,
        {
            if players[i] == finished[j] {
                return true;
            }
            j = j + 1;
        }
        i = i + 1;
    }
    false
}

/// Whether the key press during an activity is the game action (space), which the player
/// entity then gets.
pub fn check_player_activity_input(key: Option<Key>) -> (r: bool)
    ensures
        r == (key == Some(Key::Space)),
{
    match key {
        Some(Key::Space) => true,
        _ => false,
    }
}

/// Switching the interaction mode twice gives back the mode it started from.
pub proof fn lemma_switch_twice(m: InteractorMode)
    ensures
        switched(switched(m)) == m,
{
}

/// The player `p` with the interaction mode `mode`.
pub open spec fn with_mode(p: PlayerState, mode: InteractorMode) -> PlayerState {
    PlayerState { interactor: Interactor { mode }, ..p }
}

/// Moving into a tile whose first entity is breakable breaks that entity and advances the
/// turn, the player staying where it is, in either interaction mode.
pub proof fn lemma_move_into_breakable(
    p: PlayerState,
    dx: int,
    dy: int,
    map: TileMap,
    items: Seq<crate::items::ItemRecord>,
    mode: InteractorMode,
    e: EntityId,
)
    requires
        map.spec_in_bounds(p.pos.x + dx, p.pos.y + dy),
        map.entities_at(p.pos.x + dx, p.pos.y + dy).len() > 0,
        map.entities_at(p.pos.x + dx, p.pos.y + dy)[best_index(map.entities_at(p.pos.x + dx, p.pos.y + dy))]
            == TileEntity::Breakable(e),
    ensures
        spec_move(with_mode(p, mode), dx, dy, map, items)
            == (PlayerResponse::TurnAdvance, Some(PlayerAction::Break(BreakAction { target: e })), p.pos),
{
}

/// The interaction mode only matters where the first entity of the target tile blocks: moving
/// anywhere else gives the same in both modes.
pub proof fn lemma_mode_matters_only_for_blockers(
    p: PlayerState,
    dx: int,
    dy: int,
    map: TileMap,
    items: Seq<crate::items::ItemRecord>,
    m1: InteractorMode,
    m2: InteractorMode,
)
    requires
        !(map.spec_in_bounds(p.pos.x + dx, p.pos.y + dy)
            && map.entities_at(p.pos.x + dx, p.pos.y + dy).len() > 0
            && map.entities_at(p.pos.x + dx, p.pos.y + dy)[best_index(map.entities_at(p.pos.x + dx, p.pos.y + dy))] is Blocking),
    ensures
        spec_move(with_mode(p, m1), dx, dy, map, items) == spec_move(with_mode(p, m2), dx, dy, map, items),
{
}

/// The entry above `m` in the main menu (the first stays).
pub open spec fn menu_up(m: MenuSelection) -> MenuSelection {
    match m {
        MenuSelection::NewGame => MenuSelection::NewGame,
        MenuSelection::LoadGame => MenuSelection::NewGame,
        MenuSelection::Settings => MenuSelection::LoadGame,
        MenuSelection::QuitGame => MenuSelection::Settings,
    }
}

/// The entry below `m` in the main menu (the last stays).
pub open spec fn menu_down(m: MenuSelection) -> MenuSelection {
    match m {
        MenuSelection::NewGame => MenuSelection::LoadGame,
        MenuSelection::LoadGame => MenuSelection::Settings,
        MenuSelection::Settings => MenuSelection::QuitGame,
        MenuSelection::QuitGame => MenuSelection::QuitGame,
    }
}

/// The main menu's reading of a key press while `hovering` is highlighted: up or `W` and down
/// or `S` move the highlight (the hovering it gives), return selects the highlighted entry;
/// anything else, or no key, waits.
pub fn p_input_main_menu(key: Option<Key>, hovering: MenuSelection) -> (r: MenuAction)
    ensures
        r == match key {
            Some(Key::Up) | Some(Key::W) => MenuAction::Hovering(menu_up(hovering)),
            Some(Key::Down) | Some(Key::S) => MenuAction::Hovering(menu_down(hovering)),
            Some(Key::Return) => MenuAction::Selected(hovering),
            _ => MenuAction::Waiting,
        },
{
    match key {
        Some(Key::Up) | Some(Key::W) => MenuAction::Hovering(match hovering {
            MenuSelection::NewGame => MenuSelection::NewGame,
            MenuSelection::LoadGame => MenuSelection::NewGame,
            MenuSelection::Settings => MenuSelection::LoadGame,
            MenuSelection::QuitGame => MenuSelection::Settings,
        }),
        Some(Key::Down) | Some(Key::S) => MenuAction::Hovering(match hovering {
            MenuSelection::NewGame => MenuSelection::LoadGame,
            MenuSelection::LoadGame => MenuSelection::Settings,
            MenuSelection::Settings => MenuSelection::QuitGame,
            MenuSelection::QuitGame => MenuSelection::QuitGame,
        }),
        Some(Key::Return) => MenuAction::Selected(hovering),
        _ => MenuAction::Waiting,
    }
}

/// The settings menu's reading of a key press: return selects the highlighted setting, escape
/// goes back to the main menu; anything else, or no key, waits.
pub fn p_input_settings(key: Option<Key>) -> (r: crate::settings::SettingsAction)
    ensures
        r == match key {
            Some(Key::Return) => crate::settings::SettingsAction::Selected,
            Some(Key::Escape) => crate::settings::SettingsAction::ReturnToMainMenu,
            _ => crate::settings::SettingsAction::Waiting,
        },
{
    match key {
        Some(Key::Return) => crate::settings::SettingsAction::Selected,
        Some(Key::Escape) => crate::settings::SettingsAction::ReturnToMainMenu,
        _ => crate::settings::SettingsAction::Waiting,
    }
}

/// The save menu's reading of a key press, as the menu shows its keys: `S` saves, `D` quits
/// without saving, escape cancels, `Q` saves and plays on; anything else, or no key, waits.
pub fn p_input_save_game(key: Option<Key>) -> (r: crate::saveload::SaveAction)
    ensures
        r == match key {
            Some(Key::S) => crate::saveload::SaveAction::Save,
            Some(Key::D) => crate::saveload::SaveAction::QuitWithoutSaving,
            Some(Key::Escape) => crate::saveload::SaveAction::Cancel,
            Some(Key::Q) => crate::saveload::SaveAction::QuickSave,
            _ => crate::saveload::SaveAction::Waiting,
        },
{
    match key {
        Some(Key::S) => crate::saveload::SaveAction::Save,
        Some(Key::D) => crate::saveload::SaveAction::QuitWithoutSaving,
        Some(Key::Escape) => crate::saveload::SaveAction::Cancel,
        Some(Key::Q) => crate::saveload::SaveAction::QuickSave,
        _ => crate::saveload::SaveAction::Waiting,
    }
}

} // verus!
