use rust_rpg::app_state::{
    run_exit_state_systems, run_pre_state_systems, tick, tick_prelude, AppState, FrameState, Sound, TickEvent, TickStep,
    TurnCounter,
};
use rust_rpg::camera::{get_camera_bounds, mouse_to_map_pos, Rect};
use rust_rpg::components::{AttackAction, BreakAction, EntityId, FishAction, InBag, Item, Position};
use rust_rpg::config::{ConfigMaster, InventoryConfig, SortMode};
use rust_rpg::data_read::items::ItemDatabase;
use rust_rpg::inventory::{
    check_inventory_selection, handle_one_item_actions, handle_two_item_actions, item_at, p_input_inventory,
    InventoryResponse, SelectedInventoryItem, SelectionStatus, UseMenuResult,
};
use rust_rpg::items::{ItemEntity, ItemID, ItemInfo, ItemQty, ItemWorld};
use rust_rpg::layout::{CL_INTERACTABLES, FONT_INTERACTABLES, FONT_INTERACTABLES_OUTLINE};
use rust_rpg::map::{TileEntity, TileMap};
use rust_rpg::player::{
    check_player_activity, check_player_activity_input, manage_player_input, try_move_player, Interactor,
    InteractorMode, Key, MenuAction, MenuSelection, PlayerAction, PlayerResponse, PlayerState,
};
use rust_rpg::saveload::{p_input_load_game_menu, LoadMenuAction, SaveAction};
use rust_rpg::settings::{handle_setting_selected, FontChange, SettingsAction, SettingsConfig, SettingsSelection, SpriteMode, TextFonts};

fn ent(id: u32) -> EntityId {
    EntityId { id, gen: 1 }
}

fn bag_item(e: u32, id: usize, qty: usize, owner: u32, name: &str) -> ItemEntity {
    ItemEntity {
        entity: ent(e),
        item: Item::new(ItemID(id), ItemQty(qty)),
        in_bag: Some(InBag { owner: ent(owner) }),
        position: None,
        name: name.to_string(),
    }
}

fn put(map: &mut TileMap, x: usize, y: usize, te: TileEntity) {
    let idx = map.xy_to_idx(x, y);
    map.tile_entities[idx].push(te);
}

fn player_at(x: usize, y: usize, mode: InteractorMode) -> PlayerState {
    PlayerState { entity: ent(1), pos: Position::new(x, y), interactor: Interactor { mode } }
}

#[test]
fn inventory_lists_by_name_then_by_id() {
    let world = ItemWorld {
        items: vec![
            bag_item(10, 5, 1, 1, "Rope"),
            bag_item(11, 2, 1, 1, "Axe"),
            bag_item(12, 9, 1, 2, "Apple"),
            bag_item(13, 1, 1, 1, "Stick"),
        ],
    };
    assert_eq!(item_at(&world, ent(1), SortMode::NameABC, 0), Some(ent(11)));
    assert_eq!(item_at(&world, ent(1), SortMode::NameABC, 1), Some(ent(10)));
    assert_eq!(item_at(&world, ent(1), SortMode::NameABC, 2), Some(ent(13)));
    assert_eq!(item_at(&world, ent(1), SortMode::NameABC, 3), None);
    assert_eq!(item_at(&world, ent(1), SortMode::IDAsc, 0), Some(ent(13)));
    assert_eq!(item_at(&world, ent(1), SortMode::IDAsc, 2), Some(ent(10)));
}

#[test]
fn inventory_keys_select_act_and_exit() {
    let world = ItemWorld { items: vec![bag_item(10, 5, 1, 1, "Rope"), bag_item(11, 2, 1, 1, "Axe")] };
    let mut cfg = InventoryConfig { sort_mode: SortMode::NameABC };
    let mut sel: Option<SelectedInventoryItem> = None;
    let (r, line) = p_input_inventory(Some(Key::Key2), ent(1), &mut sel, &world, &mut cfg);
    assert!(matches!(r, InventoryResponse::Waiting));
    assert!(line.is_none());
    assert_eq!(sel, Some(SelectedInventoryItem { first_item: ent(10), intended_action: None }));
    assert_eq!(check_inventory_selection(&sel), SelectionStatus::SelectionWithoutAction);
    let (r, _) = p_input_inventory(Some(Key::D), ent(1), &mut sel, &world, &mut cfg);
    assert!(matches!(r, InventoryResponse::ActionReady));
    assert_eq!(sel.unwrap().intended_action, Some(UseMenuResult::Drop));
    let (r, _) = p_input_inventory(Some(Key::Escape), ent(1), &mut sel, &world, &mut cfg);
    assert!(matches!(r, InventoryResponse::StateChange(AppState::InGame)));
    assert_eq!(sel, None);
}

#[test]
fn inventory_out_of_range_key_logs_and_sort_key_rotates() {
    let world = ItemWorld { items: vec![bag_item(10, 5, 1, 1, "Rope")] };
    let mut cfg = InventoryConfig { sort_mode: SortMode::NameABC };
    let mut sel: Option<SelectedInventoryItem> = None;
    let (_, line) = p_input_inventory(Some(Key::Key9), ent(1), &mut sel, &world, &mut cfg);
    assert_eq!(line, Some("Index selected is out of bounds of the backapack.".to_string()));
    assert_eq!(sel, None);
    p_input_inventory(Some(Key::S), ent(1), &mut sel, &world, &mut cfg);
    assert_eq!(cfg.sort_mode, SortMode::IDAsc);
    p_input_inventory(Some(Key::S), ent(1), &mut sel, &world, &mut cfg);
    assert_eq!(cfg.sort_mode, SortMode::NameABC);
}

#[test]
fn craft_choice_waits_for_second_item() {
    let world = ItemWorld { items: vec![bag_item(10, 5, 1, 1, "Rope"), bag_item(11, 2, 1, 1, "Axe")] };
    let mut cfg = InventoryConfig { sort_mode: SortMode::NameABC };
    let mut sel = Some(SelectedInventoryItem { first_item: ent(10), intended_action: None });
    let (r, _) = p_input_inventory(Some(Key::U), ent(1), &mut sel, &world, &mut cfg);
    assert!(matches!(r, InventoryResponse::Waiting));
    let (r, _) = p_input_inventory(Some(Key::Key1), ent(1), &mut sel, &world, &mut cfg);
    match r {
        InventoryResponse::SecondItemSelected { second_item } => assert_eq!(second_item, ent(11)),
        _ => panic!("expected a second item"),
    }
    assert_eq!(handle_two_item_actions(&mut sel, ent(10)), None);
    assert!(sel.is_some());
    let craft = handle_two_item_actions(&mut sel, ent(11)).unwrap();
    assert_eq!(craft.first_item, ent(10));
    assert_eq!(craft.second_item, ent(11));
    assert!(sel.is_none());
}

fn db() -> ItemDatabase {
    ItemDatabase {
        data: vec![ItemInfo {
            identifier: ItemID(5),
            name: "Rope".to_string(),
            examine_text: "A coil of rope.".to_string(),
            atlas_index: 0,
            fg: (0, 0, 0),
            pickup_text: None,
            equipable: None,
            attack_bonus: None,
        }],
    }
}

#[test]
fn dropping_merges_with_a_ground_stack() {
    let here = Position::new(3, 3);
    let mut world = ItemWorld {
        items: vec![
            bag_item(10, 5, 2, 1, "Rope"),
            ItemEntity { entity: ent(20), item: Item::new(ItemID(5), ItemQty(4)), in_bag: None, position: Some(here), name: "Rope".to_string() },
        ],
    };
    let mut sel = Some(SelectedInventoryItem { first_item: ent(10), intended_action: Some(UseMenuResult::Drop) });
    let out = handle_one_item_actions(ent(1), &mut sel, &mut world, Some(here), &db());
    assert_eq!(out.lines.len(), 1);
    assert_eq!(out.lines[0].text, "Dropped it");
    assert_eq!(world.items[0].in_bag, None);
    assert_eq!(world.items[1].item.qty, ItemQty(6));
    assert!(sel.is_none());
}

#[test]
fn dropping_alone_lies_at_the_players_feet() {
    let here = Position::new(3, 3);
    let mut world = ItemWorld { items: vec![bag_item(10, 5, 2, 1, "Rope")] };
    let mut sel = Some(SelectedInventoryItem { first_item: ent(10), intended_action: Some(UseMenuResult::Drop) });
    handle_one_item_actions(ent(1), &mut sel, &mut world, Some(here), &db());
    assert_eq!(world.items[0].in_bag, None);
    assert_eq!(world.items[0].position, Some(here));
}

#[test]
fn examining_logs_the_examine_text() {
    let mut world = ItemWorld { items: vec![bag_item(10, 5, 2, 1, "Rope"), bag_item(11, 8, 1, 1, "Odd")] };
    let mut sel = Some(SelectedInventoryItem { first_item: ent(10), intended_action: Some(UseMenuResult::Examine) });
    let out = handle_one_item_actions(ent(1), &mut sel, &mut world, None, &db());
    assert_eq!(out.lines[0].text, "A coil of rope.");
    let mut sel = Some(SelectedInventoryItem { first_item: ent(11), intended_action: Some(UseMenuResult::Examine) });
    let out = handle_one_item_actions(ent(1), &mut sel, &mut world, None, &db());
    assert_eq!(out.lines[0].text, "Could not find item with id: 8");
    let mut sel = Some(SelectedInventoryItem { first_item: EntityId { id: 42, gen: -3 }, intended_action: Some(UseMenuResult::Examine) });
    let out = handle_one_item_actions(ent(1), &mut sel, &mut world, None, &db());
    assert_eq!(out.lines[0].text, "Couldn't examine entity: Entity(42, Generation(-3))");
}

#[test]
fn equip_and_consume_choices_become_actions() {
    let mut world = ItemWorld { items: vec![bag_item(10, 5, 2, 1, "Rope")] };
    let mut sel = Some(SelectedInventoryItem { first_item: ent(10), intended_action: Some(UseMenuResult::Equip) });
    let out = handle_one_item_actions(ent(1), &mut sel, &mut world, None, &db());
    assert_eq!(out.equip.unwrap().item, ent(10));
    let mut sel = Some(SelectedInventoryItem { first_item: ent(10), intended_action: Some(UseMenuResult::Consume) });
    let out = handle_one_item_actions(ent(1), &mut sel, &mut world, None, &db());
    assert_eq!(out.consume.unwrap().item, ent(10));
    assert!(out.equip.is_none());
}

#[test]
fn moving_onto_free_or_item_tiles_moves_the_player() {
    let mut map = TileMap::new(10, 10, (0, 0));
    put(&mut map, 3, 2, TileEntity::Item(ent(50)));
    let world = ItemWorld { items: vec![] };
    let mut p = player_at(2, 2, InteractorMode::Reactive);
    let (r, a) = try_move_player(1, 0, &mut p, &map, &world);
    assert!(matches!(r, PlayerResponse::TurnAdvance));
    assert!(a.is_none());
    assert_eq!(p.pos, Position::new(3, 2));
    let mut edge = player_at(0, 0, InteractorMode::Reactive);
    let (r, _) = try_move_player(-1, 0, &mut edge, &map, &world);
    assert!(matches!(r, PlayerResponse::Waiting));
    assert_eq!(edge.pos, Position::new(0, 0));
}

#[test]
fn moving_into_things_attacks_breaks_or_fishes() {
    let mut map = TileMap::new(10, 10, (0, 0));
    put(&mut map, 3, 2, TileEntity::Blocking(ent(60)));
    put(&mut map, 2, 3, TileEntity::Breakable(ent(61)));
    put(&mut map, 1, 2, TileEntity::Fishable(ent(62)));
    let no_rod = ItemWorld { items: vec![] };
    let rod = ItemWorld { items: vec![bag_item(70, 5, 1, 1, "Fishing Rod")] };
    let mut p = player_at(2, 2, InteractorMode::Reactive);
    assert!(matches!(try_move_player(1, 0, &mut p, &map, &no_rod).0, PlayerResponse::Waiting));
    let mut p = player_at(2, 2, InteractorMode::Agressive);
    let (r, a) = try_move_player(1, 0, &mut p, &map, &no_rod);
    assert!(matches!(r, PlayerResponse::TurnAdvance));
    assert_eq!(a, Some(PlayerAction::Attack(AttackAction { target: ent(60) })));
    let (_, a) = try_move_player(0, 1, &mut p, &map, &no_rod);
    assert_eq!(a, Some(PlayerAction::Break(BreakAction { target: ent(61) })));
    let (r, a) = try_move_player(-1, 0, &mut p, &map, &no_rod);
    assert!(matches!(r, PlayerResponse::Waiting));
    assert!(a.is_none());
    let (r, a) = try_move_player(-1, 0, &mut p, &map, &rod);
    assert!(matches!(r, PlayerResponse::StateChange(AppState::ActivityBound { response_delay: 0 })));
    assert_eq!(a, Some(PlayerAction::Fish(FishAction { target: Position::new(1, 2) })));
    assert_eq!(p.pos, Position::new(2, 2));
}

#[test]
fn keys_in_game() {
    let map = TileMap::new(10, 10, (0, 0));
    let world = ItemWorld { items: vec![] };
    let mut p = player_at(2, 2, InteractorMode::Reactive);
    let out = manage_player_input(Some(Key::Space), &mut p, &map, &world);
    assert!(matches!(out.response, PlayerResponse::TurnAdvance));
    assert_eq!(out.line, Some("The player stands around.".to_string()));
    let out = manage_player_input(Some(Key::M), &mut p, &map, &world);
    assert!(matches!(out.response, PlayerResponse::Waiting));
    assert_eq!(p.interactor.mode, InteractorMode::Agressive);
    let out = manage_player_input(Some(Key::I), &mut p, &map, &world);
    assert!(matches!(out.response, PlayerResponse::StateChange(AppState::PlayerInInventory)));
    let out = manage_player_input(Some(Key::Back), &mut p, &map, &world);
    assert!(out.quit);
    let out = manage_player_input(Some(Key::Up), &mut p, &map, &world);
    assert!(matches!(out.response, PlayerResponse::TurnAdvance));
    assert_eq!(p.pos, Position::new(2, 1));
    let out = manage_player_input(None, &mut p, &map, &world);
    assert!(matches!(out.response, PlayerResponse::Waiting));
}

#[test]
fn pickup_key_targets_the_first_item_underfoot() {
    let mut map = TileMap::new(10, 10, (0, 0));
    put(&mut map, 2, 2, TileEntity::Blocking(ent(5)));
    put(&mut map, 2, 2, TileEntity::Item(ent(6)));
    put(&mut map, 2, 2, TileEntity::Item(ent(7)));
    let world = ItemWorld { items: vec![] };
    let mut p = player_at(2, 2, InteractorMode::Reactive);
    let out = manage_player_input(Some(Key::P), &mut p, &map, &world);
    assert!(matches!(out.response, PlayerResponse::Waiting));
    assert_eq!(out.action, Some(PlayerAction::Pickup(rust_rpg::components::PickupAction { item: ent(6) })));
}

#[test]
fn activity_checks() {
    assert!(check_player_activity(&vec![ent(1)], &vec![ent(3), ent(1)]));
    assert!(!check_player_activity(&vec![ent(1)], &vec![ent(3)]));
    assert!(check_player_activity_input(Some(Key::Space)));
    assert!(!check_player_activity_input(Some(Key::A)));
    assert!(!check_player_activity_input(None));
}

#[test]
fn main_menu_new_game_starts_a_game() {
    let current = AppState::MainMenu { hovering: MenuSelection::NewGame };
    assert_eq!(tick_prelude(&current), vec![TickStep::UpdateAnimationTimers]);
    let plan = tick(&current, TickEvent::Menu(MenuAction::Selected(MenuSelection::NewGame), false));
    assert!(matches!(plan.next, AppState::NewGameStart));
    assert_eq!(
        plan.steps,
        vec![
            TickStep::PlaySound(Sound::Confirm),
            TickStep::UpdateFancyPositions,
            TickStep::UpdateDeltaTime,
            TickStep::Maintain,
            TickStep::DrawUi,
            TickStep::Render,
            TickStep::ClearAnimations,
        ]
    );
}

#[test]
fn main_menu_load_without_save_stays() {
    let current = AppState::MainMenu { hovering: MenuSelection::LoadGame };
    let plan = tick(&current, TickEvent::Menu(MenuAction::Selected(MenuSelection::LoadGame), false));
    assert!(matches!(plan.next, AppState::MainMenu { hovering: MenuSelection::NewGame }));
    assert!(!plan.steps.contains(&TickStep::ClearAnimations));
    let plan = tick(&current, TickEvent::Menu(MenuAction::Hovering(MenuSelection::Settings), true));
    assert!(matches!(plan.next, AppState::MainMenu { hovering: MenuSelection::Settings }));
    assert_eq!(plan.steps[0], TickStep::PlaySound(Sound::UiMove));
}

#[test]
fn in_game_turns_and_state_changes() {
    let current = AppState::InGame;
    let plan = tick(&current, TickEvent::Game(PlayerResponse::TurnAdvance));
    assert!(matches!(plan.next, AppState::InGame));
    assert_eq!(
        plan.steps[..4].to_vec(),
        vec![TickStep::IncrementTurn, TickStep::RunResponseSystems, TickStep::RunIngameSystems, TickStep::RunEofSystems]
    );
    assert_eq!(plan.steps[plan.steps.len() - 3..].to_vec(), vec![TickStep::DrawSpriteLayers, TickStep::DebugInfo, TickStep::DebugInput]);
    let plan = tick(&current, TickEvent::Game(PlayerResponse::StateChange(AppState::PlayerInInventory)));
    assert!(matches!(plan.next, AppState::PlayerInInventory));
}

#[test]
fn activity_ends_when_finished() {
    let current = AppState::ActivityBound { response_delay: 5 };
    assert_eq!(tick_prelude(&current), vec![TickStep::ReadActivityInput, TickStep::RunActivityBoundSystems]);
    let plan = tick(&current, TickEvent::Activity(true));
    assert!(matches!(plan.next, AppState::InGame));
    assert_eq!(plan.steps[0], TickStep::IncrementTurn);
    let plan = tick(&current, TickEvent::Activity(false));
    assert!(matches!(plan.next, AppState::ActivityBound { response_delay: 5 }));
}

#[test]
fn save_menu_and_pre_run() {
    let plan = tick(&AppState::SaveGame, TickEvent::Save(SaveAction::QuickSave));
    assert_eq!(plan.steps[..2].to_vec(), vec![TickStep::SaveGame, TickStep::LogSaved]);
    let next = plan.next;
    match &next {
        AppState::PreRun { next_state } => assert!(matches!(**next_state, AppState::InGame)),
        _ => panic!("expected a pre run state"),
    }
    let plan = tick(&next, TickEvent::Nothing);
    assert!(matches!(plan.next, AppState::InGame));
    let to_menu = AppState::PreRun { next_state: Box::new(AppState::MainMenu { hovering: MenuSelection::Settings }) };
    let plan = tick(&to_menu, TickEvent::Nothing);
    assert_eq!(plan.steps[0], TickStep::PlayMainMenuIntro);
    assert!(matches!(plan.next, AppState::MainMenu { hovering: MenuSelection::Settings }));
    let plan = tick(&AppState::SettingsMenu { hovering: SettingsSelection::SpriteMode }, TickEvent::Settings(SettingsAction::ReturnToMainMenu));
    assert_eq!(plan.steps[0], TickStep::SaveSettings);
}

#[test]
fn pre_and_exit_systems_and_frame_state() {
    let menu = AppState::MainMenu { hovering: MenuSelection::NewGame };
    assert_eq!(run_pre_state_systems(&menu), vec![TickStep::PlayMainMenuIntro]);
    assert_eq!(run_exit_state_systems(&menu), vec![TickStep::ClearAnimations]);
    assert!(run_exit_state_systems(&AppState::InGame).is_empty());
    let mut frame = FrameState::new(&menu);
    assert!(!frame.will_change());
    frame.change_to(AppState::MainMenu { hovering: MenuSelection::QuitGame });
    assert!(!frame.will_change());
    frame.change_to(AppState::InGame);
    assert!(frame.will_change());
    let mut tc = TurnCounter::zero();
    tc.incr();
    tc.incr();
    assert_eq!(tc.0, 2);
    assert!(matches!(AppState::activity_bound(), AppState::ActivityBound { response_delay: 0 }));
}

#[test]
fn config_and_settings_defaults_and_toggles() {
    let cfg = ConfigMaster::default();
    assert_eq!(cfg.inventory.sort_mode, SortMode::NameABC);
    assert_eq!(SortMode::NameABC.to_string(), "ABC");
    assert_eq!(SortMode::IDAsc.to_string(), "ID+");
    assert_eq!(SortMode::_Category.to_string(), "UNK");
    let mut inv = InventoryConfig { sort_mode: SortMode::_IDDesc };
    inv.rotate_sort_mode();
    assert_eq!(inv.sort_mode, SortMode::NameABC);
    let mut s = SettingsConfig::default();
    assert_eq!(s.sprite_mode, SpriteMode::Outline);
    assert_eq!(s.text_font, TextFonts::Zaratustra);
    let change = handle_setting_selected(&SettingsSelection::SpriteMode, &mut s);
    assert_eq!(s.sprite_mode, SpriteMode::Blocked);
    assert_eq!(change, FontChange { console: CL_INTERACTABLES, font: FONT_INTERACTABLES });
    let change = handle_setting_selected(&SettingsSelection::SpriteMode, &mut s);
    assert_eq!(s.sprite_mode, SpriteMode::Outline);
    assert_eq!(change.font, FONT_INTERACTABLES_OUTLINE);
}

#[test]
fn camera_follows_the_player() {
    assert_eq!(get_camera_bounds(Some(Position::new(20, 15))), Rect { x1: 7, y1: 2, x2: 47, y2: 32 });
    assert_eq!(get_camera_bounds(None), Rect { x1: 13, y1: 13, x2: 66, y2: 56 });
    let map = TileMap::new(30, 30, (0, 0));
    assert_eq!(mouse_to_map_pos(&(3, 4), Some(Position::new(20, 15)), &map), Some(Position::new(10, 6)));
    assert_eq!(mouse_to_map_pos(&(30, 4), Some(Position::new(20, 15)), &map), None);
}

#[test]
fn load_menu_keys() {
    assert_eq!(p_input_load_game_menu(Some(Key::S)), LoadMenuAction::MoveDown);
    assert_eq!(p_input_load_game_menu(Some(Key::Up)), LoadMenuAction::MoveUp);
    assert_eq!(p_input_load_game_menu(Some(Key::Return)), LoadMenuAction::Select);
    assert_eq!(p_input_load_game_menu(Some(Key::Escape)), LoadMenuAction::Back);
    assert_eq!(p_input_load_game_menu(Some(Key::Q)), LoadMenuAction::Waiting);
    assert_eq!(p_input_load_game_menu(None), LoadMenuAction::Waiting);
}
