use std::hash::{BuildHasher, BuildHasherDefault, DefaultHasher};

use rust_rpg::animation::{
    ActivityFinishSystem, AnimationPlay, DeleteCondition, RunningAnimation, TileAnimationCleanUpSystem,
    UpdateAnimationTimers,
};
use rust_rpg::being::{
    check_monster_delay,
    AIDefinition, Being, BeingID, GoalFindEntities, GoalMoveToEntities, GoalMoverAI, GoalSearch, GoalStep,
    HandleMoveActions, RandomMonsterMovementSystem, WalkStep,
};
use rust_rpg::components::{EntityId, MoveAction, Point, Position};
use rust_rpg::data_read::beings::{build_being, AiPlan, BeingDatabase, RawBeing, RawDrops, RawLoot};
use rust_rpg::data_read::items::{RawItemDatabase, RawItemInfo};
use rust_rpg::data_read::recipes::{RawIngredient, RawRecipe};
use rust_rpg::data_read::world_objs::{RawHealthStats, RawWorldObject};
use rust_rpg::data_read::{check_raw_data, initialize_game_databases};
use rust_rpg::droptables::DropQty;
use rust_rpg::items::ItemID;
use rust_rpg::data_read::levels::{create_map, LevelDesign, LevelSpawn, LevelTile};
use rust_rpg::drawsprites::xy_to_idx;
use rust_rpg::game_init::{new_player, starting_beings};
use rust_rpg::indexing::{IndexBlockedTiles, IndexFishableTiles, IndexReset};
use rust_rpg::layout::{FONT_TERRAIN_FOREST, FONT_TERRAIN_TOWN_FOREST};
use rust_rpg::map::{successors, TileEntity, TileMap};
use rust_rpg::map_gen::{chunk_if, ChunkType, GameWorld, InputWorldConfig, WorldConfig};
use rust_rpg::message_log::{Message, MessageLog, MessageType};
use rust_rpg::stats::{get_random_stats, EntityStatsBuilder, Stats};
use rust_rpg::store::{find_key, maybe_insert, store_insert, store_remove};
use rust_rpg::text::{decimal_text, parse_unsigned_bounded, signed_decimal_text, str_lt};

fn ent(id: u32) -> EntityId {
    EntityId { id, gen: 1 }
}

#[test]
fn decimal_text_and_parsing_round_trip() {
    assert_eq!(decimal_text(0), "0");
    assert_eq!(decimal_text(1234), "1234");
    for n in [0usize, 7, 10, 255, 99999] {
        assert_eq!(parse_unsigned_bounded(&decimal_text(n), u64::MAX), Some(n as u64));
    }
    assert_eq!(signed_decimal_text(-5), "-5");
    assert_eq!(signed_decimal_text(i32::MIN), "-2147483648");
}

#[test]
fn parsing_follows_unsigned_from_str() {
    assert_eq!(parse_unsigned_bounded("+42", 100), Some(42));
    assert_eq!(parse_unsigned_bounded("", 100), None);
    assert_eq!(parse_unsigned_bounded("+", 100), None);
    assert_eq!(parse_unsigned_bounded("-1", 100), None);
    assert_eq!(parse_unsigned_bounded("12a", 100), None);
    assert_eq!(parse_unsigned_bounded("256", 255), None);
    assert_eq!(parse_unsigned_bounded("255", 255), Some(255));
    for s in ["0", "+7", "255", "256", "", "x"] {
        assert_eq!(parse_unsigned_bounded(s, 255).map(|v| v as u8), s.parse::<u8>().ok());
    }
}

#[test]
fn text_order_is_lexicographic() {
    assert!(str_lt("apple", "banana"));
    assert!(!str_lt("banana", "apple"));
    assert!(str_lt("ab", "abc"));
    assert!(!str_lt("abc", "abc"));
    assert!(str_lt("Zed", "apple"));
}

#[test]
fn message_log_counts_repeats() {
    let mut log = MessageLog::new();
    assert_eq!(log.messages.len(), 1);
    assert_eq!(log.messages[0].contents, "Welcome to the world of rust_rpg!");
    log.log("hello");
    log.log("hello");
    log.enhance("hello");
    assert_eq!(log.messages.len(), 3);
    assert_eq!(log.messages[1].repeated(), 2);
    assert_eq!(log.messages[1].colored(), "#[lightgray]hello#[] x2");
    assert_eq!(log.messages[2].colored(), "#[white]hello#[]");
    let recent = log.nth_recent(2);
    assert_eq!(recent.len(), 2);
    assert_eq!(recent[0].kind, MessageType::FLAVOR);
    assert_eq!(recent[1].kind, MessageType::INFO);
    let m = Message::new("debug me".to_string(), MessageType::DEBUG);
    assert_eq!(m.colored(), "#[orange]debug me#[]");
    assert_eq!(m.to_string(), "debug me");
}

fn form(name: &str, width: &str, height: &str, sea: &str, seed: &str) -> InputWorldConfig {
    InputWorldConfig {
        world_name: name.to_string(),
        width: width.to_string(),
        height: height.to_string(),
        sea_level: sea.to_string(),
        seed: seed.to_string(),
    }
}

#[test]
fn world_config_reads_the_form() {
    let c = WorldConfig::try_from(&form("Isle", "64", "+32", "40", ""), false).ok().unwrap();
    assert_eq!(c.world_name, "Isle");
    assert_eq!(c.width, 64);
    assert_eq!(c.height, 32);
    assert_eq!(c.sea_level, 40);
    assert_eq!(c.seed, 0);
    let seeded = WorldConfig::try_from(&form("Isle", "1", "1", "1", "abc"), false).ok().unwrap();
    let expected = BuildHasherDefault::<DefaultHasher>::default().hash_one(&"abc".to_string());
    assert_eq!(seeded.seed, expected);
    assert_ne!(seeded.seed, 0);
}

#[test]
fn world_config_reports_every_error_in_order() {
    let errs = WorldConfig::try_from(&form("", "wide", "-3", "300", ""), true).err().unwrap();
    assert_eq!(
        errs,
        vec![
            "World name cannot be empty".to_string(),
            "World name already exists".to_string(),
            "Invalid sea_level must be 0 - 255".to_string(),
            "Invalid height".to_string(),
            "Invalid width".to_string(),
        ]
    );
    let d = WorldConfig::default();
    assert_eq!((d.width, d.height, d.sea_level, d.seed), (100, 100, 33, 0));
}

#[test]
fn game_world_starts_as_water() {
    let mut c = WorldConfig::default();
    c.width = 3;
    c.height = 2;
    let mut gw = GameWorld::new(c);
    assert_eq!(gw.grid.len(), 6);
    assert!(gw.generated.is_empty());
    assert_eq!(chunk_if(&gw, 1, 1, ChunkType::Water), Some(4));
    assert_eq!(chunk_if(&gw, 1, 1, ChunkType::Land), None);
    gw.grid[4].chunk_type = ChunkType::Land;
    assert_eq!(chunk_if(&gw, 1, 1, ChunkType::Land), Some(4));
}

#[test]
fn level_design_builds_map_and_spawns() {
    let tile = |atlas: usize, name: Option<&str>, tag: Option<&str>, value: usize| LevelTile {
        atlas_index: atlas,
        entity_name: name.map(|s| s.to_string()),
        entity_tag: tag.map(|s| s.to_string()),
        value,
    };
    let level = LevelDesign {
        width: 2,
        height: 2,
        world_xy: (10, 20),
        tileset_name: "Terrain_Town_Forest".to_string(),
        tiles: vec![
            tile(7, Some("Stick"), Some("Item"), 0),
            tile(8, None, None, 1),
            tile(9, Some("Goat"), Some("Being"), 2),
            tile(3, Some("Odd"), Some("Thing"), 5),
        ],
    };
    let (map, spawns) = create_map(&level);
    assert_eq!(map.tile_atlas_index, FONT_TERRAIN_TOWN_FOREST);
    assert_eq!(map.world_coords, Position::new(10, 20));
    assert_eq!(map.tiles.iter().map(|t| t.atlas_index).collect::<Vec<_>>(), vec![7, 8, 9, 3]);
    assert_eq!(spawns.len(), 6);
    assert!(matches!(&spawns[0], LevelSpawn::Item(n, p) if n == "Stick" && *p == Position::new(0, 0)));
    assert!(matches!(&spawns[1], LevelSpawn::Blocker(p) if *p == Position::new(1, 0)));
    assert!(matches!(&spawns[2], LevelSpawn::Being(n, p) if n == "Goat" && *p == Position::new(0, 1)));
    assert!(matches!(&spawns[3], LevelSpawn::Water(p) if *p == Position::new(0, 1)));
    assert!(matches!(&spawns[4], LevelSpawn::InvalidTag(n, t) if n == "Odd" && t == "Thing"));
    assert!(matches!(&spawns[5], LevelSpawn::InvalidValue(3)));
    let plain = LevelDesign { width: 1, height: 1, world_xy: (0, 0), tileset_name: "whatever".to_string(), tiles: vec![] };
    assert_eq!(create_map(&plain).0.tile_atlas_index, FONT_TERRAIN_FOREST);
}

fn goat() -> Being {
    Being {
        identifier: BeingID(2),
        name: "Greg Goat".to_string(),
        ai: Some(AIDefinition { start_mode: "goal".to_string(), goals: Some(vec!["Grass".to_string()]), goal_range: Some(6) }),
        is_blocking: true,
        atlas_index: 1,
        fg: (1, 2, 3),
        quips: Some(vec!["Bah".to_string()]),
        stats: Stats { intelligence: 1, strength: 2, dexterity: 3, vitality: 9, precision: 4, charisma: 5 },
        loot: None,
    }
}

#[test]
fn building_a_being_gives_its_parts() {
    let db = BeingDatabase { data: vec![goat()] };
    let plan = build_being(&db, "Greg Goat").ok().unwrap();
    assert_eq!(plan.identifier, BeingID(2));
    assert!(plan.blocking);
    assert_eq!(plan.health.hp, 19);
    assert_eq!(plan.health.defense, 6);
    match plan.ai {
        AiPlan::Goal { desires, range } => {
            assert_eq!(desires, vec!["Grass".to_string()]);
            assert_eq!(range, 6);
        },
        _ => panic!("expected a goal seeker"),
    }
    assert!(build_being(&db, "Nobody").is_err());
    assert_eq!(rust_rpg::being::say_random_quip(&db, "Greg Goat"), Some("Bah".to_string()));
}

#[test]
fn goal_seekers_pick_the_closest_desired_entity() {
    let ai = GoalMoverAI::with_desires(&vec!["Grass".to_string()], 5);
    let cands = vec![
        (ent(1), "Grass".to_string(), Position::new(9, 9)),
        (ent(2), "Grass".to_string(), Position::new(3, 2)),
        (ent(3), "Rock".to_string(), Position::new(2, 2)),
        (ent(4), "Grass".to_string(), Position::new(2, 4)),
    ];
    assert_eq!(GoalFindEntities::decide(ent(0), Position::new(2, 2), &ai, &cands), GoalSearch::Found(Some(ent(2))));
    let none = vec![(ent(3), "Rock".to_string(), Position::new(2, 2))];
    assert_eq!(GoalFindEntities::decide(ent(0), Position::new(2, 2), &ai, &none), GoalSearch::NoGoals);
    let far = vec![(ent(1), "Grass".to_string(), Position::new(9, 9))];
    assert_eq!(GoalFindEntities::decide(ent(0), Position::new(2, 2), &ai, &far), GoalSearch::Found(None));
}

#[test]
fn goal_movers_step_along_a_shortest_walk() {
    let mut map = TileMap::new(5, 3, (0, 0));
    for y in 0..2 {
        let idx = map.xy_to_idx(2, y);
        map.tile_entities[idx].push(TileEntity::Blocking(ent(90)));
    }
    let step = GoalMoveToEntities::decide(&map, Position::new(0, 0), Some(ent(7)), Some(Position::new(4, 0)));
    match step {
        GoalStep::MoveTo(p) => assert!(p == Position::new(0, 1) || p == Position::new(1, 0)),
        other => panic!("unexpected {:?}", other),
    }
    assert_eq!(GoalMoveToEntities::decide(&map, Position::new(0, 0), Some(ent(7)), Some(Position::new(1, 0))), GoalStep::Attack(ent(7)));
    assert_eq!(GoalMoveToEntities::decide(&map, Position::new(0, 0), None, None), GoalStep::Idle);
    assert_eq!(GoalMoveToEntities::decide(&map, Position::new(0, 0), Some(ent(7)), None), GoalStep::Forget);
    for y in 2..3 {
        let idx = map.xy_to_idx(2, y);
        map.tile_entities[idx].push(TileEntity::Blocking(ent(91)));
    }
    assert_eq!(GoalMoveToEntities::decide(&map, Position::new(0, 0), Some(ent(7)), Some(Position::new(4, 0))), GoalStep::NoPath);
}

#[test]
fn successors_and_walkers_respect_the_map() {
    let mut map = TileMap::new(3, 3, (0, 0));
    let idx = map.xy_to_idx(1, 0);
    map.tile_entities[idx].push(TileEntity::Blocking(ent(5)));
    let s = successors(&map, &Position::new(0, 0));
    assert_eq!(s, vec![(Position::new(0, 1), 1)]);
    assert_eq!(RandomMonsterMovementSystem::walk_step(&map, Position::new(0, 0), 5), WalkStep::Halt);
    assert_eq!(RandomMonsterMovementSystem::walk_step(&map, Position::new(0, 0), 15), WalkStep::MoveTo(Position::new(0, 1)));
    assert_eq!(RandomMonsterMovementSystem::walk_step(&map, Position::new(1, 1), 50), WalkStep::Stay);
    assert_eq!(RandomMonsterMovementSystem::walk_step(&map, Position::new(1, 1), 99), WalkStep::Quip);
    let mut positions = vec![(ent(1), Position::new(0, 0)), (ent(2), Position::new(1, 1))];
    HandleMoveActions.run(&vec![(ent(2), MoveAction::new(Position::new(2, 2)))], &mut positions);
    assert_eq!(positions, vec![(ent(1), Position::new(0, 0)), (ent(2), Position::new(2, 2))]);
}

#[test]
fn indexing_records_entities_on_their_tiles() {
    let mut map = TileMap::new(3, 3, (0, 0));
    IndexBlockedTiles.run(&mut map, &vec![(ent(1), Position::new(1, 1))]);
    IndexFishableTiles.run(&mut map, &vec![(ent(2), Position::new(1, 1)), (ent(3), Position::new(0, 2))]);
    assert_eq!(map.tile_entities[4], vec![TileEntity::Blocking(ent(1)), TileEntity::Fishable(ent(2))]);
    assert_eq!(map.tile_entities[6], vec![TileEntity::Fishable(ent(3))]);
    assert_eq!(map.first_entity_in_pos(&Position::new(1, 1)), Some(TileEntity::Fishable(ent(2))));
    assert!(map.is_blocked(&Position::new(1, 1)));
    IndexReset.run(&mut map);
    assert!(map.tile_entities.iter().all(|c| c.is_empty()));
    assert_eq!(map.tile_entities.len(), 9);
}

#[test]
fn animations_advance_loop_and_end() {
    let play = |frame: usize, timer: u64, looping: bool, lasting: bool, id: u128| AnimationPlay {
        top_left: Point::new(0, 0),
        curr_frame: frame,
        timer,
        looping,
        lasting,
        id,
    };
    let mut anims = vec![
        RunningAnimation { frame_count: 3, time_between_ms: 100, play: play(0, 99_000_000, false, true, 1) },
        RunningAnimation { frame_count: 3, time_between_ms: 100, play: play(2, 0, false, true, 2) },
        RunningAnimation { frame_count: 3, time_between_ms: 100, play: play(3, 0, true, false, 3) },
        RunningAnimation { frame_count: 3, time_between_ms: 100, play: play(3, 0, false, false, 4) },
    ];
    UpdateAnimationTimers.run(&mut anims, 2_000_000);
    assert_eq!(anims.len(), 2);
    assert_eq!(anims[0].play.curr_frame, 1);
    assert_eq!(anims[0].play.timer, 0);
    assert_eq!(anims[1].play.curr_frame, 2);
    assert_eq!(anims[1].play.timer, 0);
    let mut short = vec![RunningAnimation { frame_count: 3, time_between_ms: 100, play: play(1, 0, false, false, 5) }];
    UpdateAnimationTimers.run(&mut short, 50_000_000);
    assert_eq!(short[0].play.curr_frame, 1);
    assert_eq!(short[0].play.timer, 50_000_000);
    let fresh = AnimationPlay::lasting(Point::new(10, 10));
    assert!(fresh.lasting && !fresh.looping && fresh.curr_frame == 0);
}

#[test]
fn effects_go_when_their_activity_finishes_or_time_runs_out() {
    let conds = vec![
        (ent(10), DeleteCondition::ActivityFinish(ent(1))),
        (ent(11), DeleteCondition::ActivityFinish(ent(1))),
        (ent(12), DeleteCondition::Timed(5)),
    ];
    let mut finished = vec![ent(1)];
    let deleted = ActivityFinishSystem.run(&conds, &mut finished);
    assert_eq!(deleted, vec![ent(10)]);
    assert!(finished.is_empty());
    let mut conds = conds;
    let deleted = TileAnimationCleanUpSystem.run(&mut conds, &vec![ent(1)], 7);
    assert_eq!(deleted, vec![ent(10), ent(11), ent(12)]);
    assert_eq!(conds[2].1, DeleteCondition::Timed(0));
}

#[test]
fn stats_and_new_player() {
    let mut b = EntityStatsBuilder::new();
    b.with_vitality(25).with_strength(2);
    let (stats, health) = b.build();
    assert_eq!(stats.set.vitality, 25);
    assert_eq!(stats.set.intelligence, 0);
    assert_eq!((health.hp, health.max_hp, health.defense), (35, 35, 16));
    assert_eq!(Stats::zero().get_total(), 0);
    let r = get_random_stats();
    for v in [r.set.intelligence, r.set.strength, r.set.dexterity, r.set.vitality, r.set.precision, r.set.charisma] {
        assert!((1..=20).contains(&v));
    }
    let p = new_player();
    assert_eq!(p.pos, Position::new(67, 30));
    assert_eq!((p.stats.set.vitality, p.stats.set.strength), (25, 2));
    assert_eq!((p.health.hp, p.health.defense), (35, 16));
    assert_eq!(p.name, "Player");
    let beings = starting_beings();
    assert_eq!(beings[1], ("Greg Goat".to_string(), Position::new(12, 19)));
}

#[test]
fn storages_read_back_what_was_written() {
    let mut s: Vec<(EntityId, u32)> = vec![];
    store_insert(&mut s, ent(1), 10);
    store_insert(&mut s, ent(2), 20);
    store_insert(&mut s, ent(1), 11);
    assert_eq!(s, vec![(ent(1), 11), (ent(2), 20)]);
    assert_eq!(find_key(&s, ent(2)), Some(1));
    store_remove(&mut s, ent(1));
    assert_eq!(find_key(&s, ent(1)), None);
    maybe_insert(&mut s, ent(3), None);
    maybe_insert(&mut s, ent(3), Some(30));
    assert_eq!(s, vec![(ent(2), 20), (ent(3), 30)]);
    assert_eq!(xy_to_idx(2, 3, 10), 32);
}

fn raw_item(id: usize, name: &str) -> RawItemInfo {
    RawItemInfo {
        identifier: ItemID(id),
        name: name.to_string(),
        examine_text: "a thing".to_string(),
        atlas_index: 1,
        fg: (1, 2, 3),
        pickup_text: None,
        equipable: None,
        attack_bonus: Some(2),
    }
}

fn raw_tree(loot_item: &str, qty: &str, max_hp: usize) -> RawWorldObject {
    RawWorldObject {
        identifier: 7,
        name: "Tree".to_string(),
        atlas_index: 4,
        is_blocking: true,
        breakable: Some("Axe".to_string()),
        health_stats: Some(RawHealthStats { max_hp, defense: 1 }),
        grass: None,
        foreground: None,
        loot: Some(RawDrops {
            drop_chance: 100,
            loot_table: vec![RawLoot { item: loot_item.to_string(), item_qty: qty.to_string(), weight: 1 }],
        }),
        impact_sound: "chop".to_string(),
    }
}

fn raw_recipe(first: &str, second: &str, output: &str) -> RawRecipe {
    RawRecipe {
        first: RawIngredient { name: first.to_string(), consume: Some(1) },
        second: RawIngredient { name: second.to_string(), consume: None },
        output: output.to_string(),
    }
}

#[test]
fn databases_build_from_raw_data() {
    let items = RawItemDatabase { data: vec![raw_item(1, "Stick"), raw_item(3, "Fish")] };
    let objs = vec![raw_tree("Stick", "2", 5)];
    let beings = vec![RawBeing {
        identifier: BeingID(4),
        name: "Otter".to_string(),
        ai: None,
        is_blocking: true,
        atlas_index: 9,
        fg: (4, 5, 6),
        quips: None,
        stats: None,
        loot: Some(RawDrops {
            drop_chance: 40,
            loot_table: vec![RawLoot { item: "Fish".to_string(), item_qty: "3".to_string(), weight: 2 }],
        }),
    }];
    let recipes = vec![raw_recipe("Stick", "Fish", "Fish")];
    assert!(check_raw_data(&items, &objs, &beings, &recipes));
    let (db, rdb) = initialize_game_databases(&items, &objs, &beings, &recipes);
    assert_eq!(db.items.data.len(), 2);
    assert_eq!(db.items.data[1].identifier, ItemID(3));
    assert_eq!(db.items.data[0].name, "Stick");
    let tree = &db.world_objs.data[0];
    assert_eq!(tree.name, "Tree");
    let loot = tree.loot.as_ref().unwrap();
    assert_eq!(loot.drop_chance, 100);
    assert_eq!(loot.loot_table[0].id, ItemID(1));
    assert_eq!(loot.loot_table[0].qty, DropQty::Single(2));
    let otter_loot = db.beings.data[0].loot.as_ref().unwrap();
    assert_eq!(otter_loot.drop_chance, 40);
    assert_eq!(otter_loot.loot_table.len(), 1);
    assert_eq!(otter_loot.loot_table[0].id, ItemID(3));
    assert_eq!(otter_loot.loot_table[0].qty, DropQty::Single(3));
    assert_eq!(otter_loot.loot_table[0].weight, 2);
    assert_eq!(rdb.use_with_recipes.len(), 1);
    assert_eq!(rdb.use_with_recipes[0].output, ItemID(3));
    assert_eq!(rdb.use_with_recipes[0].ingredients.len(), 2);
    assert_eq!(rdb.use_with_recipes[0].ingredients[0].id, ItemID(1));
}

#[test]
fn raw_data_that_does_not_resolve_is_refused() {
    let items = RawItemDatabase { data: vec![raw_item(1, "Stick"), raw_item(3, "Fish")] };
    let none: Vec<RawBeing> = Vec::new();
    let no_recipes: Vec<RawRecipe> = Vec::new();
    assert!(!check_raw_data(&items, &vec![raw_tree("Rock", "2", 5)], &none, &no_recipes));
    assert!(!check_raw_data(&items, &vec![raw_tree("Stick", "two", 5)], &none, &no_recipes));
    assert!(!check_raw_data(&items, &vec![raw_tree("Stick", "2", (u32::MAX as usize) + 1)], &none, &no_recipes));
    assert!(!check_raw_data(&items, &Vec::new(), &none, &vec![raw_recipe("Stick", "Fish", "Boat")]));
    assert!(check_raw_data(&items, &Vec::new(), &none, &no_recipes));
}

#[test]
fn monsters_act_once_a_second_has_passed() {
    let mut delay: u64 = 0;
    assert!(!check_monster_delay(&mut delay, 400_000_000));
    assert_eq!(delay, 400_000_000);
    assert!(!check_monster_delay(&mut delay, 599_999_999));
    assert!(check_monster_delay(&mut delay, 1));
    assert_eq!(delay, 1_000_000_000);
}

#[test]
fn items_come_before_blockers_on_a_tile() {
    let mut map = TileMap::new(2, 2, (0, 0));
    IndexBlockedTiles.run(&mut map, &vec![(ent(1), Position::new(0, 0))]);
    map.tile_entities[0].push(TileEntity::Item(ent(5)));
    assert_eq!(map.first_entity_in_pos(&Position::new(0, 0)), Some(TileEntity::Item(ent(5))));
    map.tile_entities[0].push(TileEntity::Breakable(ent(6)));
    assert_eq!(map.first_entity_in_pos(&Position::new(0, 0)), Some(TileEntity::Breakable(ent(6))));
}

#[test]
fn maps_check_their_shape_and_cells() {
    let mut map = TileMap::new(3, 2, (0, 0));
    assert!(map.is_wf());
    assert!(map.contains(&Position::new(2, 1)));
    assert!(!map.contains(&Position::new(3, 0)));
    assert!(!map.contains(&Position::new(0, 2)));
    map.tiles.pop();
    assert!(!map.is_wf());
}
