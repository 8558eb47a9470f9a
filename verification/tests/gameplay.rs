use rust_rpg::animation::DeleteCondition;
use rust_rpg::combat::{AttackActionHandler, Attacker, BonusItem, DamageStore, HitTarget};
use rust_rpg::components::{
    AttackAction, AttackBonus, BreakAction, Breakable, CraftAction, EntityId, EntityStats, EquipAction, Equipable,
    EquipmentSlot, EquipmentSlots, Equipped, FishAction, Fishable, HealthStats, InBag, Item, Name, Position,
    SufferDamage, ToolType, WaitingForFish,
};
use rust_rpg::crafting::{HandleCraftingSystem, Ingredient, UseWithRecipe};
use rust_rpg::data_read::recipes::RecipeDatabase;
use rust_rpg::data_read::world_objs::WorldObjectDatabase;
use rust_rpg::droptables::{check_drops, generate_drops, DropQty, Drops, Loot, MAX_ITEM_DROPS};
use rust_rpg::equipment::EquipActionHandler;
use rust_rpg::fishing::{
    CatchFishSystem, FishingMinigame, FishingMinigameCheck, GoalBar, PollFishingTiles, SetupFishingActions,
    UpdateFishingTiles, WaitingForFishSystem,
};
use rust_rpg::items::{
    inventory_contains, ItemEntity, ItemPickupHandler, PickupRequest, ItemID, ItemInfo, ItemQty, ItemSpawnRequest, ItemSpawner, ItemSpawnerSystem,
    ItemWorld, PickupOutcome, SpawnType, ZeroQtyItemCleanup,
};
use rust_rpg::map::{ObjectID, WorldObject};
use rust_rpg::message_log::MessageType;
use rust_rpg::mining::{check_damage, BreakTarget, Breaker, DamageSystem, RemoveDeadTiles, TileDestructionSystem};
use rust_rpg::stats::Stats;

fn ent(id: u32) -> EntityId {
    EntityId { id, gen: 1 }
}

fn stats_with_strength(strength: usize) -> EntityStats {
    EntityStats::from(Stats { intelligence: 1, strength, dexterity: 1, vitality: 1, precision: 1, charisma: 1 })
}

fn item_entity(e: u32, id: usize, qty: usize, owner: Option<u32>, pos: Option<Position>, name: &str) -> ItemEntity {
    ItemEntity {
        entity: ent(e),
        item: Item::new(ItemID(id), ItemQty(qty)),
        in_bag: owner.map(|o| InBag { owner: ent(o) }),
        position: pos,
        name: name.to_string(),
    }
}

fn info(id: usize, name: &str) -> ItemInfo {
    ItemInfo {
        identifier: ItemID(id),
        name: name.to_string(),
        examine_text: format!("A plain {}.", name),
        atlas_index: 0,
        fg: (0, 0, 0),
        pickup_text: None,
        equipable: None,
        attack_bonus: None,
    }
}

#[test]
fn put_in_bag_stacks_onto_existing_stack() {
    let mut world = ItemWorld { items: vec![item_entity(10, 3, 2, Some(1), None, "Fish")] };
    world.put_in_bag(ent(1), ItemID(3), "Fish", ent(11));
    assert_eq!(world.items.len(), 1);
    assert_eq!(world.items[0].item.qty, ItemQty(3));
    world.put_in_bag(ent(1), ItemID(4), "Rock", ent(12));
    assert_eq!(world.items.len(), 2);
    assert_eq!(world.items[1].entity, ent(12));
    assert_eq!(world.items[1].item.qty, ItemQty(1));
    assert_eq!(world.items[1].in_bag, Some(InBag { owner: ent(1) }));
}

#[test]
fn pickup_joins_stack_or_bags_item() {
    let ground = Some(Position::new(2, 2));
    let mut world = ItemWorld {
        items: vec![
            item_entity(10, 3, 2, Some(1), None, "Fish"),
            item_entity(11, 3, 5, None, ground, "Fish"),
            item_entity(12, 7, 1, None, ground, "Stick"),
        ],
    };
    assert_eq!(world.pickup(ent(1), ent(11)), PickupOutcome::Stacked(ent(10)));
    assert_eq!(world.items.len(), 2);
    assert_eq!(world.items[0].item.qty, ItemQty(7));
    assert_eq!(world.pickup(ent(1), ent(12)), PickupOutcome::Bagged);
    assert_eq!(world.items[1].in_bag, Some(InBag { owner: ent(1) }));
    assert_eq!(world.items[1].position, None);
    assert_eq!(world.pickup(ent(1), ent(99)), PickupOutcome::NotAnItem);
}

#[test]
fn zero_quantity_items_are_cleaned_up() {
    let mut world = ItemWorld {
        items: vec![item_entity(10, 3, 0, Some(1), None, "Fish"), item_entity(11, 4, 2, Some(1), None, "Rock")],
    };
    let deleted = ZeroQtyItemCleanup.run(&mut world);
    assert_eq!(deleted, vec![ent(10)]);
    assert_eq!(world.items.len(), 1);
    assert_eq!(world.items[0].entity, ent(11));
}

#[test]
fn item_spawner_serves_requests_in_order() {
    let db = vec![info(3, "Fish"), info(4, "Rock")];
    let mut world = ItemWorld { items: vec![] };
    let mut spawner = ItemSpawner::new();
    spawner.request(ItemID(3), SpawnType::InBag(ent(1)));
    spawner.request(ItemID(3), SpawnType::InBag(ent(1)));
    spawner.request(ItemID(9), SpawnType::OnGround(Position::new(1, 1)));
    spawner.request(ItemID(4), SpawnType::OnGround(Position::new(1, 1)));
    let fresh = vec![ent(20), ent(21), ent(22), ent(23)];
    let served = ItemSpawnerSystem.run(&mut spawner, &db, &mut world, &fresh);
    assert_eq!(served, vec![Some(0), Some(0), None, Some(1)]);
    assert!(spawner.requests.is_empty());
    assert_eq!(world.items.len(), 2);
    assert_eq!(world.items[0].entity, ent(20));
    assert_eq!(world.items[0].item.qty, ItemQty(2));
    assert_eq!(world.items[1].entity, ent(23));
    assert_eq!(world.items[1].position, Some(Position::new(1, 1)));
    assert_eq!(world.items[1].name, "Rock");
}

#[test]
fn request_amt_and_named_requests() {
    let db = vec![info(3, "Fish")];
    let mut spawner = ItemSpawner::new();
    spawner.request_amt(ItemID(3), SpawnType::InBag(ent(1)), ItemQty(3));
    assert_eq!(spawner.requests.len(), 3);
    spawner.request_named("Fish", SpawnType::InBag(ent(2)), &db);
    spawner.request_named("Unknown", SpawnType::InBag(ent(2)), &db);
    assert_eq!(spawner.requests.len(), 4);
    assert_eq!(spawner.requests[3], ItemSpawnRequest { item_id: ItemID(3), spawn_type: SpawnType::InBag(ent(2)) });
}

#[test]
fn inventory_contains_finds_named_item_in_bag() {
    let world = ItemWorld {
        items: vec![item_entity(10, 5, 1, Some(1), None, "Fishing Rod"), item_entity(11, 5, 1, None, None, "Stick")],
    };
    assert!(inventory_contains(&Name::new("Fishing Rod"), ent(1), &world));
    assert!(!inventory_contains(&Name::new("Fishing Rod"), ent(2), &world));
    assert!(!inventory_contains(&Name::new("Stick"), ent(1), &world));
}

#[test]
fn attack_applies_bonuses_in_order_and_queues_damage() {
    let attacks = vec![(
        Attacker { entity: ent(1), stats: stats_with_strength(10), name: "Player".to_string() },
        AttackAction { target: ent(2) },
    )];
    let targets = vec![HitTarget {
        entity: ent(2),
        health: HealthStats::new(20, 3),
        name: Some("Goat".to_string()),
    }];
    let items = vec![
        BonusItem { owner: ent(1), bonus: AttackBonus(2) },
        BonusItem { owner: ent(9), bonus: AttackBonus(100) },
        BonusItem { owner: ent(1), bonus: AttackBonus(-4) },
    ];
    let mut store = DamageStore::new();
    let lines = AttackActionHandler.run(&attacks, &targets, &items, &mut store);
    assert_eq!(lines.len(), 1);
    assert_eq!(lines[0].kind, MessageType::INFO);
    assert_eq!(lines[0].text, "Player dealt 5 damage to Goat");
    assert_eq!(store.entries.len(), 1);
    assert_eq!(store.entries[0].0, ent(2));
    assert_eq!(store.entries[0].1.amount, vec![-5]);
}

#[test]
fn negative_bonus_stops_damage_at_zero() {
    let attacks = vec![(
        Attacker { entity: ent(1), stats: stats_with_strength(4), name: "A".to_string() },
        AttackAction { target: ent(2) },
    )];
    let targets = vec![HitTarget { entity: ent(2), health: HealthStats::new(5, 1), name: Some("B".to_string()) }];
    let items = vec![BonusItem { owner: ent(1), bonus: AttackBonus(-10) }, BonusItem { owner: ent(1), bonus: AttackBonus(2) }];
    let mut store = DamageStore::new();
    let lines = AttackActionHandler.run(&attacks, &targets, &items, &mut store);
    assert_eq!(lines[0].text, "A dealt 2 damage to B");
    assert_eq!(store.entries[0].1.amount, vec![-2]);
}

#[test]
fn attack_on_strong_defense_deals_nothing() {
    let attacks = vec![(
        Attacker { entity: ent(1), stats: stats_with_strength(2), name: "A".to_string() },
        AttackAction { target: ent(2) },
    )];
    let targets = vec![HitTarget { entity: ent(2), health: HealthStats::new(5, 3), name: Some("B".to_string()) }];
    let mut store = DamageStore::new();
    let lines = AttackActionHandler.run(&attacks, &targets, &vec![], &mut store);
    assert_eq!(lines[0].text, "Took no damage because defense is greater");
    assert!(store.entries.is_empty());
    let missing = vec![(
        Attacker { entity: ent(1), stats: stats_with_strength(2), name: "A".to_string() },
        AttackAction { target: ent(7) },
    )];
    let lines = AttackActionHandler.run(&missing, &targets, &vec![], &mut store);
    assert!(lines.is_empty());
}

#[test]
fn new_damage_appends_to_the_victims_queue() {
    let mut store = DamageStore::new();
    SufferDamage::new_damage(&mut store, ent(1), -3);
    SufferDamage::new_damage(&mut store, ent(2), 4);
    SufferDamage::new_damage(&mut store, ent(1), -1);
    assert_eq!(store.entries.len(), 2);
    assert_eq!(store.entries[0].1.amount, vec![-3, -1]);
    assert_eq!(store.entries[1].1.amount, vec![4]);
}

#[test]
fn damage_system_sums_amounts_and_stops_at_zero() {
    let mut store = DamageStore::new();
    SufferDamage::new_damage(&mut store, ent(1), -3);
    SufferDamage::new_damage(&mut store, ent(1), -9);
    SufferDamage::new_damage(&mut store, ent(2), 5);
    let mut healths = vec![(ent(1), HealthStats::new(10, 0)), (ent(2), HealthStats::new(10, 0)), (ent(3), HealthStats::new(7, 0))];
    DamageSystem.run(&mut healths, &mut store);
    assert_eq!(healths[0].1.hp, 0);
    assert_eq!(healths[1].1.hp, 15);
    assert_eq!(healths[1].1.max_hp, 10);
    assert_eq!(healths[2].1.hp, 7);
    assert!(store.entries.is_empty());
    let dead = RemoveDeadTiles.run(&healths);
    assert_eq!(dead, vec![ent(1)]);
}

fn rock_db() -> WorldObjectDatabase {
    WorldObjectDatabase {
        data: vec![WorldObject {
            identifier: ObjectID(1),
            name: "Rock".to_string(),
            atlas_index: 0,
            is_blocking: true,
            breakable: Some("Hand".to_string()),
            health_stats: None,
            grass: None,
            foreground: None,
            loot: None,
            impact_sound: "rock_hit".to_string(),
        }],
    }
}

#[test]
fn breaking_with_the_right_tool_deals_damage_and_sounds() {
    let strikes = vec![
        (Breaker { entity: ent(1), stats: stats_with_strength(5), name: "Player".to_string() }, BreakAction { target: ent(5) }),
        (Breaker { entity: ent(2), stats: stats_with_strength(5), name: "Goat".to_string() }, BreakAction { target: ent(6) }),
        (Breaker { entity: ent(2), stats: stats_with_strength(1), name: "Goat".to_string() }, BreakAction { target: ent(5) }),
    ];
    let tiles = vec![
        BreakTarget { entity: ent(5), name: "Rock".to_string(), breakable: Breakable::new(ToolType::Hand), health: HealthStats::new(10, 2) },
        BreakTarget { entity: ent(6), name: "Tree".to_string(), breakable: Breakable::new(ToolType::Axe), health: HealthStats::new(10, 0) },
    ];
    let mut store = DamageStore::new();
    let mut strikes = strikes;
    let report = TileDestructionSystem.run(&mut strikes, &tiles, ent(1), &rock_db(), &mut store);
    assert!(strikes.is_empty());
    let texts: Vec<String> = report.lines.iter().map(|l| l.text.clone()).collect();
    assert_eq!(
        texts,
        vec![
            "Player dealt 3 damage to Rock".to_string(),
            "You do not own the correct tool for this Goat.".to_string(),
            "Took no damage because defense is greater".to_string(),
        ]
    );
    assert_eq!(report.sounds, vec!["rock_hit".to_string()]);
    assert_eq!(report.hit, vec![ent(5)]);
    assert_eq!(store.entries[0].1.amount, vec![-3]);
}

#[test]
fn equip_fills_slots_and_toggles_off() {
    let equipables = vec![
        (ent(10), Equipable { slot: EquipmentSlot::Hand }),
        (ent(11), Equipable { slot: EquipmentSlot::Hand }),
    ];
    let slots = || EquipmentSlots { slots: vec![EquipmentSlot::Hand, EquipmentSlot::Head] };
    let mut equipped: Vec<(EntityId, Equipped)> = vec![];
    let mut reqs = vec![
        (ent(1), EquipAction { item: ent(10) }, slots()),
        (ent(1), EquipAction { item: ent(11) }, slots()),
        (ent(1), EquipAction { item: ent(12) }, slots()),
    ];
    EquipActionHandler.run(&mut reqs, &mut equipped, &equipables);
    assert!(reqs.is_empty());
    assert_eq!(equipped, vec![(ent(10), Equipped { on: ent(1) })]);
    let mut again = vec![(ent(1), EquipAction { item: ent(10) }, slots())];
    EquipActionHandler.run(&mut again, &mut equipped, &equipables);
    assert!(equipped.is_empty());
}

fn recipe_db() -> RecipeDatabase {
    RecipeDatabase {
        use_with_recipes: vec![UseWithRecipe {
            ingredients: vec![
                Ingredient { id: ItemID(1), consume: Some(ItemQty(2)) },
                Ingredient { id: ItemID(2), consume: None },
            ],
            output: ItemID(3),
        }],
    }
}

#[test]
fn crafting_uses_up_ingredients_and_requests_output() {
    let mut world = ItemWorld {
        items: vec![item_entity(10, 1, 5, Some(1), None, "Log"), item_entity(11, 2, 1, Some(1), None, "Knife")],
    };
    let mut spawner = ItemSpawner::new();
    let mut actions = vec![(ent(1), CraftAction { first_item: ent(10), second_item: ent(11) })];
    let lines = HandleCraftingSystem.run(&mut actions, &mut world, &mut spawner, &recipe_db());
    assert!(lines.is_empty());
    assert!(actions.is_empty());
    assert_eq!(world.items[0].item.qty, ItemQty(3));
    assert_eq!(world.items[1].item.qty, ItemQty(1));
    assert_eq!(spawner.requests, vec![ItemSpawnRequest { item_id: ItemID(3), spawn_type: SpawnType::InBag(ent(1)) }]);
}

#[test]
fn crafting_without_recipe_or_with_too_few_does_nothing() {
    let mut world = ItemWorld {
        items: vec![item_entity(10, 1, 1, Some(1), None, "Log"), item_entity(11, 2, 1, Some(1), None, "Knife"), item_entity(12, 9, 1, Some(1), None, "Pebble")],
    };
    let mut spawner = ItemSpawner::new();
    let mut actions = vec![
        (ent(1), CraftAction { first_item: ent(10), second_item: ent(11) }),
        (ent(1), CraftAction { first_item: ent(12), second_item: ent(11) }),
    ];
    let lines = HandleCraftingSystem.run(&mut actions, &mut world, &mut spawner, &recipe_db());
    assert_eq!(lines.len(), 1);
    assert_eq!(lines[0].text, "No recipe matched for the items used to craft");
    assert_eq!(world.items[0].item.qty, ItemQty(1));
    assert!(spawner.requests.is_empty());
}

#[test]
fn setup_fishing_starts_a_wait_with_two_to_five_attempts() {
    let mut actions = vec![(ent(1), FishAction { target: Position::new(4, 5) })];
    let mut waiters: Vec<(EntityId, WaitingForFish)> = vec![];
    let bobbers = SetupFishingActions.run(&mut actions, &mut waiters);
    assert!(actions.is_empty());
    assert_eq!(bobbers, vec![(ent(1), Position::new(4, 5), DeleteCondition::ActivityFinish(ent(1)))]);
    assert_eq!(waiters.len(), 1);
    assert!(waiters[0].1.attempts >= 2 && waiters[0].1.attempts < 6);
    assert_eq!(waiters[0].1.time_since_last_attempt, 0);
}

#[test]
fn waiting_rests_and_gives_up_without_attempts() {
    let mut waiters = vec![(ent(1), WaitingForFish::new(0)), (ent(2), WaitingForFish::new(3)), (ent(3), WaitingForFish::new(3))];
    let names = vec![(ent(1), "Bob".to_string()), (ent(2), "Ann".to_string())];
    let mut hooks = vec![];
    let mut games = vec![];
    let mut finished = vec![];
    let lines = WaitingForFishSystem.run(&mut waiters, &names, &mut hooks, &mut games, &mut finished, ent(9), 500_000_000);
    assert_eq!(lines.len(), 1);
    assert_eq!(lines[0].kind, MessageType::FLAVOR);
    assert_eq!(lines[0].text, "Bob ran out of attempts to catch a fish");
    assert_eq!(finished, vec![ent(1)]);
    assert_eq!(waiters.len(), 2);
    assert_eq!(waiters[0], (ent(2), WaitingForFish { attempts: 3, time_since_last_attempt: 500_000_000 }));
    assert_eq!(waiters[1], (ent(3), WaitingForFish::new(3)));
}

#[test]
fn waiting_past_the_delay_uses_an_attempt() {
    let mut waiters = vec![(ent(2), WaitingForFish { attempts: 3, time_since_last_attempt: 900_000_000 })];
    let names = vec![(ent(2), "Ann".to_string())];
    let mut hooks = vec![];
    let mut games = vec![];
    let mut finished = vec![];
    let lines = WaitingForFishSystem.run(&mut waiters, &names, &mut hooks, &mut games, &mut finished, ent(2), 200_000_000);
    assert!(lines[0].text.starts_with("Attempts left: 2 | Rolled: "));
    if hooks.is_empty() {
        assert_eq!(waiters, vec![(ent(2), WaitingForFish { attempts: 2, time_since_last_attempt: 0 })]);
        assert!(finished.is_empty());
    } else {
        assert!(waiters.is_empty());
        assert_eq!(games.len(), 1);
        assert_eq!(games[0].1, FishingMinigame { goal_bar: GoalBar { goal: 5, bar_width: 18, goal_width: 3 }, attempts_left: 3 });
        assert!(finished.is_empty());
    }
}

fn minigame_fixture(attempts_left: usize) -> (Vec<EntityId>, Vec<EntityId>, Vec<(EntityId, FishingMinigame)>, Vec<EntityId>) {
    (
        vec![ent(1)],
        vec![],
        vec![(ent(1), FishingMinigame { goal_bar: GoalBar { goal: 5, bar_width: 18, goal_width: 3 }, attempts_left })],
        vec![ent(1)],
    )
}

#[test]
fn minigame_hit_in_zone_succeeds() {
    let (mut actions, mut finished, mut games, mut hooks) = minigame_fixture(3);
    let lines = FishingMinigameCheck.run(&mut actions, &mut finished, &mut games, &mut hooks, ent(1), 7);
    assert_eq!(lines[0].text, "#[bright_green]Success!#[]");
    assert_eq!(finished, vec![ent(1)]);
    assert!(actions.is_empty());
}

#[test]
fn minigame_miss_uses_a_try_and_last_miss_loses_the_fish() {
    let (mut actions, mut finished, mut games, mut hooks) = minigame_fixture(2);
    let lines = FishingMinigameCheck.run(&mut actions, &mut finished, &mut games, &mut hooks, ent(1), 8);
    assert_eq!(lines.len(), 1);
    assert_eq!(lines[0].text, "#[orange]Missed#[] the fish zone.");
    assert_eq!(games[0].1.attempts_left, 1);
    let mut actions = vec![ent(1)];
    let lines = FishingMinigameCheck.run(&mut actions, &mut finished, &mut games, &mut hooks, ent(1), 4);
    assert_eq!(lines.len(), 2);
    assert_eq!(lines[1].text, "#[red]Ahhh, the fish got away.#[]");
    assert!(games.is_empty());
    assert!(hooks.is_empty());
    assert_eq!(finished, vec![ent(1)]);
}

#[test]
fn catching_a_fish_requests_item_three() {
    let mut hooks = vec![ent(1), ent(2)];
    let mut games = vec![(ent(1), FishingMinigame { goal_bar: GoalBar { goal: 5, bar_width: 18, goal_width: 3 }, attempts_left: 3 })];
    let mut spawner = ItemSpawner::new();
    let names = vec![(ent(1), "Player".to_string()), (ent(2), "Ann".to_string())];
    let finished = vec![ent(1)];
    let lines = CatchFishSystem.run(&mut hooks, &mut games, &mut spawner, &names, &finished);
    assert_eq!(lines.len(), 1);
    assert_eq!(lines[0].text, "Player caught a really big fish!");
    assert_eq!(spawner.requests, vec![ItemSpawnRequest { item_id: ItemID(3), spawn_type: SpawnType::InBag(ent(1)) }]);
    assert_eq!(hooks, vec![ent(2)]);
    assert!(games.is_empty());
}

#[test]
fn bubbles_count_down_and_pop() {
    let mut fishables = vec![(ent(1), Fishable { time_left: 100 }), (ent(2), Fishable { time_left: 50 })];
    let gone = PollFishingTiles.run(&mut fishables, 60);
    assert_eq!(gone, vec![ent(2)]);
    assert_eq!(fishables, vec![(ent(1), Fishable { time_left: 40 })]);
}

#[test]
fn new_bubbles_only_on_water_without_one() {
    let waters = vec![ent(1), ent(2)];
    let mut fishables = vec![(ent(1), Fishable { time_left: 5 })];
    let bubbles = UpdateFishingTiles.run(&waters, &mut fishables);
    assert!(!bubbles.contains(&ent(1)));
    assert_eq!(fishables.len(), 1 + bubbles.len());
    for b in bubbles.iter() {
        assert!(fishables.contains(&(*b, Fishable { time_left: 10_000_000_000 })));
    }
}

#[test]
fn drops_come_from_the_loot_table() {
    let never = Drops { drop_chance: 0, loot_table: vec![] };
    assert!(generate_drops(&never).is_empty());
    let always = Drops {
        drop_chance: 100,
        loot_table: vec![
            Loot { id: ItemID(7), qty: DropQty::Single(2), weight: 1 },
            Loot { id: ItemID(8), qty: DropQty::Range { min: 1, max: 4 }, weight: 3 },
        ],
    };
    let drops = generate_drops(&always);
    assert!(!drops.is_empty());
    assert!(drops.len() <= MAX_ITEM_DROPS as usize);
    for (id, qty) in drops.iter() {
        if *id == ItemID(7) {
            assert_eq!(*qty, ItemQty(2));
        } else {
            assert_eq!(*id, ItemID(8));
            assert!(qty.0 >= 1 && qty.0 < 4);
        }
    }
}

#[test]
fn loot_of_weight_zero_is_never_picked() {
    let table = Drops {
        drop_chance: 100,
        loot_table: vec![
            Loot { id: ItemID(7), qty: DropQty::Single(1), weight: 0 },
            Loot { id: ItemID(8), qty: DropQty::Single(1), weight: 5 },
            Loot { id: ItemID(9), qty: DropQty::Single(1), weight: 0 },
        ],
    };
    for _ in 0..50 {
        let drops = generate_drops(&table);
        assert!(!drops.is_empty());
        for (id, qty) in drops.iter() {
            assert_eq!(*id, ItemID(8));
            assert_eq!(*qty, ItemQty(1));
        }
    }
}

#[test]
fn whether_loot_drops_is_fixed_by_the_seeded_first_roll() {
    let table = Drops {
        drop_chance: 50,
        loot_table: vec![Loot { id: ItemID(7), qty: DropQty::Single(1), weight: 1 }],
    };
    let first = generate_drops(&table).is_empty();
    for _ in 0..20 {
        assert_eq!(generate_drops(&table).is_empty(), first);
    }
}

#[test]
fn picking_up_bags_the_item_and_drops_the_requests() {
    let mut world = ItemWorld { items: vec![item_entity(10, 1, 3, None, Some(Position::new(2, 2)), "Stick")] };
    let mut db_stick = info(1, "Stick");
    db_stick.pickup_text = Some("A sturdy stick.".to_string());
    let db = vec![db_stick];
    let mut reqs = vec![PickupRequest { picker: ent(1), picker_name: "Player".to_string(), item: ent(10) }];
    let lines = ItemPickupHandler.run(&mut world, &mut reqs, &db);
    assert!(reqs.is_empty());
    assert_eq!(world.items.len(), 1);
    assert_eq!(world.items[0].in_bag, Some(InBag { owner: ent(1) }));
    assert_eq!(world.items[0].position, None);
    assert_eq!(world.items[0].item.qty, ItemQty(3));
    let texts: Vec<(MessageType, String)> = lines.iter().map(|l| (l.kind, l.text.clone())).collect();
    assert_eq!(
        texts,
        vec![
            (MessageType::FLAVOR, "A sturdy stick.".to_string()),
            (MessageType::INFO, "Player picked up a stick".to_string()),
        ]
    );
}

#[test]
fn loot_tables_are_checked_before_they_are_rolled() {
    let fine = Drops { drop_chance: 60, loot_table: vec![Loot { id: ItemID(7), qty: DropQty::Range { min: 1, max: 3 }, weight: 2 }] };
    assert!(check_drops(&fine));
    let never = Drops { drop_chance: 0, loot_table: vec![] };
    assert!(check_drops(&never));
    let always_empty = Drops { drop_chance: 100, loot_table: vec![] };
    assert!(!check_drops(&always_empty));
    let unpickable_bad_range = Drops {
        drop_chance: 100,
        loot_table: vec![
            Loot { id: ItemID(7), qty: DropQty::Range { min: 3, max: 3 }, weight: 0 },
            Loot { id: ItemID(8), qty: DropQty::Single(1), weight: 4 },
        ],
    };
    assert!(check_drops(&unpickable_bad_range));
    assert!(!generate_drops(&unpickable_bad_range).is_empty());
    let pickable_bad_range = Drops {
        drop_chance: 100,
        loot_table: vec![Loot { id: ItemID(7), qty: DropQty::Range { min: 3, max: 3 }, weight: 1 }],
    };
    assert!(!check_drops(&pickable_bad_range));
    let too_heavy = Drops { drop_chance: 0, loot_table: vec![
            Loot { id: ItemID(7), qty: DropQty::Single(1), weight: u32::MAX },
            Loot { id: ItemID(8), qty: DropQty::Single(1), weight: u32::MAX },
        ],
    };
    assert!(!check_drops(&too_heavy));
}

#[test]
fn damage_is_checked_before_it_is_applied() {
    let mut store = DamageStore::new();
    SufferDamage::new_damage(&mut store, ent(1), -3);
    let healths = vec![(ent(1), HealthStats::new(10, 0)), (ent(2), HealthStats::new(5, 0))];
    assert!(check_damage(&healths, &store));
    let huge = vec![(ent(1), HealthStats { hp: u32::MAX, max_hp: u32::MAX, defense: 0 })];
    assert!(!check_damage(&huge, &store));
    let untouched = vec![(ent(2), HealthStats { hp: u32::MAX, max_hp: u32::MAX, defense: 0 })];
    assert!(check_damage(&untouched, &store));
}
