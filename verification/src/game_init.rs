use vstd::prelude::*;
use crate::components::{EntityId, EntityStats, HealthStats, Position};
use crate::items::{ItemID, ItemSpawner, SpawnType};
use crate::player::{Interactor, InteractorMode};
use crate::stats::get_random_stats;

verus! {

/// The level a new game starts on.
pub const LEVEL_ZERO: &'static str = "Level_0";

/// How far the player sees.
pub const PLAYER_VIEW_RANGE: usize = 16;

/// The player of a new game: where it stands, how it interacts, its attributes and health.
pub struct NewPlayer {
    pub pos: Position,
    pub interactor: Interactor,
    pub stats: EntityStats,
    pub health: HealthStats,
    pub view_range: usize,
    pub name: String,
}

/// The player of a new game: at (67, 30), reactive, with random attributes except a vitality
/// of 25 and a strength of 2, full health from its vitality (35 hit points, defense 16), seeing
/// 16 tiles, named "Player".
pub fn new_player() -> (p: NewPlayer)
    ensures
        p.pos == (Position { x: 67, y: 30 }),
        p.interactor == (Interactor { mode: InteractorMode::Reactive }),
        p.stats.set.vitality == 25,
        p.stats.set.strength == 2,
        1 <= p.stats.set.intelligence <= 20,
        1 <= p.stats.set.dexterity <= 20,
        1 <= p.stats.set.precision <= 20,
        1 <= p.stats.set.charisma <= 20,
        p.health == (HealthStats { hp: 35, max_hp: 35, defense: 16 }),
        p.view_range == 16,
        p.name@ == "Player"@,
{
    let mut player_stats = get_random_stats();
    player_stats.set.vitality = 25;
    player_stats.set.strength = 2;
    let health = player_stats.set.get_health_stats();
    proof { reveal_strlit("Player"); }
    NewPlayer {
        pos: Position::new(67, 30),
        interactor: Interactor { mode: InteractorMode::Reactive },
        stats: player_stats,
        health,
        view_range: PLAYER_VIEW_RANGE,
        name: String::from_str("Player"),
    }
}

/// The beings a new game starts with, and where they stand.
pub fn starting_beings() -> (r: Vec<(String, Position)>)
    ensures
        r@.len() == 2,
        r@[0].0@ == "Bahhhby"@,
        r@[0].1 == (Position { x: 5, y: 15 }),
        r@[1].0@ == "Greg Goat"@,
        r@[1].1 == (Position { x: 12, y: 19 }),
{
    proof { reveal_strlit("Bahhhby"); reveal_strlit("Greg Goat"); }
    let mut r: Vec<(String, Position)> = Vec::new();
    r.push((String::from_str("Bahhhby"), Position::new(5, 15)));
    r.push((String::from_str("Greg Goat"), Position::new(12, 19)));
    r
}

/// Requests the item the player starts with (item 201) into the player's bag.
pub fn request_starting_items(spawner: &mut ItemSpawner, player: EntityId)
    ensures
        final(spawner).requests@ == old(spawner).requests@.push(crate::items::ItemSpawnRequest { item_id: ItemID(201), spawn_type: SpawnType::InBag(player) }),
{
    spawner.request(ItemID(201), SpawnType::InBag(player));
}

} // verus!
