//! Game logic of a small tile based role playing game: items and inventories,
//! crafting, combat, fishing, map queries and the application state machine.
pub mod animation;
pub mod app_state;
pub mod camera;
pub mod components;
pub mod text;
pub mod search;
pub mod store;
pub mod message_log;
pub mod items;
pub mod rng;
pub mod stats;
pub mod map;
pub mod drawsprites;
pub mod droptables;
pub mod being;
pub mod combat;
pub mod config;
pub mod crafting;
pub mod equipment;
pub mod fishing;
pub mod game_init;
pub mod indexing;
pub mod inventory;
pub mod layout;
pub mod map_gen;
pub mod mining;
pub mod player;
pub mod saveload;
pub mod settings;
pub mod data_read;
