use vstd::prelude::*;
use crate::player::Key;

verus! {

/// Marks the entities whose components are saved.
pub struct SerializeMe {}

/// What the player chose in the save menu.
#[derive(Debug, Copy, Clone, PartialEq, Eq, Structural)]
pub enum SaveAction {
    Save,
    QuickSave,
    Cancel,
    Waiting,
    QuitWithoutSaving,
}

/// Where save games are kept.
pub const SAVE_PATH: &'static str = "./saves/";

/// The save games found.
pub struct GameSaves {
    pub saves: Vec<String>,
}

impl Default for GameSaves {
    fn default() -> (g: Self)
        ensures
            g.saves@.len() == 0,
    {
        Self { saves: Vec::new() }
    }
}

/// The save game the world was loaded from, and the name typed so far.
pub struct LoadedWorld {
    pub file_name: Option<String>,
    pub temp_input: String,
}

impl Default for LoadedWorld {
    fn default() -> (w: Self)
        ensures
            w.file_name is None,
            w.temp_input@.len() == 0,
    {
        Self { file_name: None, temp_input: String::new() }
    }
}

/// What the player did in the load game menu.
#[derive(Debug, Copy, Clone, PartialEq, Eq, Structural)]
pub enum LoadMenuAction {
    MoveDown,
    MoveUp,
    Select,
    Back,
    Waiting,
}

/// The load menu action of a key press: down or `S` moves down, up or `W` moves up, return
/// selects, escape goes back; anything else, or no key, waits.
pub open spec fn load_menu_action(key: Option<Key>) -> LoadMenuAction {
    match key {
        Some(Key::Down) | Some(Key::S) => LoadMenuAction::MoveDown,
        Some(Key::Up) | Some(Key::W) => LoadMenuAction::MoveUp,
        Some(Key::Return) => LoadMenuAction::Select,
        Some(Key::Escape) => LoadMenuAction::Back,
        _ => LoadMenuAction::Waiting,
    }
}

/// Reads the key press of the load game menu.
pub fn p_input_load_game_menu(key: Option<Key>) -> (r: LoadMenuAction)
    ensures
        r == load_menu_action(key),
{
    match key {
        Some(k) => match k {
            Key::Down | Key::S => LoadMenuAction::MoveDown,
            Key::Up | Key::W => LoadMenuAction::MoveUp,
            Key::Return => LoadMenuAction::Select,
            Key::Escape => LoadMenuAction::Back,
            _ => LoadMenuAction::Waiting,
        },
        None => LoadMenuAction::Waiting,
    }
}

} // verus!
