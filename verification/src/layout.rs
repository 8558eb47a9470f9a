use vstd::prelude::*;

verus! {

/// Width of the terminal window, in tiles.
pub const DISPLAY_WIDTH: usize = 40;
/// Height of the terminal window, in tiles.
pub const DISPLAY_HEIGHT: usize = 30;

// Console layers: the index of each console.

/// Used for special effect tiles on top of other effects
pub const CL_EFFECTS2: usize = 3;
/// Used for special effect tiles
pub const CL_EFFECTS: usize = 2;
/// Used for UI
pub const CL_TEXT: usize = 4;
/// Used for terrain tiles
pub const CL_WORLD: usize = 0;
/// Used for the few or so moving items/entities on screen
pub const CL_INTERACTABLES: usize = 1;

// Fonts: the indices follow the order the fonts are added to the terminal.

pub const FONT_EFFECTS: usize = 0;
pub const FONT_TEXT: usize = 1;
pub const FONT_INTERACTABLES: usize = 2;
pub const FONT_INTERACTABLES_OUTLINE: usize = 3;
pub const FONT_TERRAIN_FOREST: usize = 4;
pub const FONT_TERRAIN_TOWN_FOREST: usize = 5;

} // verus!
