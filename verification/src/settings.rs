use vstd::prelude::*;
use crate::layout::{CL_INTERACTABLES, FONT_INTERACTABLES, FONT_INTERACTABLES_OUTLINE};

verus! {

/// The config for how the in game settings menu are configured
pub struct SettingsConfig {
    pub sprite_mode: SpriteMode,
    pub text_font: TextFonts,
}

impl Default for SettingsConfig {
    fn default() -> (c: Self)
        ensures
            c.sprite_mode == SpriteMode::Outline,
            c.text_font == TextFonts::Zaratustra,
    {
        Self { sprite_mode: SpriteMode::default(), text_font: TextFonts::default() }
    }
}

/// The font of the text.
#[derive(Debug, Copy, Clone, PartialEq, Eq, Structural)]
pub enum TextFonts {
    Zaratustra,
    Terminal,
}

impl Default for TextFonts {
    fn default() -> (f: Self)
        ensures
            f == TextFonts::Zaratustra,
    {
        Self::Zaratustra
    }
}

/// How the interactables sprites will be drawn on screen
#[derive(Debug, Copy, Clone, PartialEq, Eq, Structural)]
pub enum SpriteMode {
    Outline,
    Blocked,
}

impl Default for SpriteMode {
    fn default() -> (m: Self)
        ensures
            m == SpriteMode::Outline,
    {
        Self::Outline
    }
}

/// The entries of the settings menu.
#[derive(Debug, Copy, Clone, PartialEq, Eq, Structural)]
pub enum SettingsSelection {
    SpriteMode,
}

/// What the player did in the settings menu.
#[derive(Debug, Copy, Clone, PartialEq, Eq, Structural)]
pub enum SettingsAction {
    Selected,
    Waiting,
    ReturnToMainMenu,
}

/// The font the interactables layer is drawn with in a sprite mode.
pub open spec fn sprite_font(m: SpriteMode) -> usize {
    match m {
        SpriteMode::Outline => FONT_INTERACTABLES_OUTLINE,
        SpriteMode::Blocked => FONT_INTERACTABLES,
    }
}

/// The other sprite mode.
pub open spec fn toggled_mode(m: SpriteMode) -> SpriteMode {
    match m {
        SpriteMode::Outline => SpriteMode::Blocked,
        SpriteMode::Blocked => SpriteMode::Outline,
    }
}

/// A console layer and the font it is to be drawn with.
#[derive(Debug, Copy, Clone, PartialEq, Eq, Structural)]
pub struct FontChange {
    pub console: usize,
    pub font: usize,
}

/// Acts on the selected setting; returns the font the terminal is to switch to.
pub fn handle_setting_selected(setting: &SettingsSelection, cfg: &mut SettingsConfig) -> (r: FontChange)
    ensures
        final(cfg).sprite_mode == toggled_mode(old(cfg).sprite_mode),
        final(cfg).text_font == old(cfg).text_font,
        r == (FontChange { console: CL_INTERACTABLES, font: sprite_font(final(cfg).sprite_mode) }),
{
    match setting {
        SettingsSelection::SpriteMode => toggle_sprite_mode(cfg),
    }
}

/// Switches between the outline and the blocked sprites; returns the font of the new mode for
/// the interactables layer.
fn toggle_sprite_mode(cfg: &mut SettingsConfig) -> (r: FontChange)
    ensures
        final(cfg).sprite_mode == toggled_mode(old(cfg).sprite_mode),
        final(cfg).text_font == old(cfg).text_font,
        r == (FontChange { console: CL_INTERACTABLES, font: sprite_font(final(cfg).sprite_mode) }),
{
    cfg.sprite_mode = match cfg.sprite_mode {
        SpriteMode::Outline => SpriteMode::Blocked,
        SpriteMode::Blocked => SpriteMode::Outline,
    };
    let active_id = match cfg.sprite_mode {
        SpriteMode::Outline => FONT_INTERACTABLES_OUTLINE,
        SpriteMode::Blocked => FONT_INTERACTABLES,
    };
    FontChange { console: CL_INTERACTABLES, font: active_id }
}

/// Toggling the sprite mode twice gives back the mode it started from.
pub proof fn lemma_toggle_twice(m: SpriteMode)
    ensures
        toggled_mode(toggled_mode(m)) == m,
{
}

} // verus!
