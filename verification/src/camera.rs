use vstd::prelude::*;
use crate::components::{Point, Position};
use crate::layout::{DISPLAY_HEIGHT, DISPLAY_WIDTH};
use crate::map::TileMap;

verus! {

/// How far left of the player the camera's view starts.
pub const PLAYER_CAMERA_OFFSET_X: i32 = 13;
/// How far above the player the camera's view starts.
pub const PLAYER_CAMERA_OFFSET_Y: i32 = 13;

/// A rectangle of the grid: its first corner (left, top) and its second (right, bottom).
#[derive(Debug, Copy, Clone, PartialEq, Eq, Structural)]
pub struct Rect {
    pub x1: i32,
    pub x2: i32,
    pub y1: i32,
    pub y2: i32,
}

impl Rect {
    /// The rectangle at `(x, y)` of width `w` and height `h`.
    pub fn with_size(x: i32, y: i32, w: i32, h: i32) -> (r: Self)
        requires
            i32::MIN <= x + w <= i32::MAX,
            i32::MIN <= y + h <= i32::MAX,
        ensures
            r == (Rect { x1: x, y1: y, x2: (x + w) as i32, y2: (y + h) as i32 }),
    {
        Rect { x1: x, y1: y, x2: x + w, y2: y + h }
    }
}

/// The bounds of the camera: the display's size, placed so that the player stands at the
/// offset from its corner; without a player, a fixed rectangle.
pub open spec fn camera_bounds(player: Option<Position>) -> Rect {
    match player {
        Some(pos) => {
            let x = pos.x - PLAYER_CAMERA_OFFSET_X;
            let y = pos.y - PLAYER_CAMERA_OFFSET_Y;
            Rect { x1: x as i32, y1: y as i32, x2: (x + DISPLAY_WIDTH) as i32, y2: (y + DISPLAY_HEIGHT) as i32 }
        },
        None => Rect {
            x1: PLAYER_CAMERA_OFFSET_X,
            y1: PLAYER_CAMERA_OFFSET_Y,
            x2: (PLAYER_CAMERA_OFFSET_X + PLAYER_CAMERA_OFFSET_X + DISPLAY_WIDTH) as i32,
            y2: (PLAYER_CAMERA_OFFSET_Y + PLAYER_CAMERA_OFFSET_Y + DISPLAY_HEIGHT) as i32,
        },
    }
}

/// Whether a player position keeps the camera's corners inside `i32`.
pub open spec fn camera_ok(player: Option<Position>) -> bool {
    player matches Some(pos) ==> pos.x + DISPLAY_WIDTH <= i32::MAX && pos.y + DISPLAY_HEIGHT <= i32::MAX
}

/// Gets the bounds of the camera positioned at the player (the first player position given).
pub fn get_camera_bounds(player: Option<Position>) -> (r: Rect)
    requires
        camera_ok(player),
    ensures
        r == camera_bounds(player),
{
    match player {
        Some(pos) => {
            let x_offset = pos.x as i32 - PLAYER_CAMERA_OFFSET_X;
            let y_offset = pos.y as i32 - PLAYER_CAMERA_OFFSET_Y;
            Rect::with_size(x_offset, y_offset, DISPLAY_WIDTH as i32, DISPLAY_HEIGHT as i32)
        },
        None => Rect::with_size(
            PLAYER_CAMERA_OFFSET_X,
            PLAYER_CAMERA_OFFSET_Y,
            PLAYER_CAMERA_OFFSET_X + DISPLAY_WIDTH as i32,
            PLAYER_CAMERA_OFFSET_Y + DISPLAY_HEIGHT as i32,
        ),
    }
}

/// Tries to transform the position of the cursor into a position on the map.
/// Will return None if the mouse is outside the bounds of the map relative to the camera on the
/// player.
pub fn mouse_to_map_pos(mouse_pos: &(i32, i32), player: Option<Position>, map: &TileMap) -> (r: Option<Position>)
    requires
        camera_ok(player),
        map.width <= i32::MAX,
        map.height <= i32::MAX,
        i32::MIN <= camera_bounds(player).x1 + mouse_pos.0 <= i32::MAX,
        i32::MIN <= camera_bounds(player).y1 + mouse_pos.1 <= i32::MAX,
    ensures
        ({
            let b = camera_bounds(player);
            let x = b.x1 + mouse_pos.0;
            let y = b.y1 + mouse_pos.1;
            if map.spec_in_bounds(x, y) {
                r == Some(Position { x: x as usize, y: y as usize })
            } else {
                r is None
            }
        }),
{
    let bounds = get_camera_bounds(player);
    let tile_pos = Point::new(bounds.x1 + mouse_pos.0, bounds.y1 + mouse_pos.1);
    if !map.in_bounds(tile_pos) {
        return None;
    }
    Some(Position::from_point(tile_pos))
}

/// The camera keeps the player at the same place of the screen: the offset from the camera's
/// corner, with the camera exactly the display's size.
pub proof fn lemma_camera_follows_player(pos: Position)
    requires
        camera_ok(Some(pos)),
    ensures
        pos.x - camera_bounds(Some(pos)).x1 == PLAYER_CAMERA_OFFSET_X,
        pos.y - camera_bounds(Some(pos)).y1 == PLAYER_CAMERA_OFFSET_Y,
        camera_bounds(Some(pos)).x2 - camera_bounds(Some(pos)).x1 == DISPLAY_WIDTH,
        camera_bounds(Some(pos)).y2 - camera_bounds(Some(pos)).y1 == DISPLAY_HEIGHT,
{
}

} // verus!
