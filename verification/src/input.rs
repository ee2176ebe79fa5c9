//! Navigation input: the four directions of a remote control.

use vstd::prelude::*;

verus! {

/// Key code of the left arrow.
pub const KEY_LEFT: u32 = 37;

/// Key code of the up arrow.
pub const KEY_UP: u32 = 38;

/// Key code of the right arrow.
pub const KEY_RIGHT: u32 = 39;

/// Key code of the down arrow.
pub const KEY_DOWN: u32 = 40;

/// A focus move. The grid and its rows see nothing of a key press but this.
#[derive(Clone, Copy, Debug, PartialEq, Eq, Structural)]
pub enum Direction {
    Up,
    Down,
    Left,
    Right,
}

/// The direction an arrow key stands for; other keys stand for none.
pub open spec fn direction_of(key_code: u32) -> Option<Direction> {
    if key_code == KEY_UP {
        Some(Direction::Up)
    } else if key_code == KEY_DOWN {
        Some(Direction::Down)
    } else if key_code == KEY_LEFT {
        Some(Direction::Left)
    } else if key_code == KEY_RIGHT {
        Some(Direction::Right)
    } else {
        None
    }
}

impl Direction {
    /// Maps a raw key code to a direction at the input boundary.
    pub fn from_key_code(key_code: u32) -> (direction: Option<Direction>)
        ensures
            direction == direction_of(key_code),
    {
        if key_code == KEY_UP {
            Some(Direction::Up)
        } else if key_code == KEY_DOWN {
            Some(Direction::Down)
        } else if key_code == KEY_LEFT {
            Some(Direction::Left)
        } else if key_code == KEY_RIGHT {
            Some(Direction::Right)
        } else {
            None
        }
    }
}

} // verus!
