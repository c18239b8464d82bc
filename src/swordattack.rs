//! The short-lived hitbox of a sword swing.

use vstd::prelude::*;
use crate::charactermeta::CharacterDirection;
use crate::damage::Destroyer;
use crate::delayedremove::DelayedRemove;
use crate::physics::{BoundingRect, COORD_LIMIT};

verus! {

/// Distance from the character to the centre of the hitbox: one tile.
pub const SWORD_REACH: i64 = 32000;

/// Half the side of the square hitbox.
pub const SWORD_HALF_EXTENT: i64 = 16000;

/// How long the hitbox lasts, in milliseconds.
pub const SWORD_LIFETIME: u64 = 200;

/// Everything a sword swing puts into the world.
#[derive(Clone, Copy, Debug, PartialEq, Eq, Structural)]
pub struct SwordStrike {
    pub x: i64,
    pub y: i64,
    pub depth: i64,
    pub rect: BoundingRect,
    pub remove: DelayedRemove,
    pub destroyer: Destroyer,
}

/// Centre of the hitbox of a swing from `(x, y)` towards `direction`.
pub open spec fn strike_position(x: int, y: int, direction: CharacterDirection) -> (int, int) {
    match direction {
        CharacterDirection::Up => (x, y + SWORD_REACH),
        CharacterDirection::Down => (x, y - SWORD_REACH),
        CharacterDirection::Left => (x - SWORD_REACH, y),
        CharacterDirection::Right => (x + SWORD_REACH, y),
    }
}

/// The hitbox of a swing with the given damage by a character at `(x, y)`
/// facing `direction`: one tile ahead, one tile square, gone after
/// `SWORD_LIFETIME`.
pub fn sword_attack(strength: i64, x: i64, y: i64, direction: CharacterDirection) -> (r:
    SwordStrike)
    requires
        -COORD_LIMIT <= x <= COORD_LIMIT,
        -COORD_LIMIT <= y <= COORD_LIMIT,
    ensures
        (r.x as int, r.y as int) == strike_position(x as int, y as int, direction),
        r.depth == -r.y,
        r.rect == (BoundingRect {
            left: (-SWORD_HALF_EXTENT) as i64,
            right: SWORD_HALF_EXTENT,
            top: SWORD_HALF_EXTENT,
            bottom: (-SWORD_HALF_EXTENT) as i64,
        }),
        r.remove == (DelayedRemove { current: 0, end: SWORD_LIFETIME }),
        r.destroyer == (Destroyer { damage: strength }),
{
    let (sx, sy) = match direction {
        CharacterDirection::Up => (x, y + SWORD_REACH),
        CharacterDirection::Down => (x, y - SWORD_REACH),
        CharacterDirection::Left => (x - SWORD_REACH, y),
        CharacterDirection::Right => (x + SWORD_REACH, y),
    };
    SwordStrike {
        x: sx,
        y: sy,
        depth: -sy,
        rect: BoundingRect::new(-SWORD_HALF_EXTENT, SWORD_HALF_EXTENT, -SWORD_HALF_EXTENT, SWORD_HALF_EXTENT),
        remove: DelayedRemove::new(SWORD_LIFETIME),
        destroyer: Destroyer { damage: strength },
    }
}

} // verus!
