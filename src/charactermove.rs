//! Movement intent of user-controlled characters.

use vstd::prelude::*;
use crate::charactermeta::{CharacterDirection, CharacterMeta};
use crate::physics::{Physics, Velocity};

verus! {

/// Walking speed of a character.
#[derive(Clone, Copy, Debug, PartialEq, Eq, Structural)]
pub struct CharacterMove {
    pub speed: i64,
}

impl CharacterMove {
    pub fn new(speed: i64) -> (r: Self)
        ensures
            r.speed == speed,
    {
        CharacterMove { speed }
    }
}

/// Marks the character that the user controls.
#[derive(Clone, Copy, Debug, PartialEq, Eq, Structural)]
pub struct UserMove;

/// The facing state after one tick of intent `(move_x, move_y)`, of which
/// only the signs count: horizontal intent wins over vertical; without
/// intent the character keeps its direction and stands.
pub open spec fn next_meta(meta: CharacterMeta, move_x: int, move_y: int) -> CharacterMeta {
    if move_x > 0 {
        CharacterMeta { direction: CharacterDirection::Right, moving: true }
    } else if move_x < 0 {
        CharacterMeta { direction: CharacterDirection::Left, moving: true }
    } else if move_y > 0 {
        CharacterMeta { direction: CharacterDirection::Up, moving: true }
    } else if move_y < 0 {
        CharacterMeta { direction: CharacterDirection::Down, moving: true }
    } else {
        CharacterMeta { direction: meta.direction, moving: false }
    }
}

/// `speed` in the direction of the intent's sign on one axis.
pub open spec fn axis_speed(intent: int, speed: int) -> int {
    if intent > 0 {
        speed
    } else if intent < 0 {
        -speed
    } else {
        0
    }
}

/// Turns user intent into facing, velocity and sword attacks.
pub struct CharacterMoveSystem {
    attack_released: bool,
}

impl CharacterMoveSystem {
    /// The attack button was up at the last tick, so pressing it attacks.
    pub closed spec fn armed(self) -> bool {
        self.attack_released
    }

    /// One tick for one character: sets its facing and its velocity from
    /// the intent, and returns the direction of a sword attack when the
    /// attack button is down and was up before.
    pub fn run(
        &mut self,
        character_meta: &mut CharacterMeta,
        physics: &mut Physics,
        character_move: &CharacterMove,
        move_x: i32,
        move_y: i32,
        attack_down: bool,
    ) -> (attack: Option<CharacterDirection>)
        requires
            character_move.speed > i64::MIN,
        ensures
            *final(character_meta) == next_meta(*old(character_meta), move_x as int, move_y as int),
            final(physics).velocity.x == axis_speed(move_x as int, character_move.speed as int),
            final(physics).velocity.y == axis_speed(move_y as int, character_move.speed as int),
            attack == if attack_down && old(self).armed() {
                Some(final(character_meta).direction)
            } else {
                None
            },
            final(self).armed() == !attack_down,
    {
        let speed = character_move.speed;
        let mut velocity_x: i64 = 0;
        let mut velocity_y: i64 = 0;
        if move_x > 0 {
            velocity_x = speed;
        } else if move_x < 0 {
            velocity_x = -speed;
        }
        if move_y > 0 {
            velocity_y = speed;
        } else if move_y < 0 {
            velocity_y = -speed;
        }
        if move_x > 0 {
            character_meta.direction = CharacterDirection::Right;
            character_meta.moving = true;
        } else if move_x < 0 {
            character_meta.direction = CharacterDirection::Left;
            character_meta.moving = true;
        } else if move_y > 0 {
            character_meta.direction = CharacterDirection::Up;
            character_meta.moving = true;
        } else if move_y < 0 {
            character_meta.direction = CharacterDirection::Down;
            character_meta.moving = true;
        } else {
            character_meta.moving = false;
        }
        physics.velocity = Velocity { x: velocity_x, y: velocity_y };
        if attack_down {
            if self.attack_released {
                self.attack_released = false;
                return Some(character_meta.direction);
            }
            None
        } else {
            self.attack_released = true;
            None
        }
    }
}

impl Default for CharacterMoveSystem {
    fn default() -> (r: Self)
        ensures
            r.armed(),
    {
        CharacterMoveSystem { attack_released: true }
    }
}

} // verus!
