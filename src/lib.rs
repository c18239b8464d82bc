//! Core logic of a tile-based dungeon game: procedural room and dungeon
//! generation, axis-aligned collision resolution, damage and timed removal,
//! and the facing / animation state machine of characters.
//!
//! All quantities are integers. Lengths are in thousandths of a pixel,
//! durations in milliseconds, velocities in thousandths of a pixel per
//! millisecond (numerically pixels per second), health and damage in
//! hundredths of a point.

pub mod characteranimation;
pub mod charactermeta;
pub mod charactermove;
pub mod damage;
pub mod delayedremove;
pub mod events;
pub mod map;
pub mod physics;
mod random;
pub mod room;
pub mod roomexit;
pub mod spriteanimation;
pub mod swordattack;

pub use characteranimation::{CharacterAnimation, CharacterAnimationSystem};
pub use charactermeta::{CharacterDirection, CharacterMeta};
pub use charactermove::{CharacterMove, CharacterMoveSystem, UserMove};
pub use damage::{
    DestroySystem, Destroyable, Destroyer, ProximityEvent, DAMAGE_LIMIT, EVENT_LIMIT,
    HEALTH_LIMIT,
};
pub use delayedremove::{DelayedRemove, DelayedRemoveSystem};
pub use events::{EventChannel, ReaderId};
pub use map::{Coordinate, Direction, DungeonGen, DungeonMap, RoomMap};
pub use physics::{
    accepts_tick, Body, BoundingRect, Collision, Physics, PhysicsSystem, Solid, Velocity, BODY_LIMIT,
    COORD_LIMIT, EXTENT_LIMIT, SPEED_LIMIT, TICK_LIMIT,
};
pub use room::{
    DestRoom, GenerationError, Room, RoomDraws, RoomField, RoomFieldIterator, RoomGeneration,
    MIN_ROOM_SIDE,
};
pub use spriteanimation::{SpriteAnimation, SpriteAnimationSystem};
pub use roomexit::{PerformRoomExit, RoomExitSystem};
pub use swordattack::{sword_attack, SwordStrike, SWORD_HALF_EXTENT, SWORD_LIFETIME, SWORD_REACH};
