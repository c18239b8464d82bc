//! Where a character looks and whether it walks.

use vstd::prelude::*;

verus! {

/// Direction on the 2D map.
#[derive(PartialEq, Eq, Clone, Copy, Debug, Structural)]
pub enum CharacterDirection {
    Left,
    Right,
    Up,
    Down,
}

impl CharacterDirection {
    /// The lower-case name of the direction, as used in sprite names.
    pub open spec fn name(self) -> Seq<char> {
        match self {
            CharacterDirection::Left => "left"@,
            CharacterDirection::Right => "right"@,
            CharacterDirection::Up => "up"@,
            CharacterDirection::Down => "down"@,
        }
    }

    pub fn as_str(&self) -> (r: &'static str)
        ensures
            r@ == self.name(),
    {
        match self {
            CharacterDirection::Left => "left",
            CharacterDirection::Right => "right",
            CharacterDirection::Up => "up",
            CharacterDirection::Down => "down",
        }
    }
}

/// Facing and walking state of a character.
#[derive(PartialEq, Eq, Clone, Copy, Debug, Structural)]
pub struct CharacterMeta {
    pub direction: CharacterDirection,
    pub moving: bool,
}

impl CharacterMeta {
    /// A character that looks in `direction` and stands still.
    pub fn new(direction: CharacterDirection) -> (r: Self)
        ensures
            r.direction == direction,
            !r.moving,
    {
        CharacterMeta { direction, moving: false }
    }
}

} // verus!
