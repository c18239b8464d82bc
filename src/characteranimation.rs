//! Choice of the walking animation from a character's facing.

use vstd::prelude::*;
use crate::charactermeta::{CharacterDirection, CharacterMeta};
use crate::spriteanimation::SpriteAnimation;

verus! {

/// The walking animations of a character, one per direction, and the
/// facing state they were last chosen for.
#[derive(Debug)]
pub struct CharacterAnimation {
    pub prev_character_meta: CharacterMeta,
    pub walk_up_animation: Vec<usize>,
    pub walk_down_animation: Vec<usize>,
    pub walk_left_animation: Vec<usize>,
    pub walk_right_animation: Vec<usize>,
}

impl CharacterAnimation {
    /// The frames of the walking animation for `direction`.
    pub open spec fn frames(self, direction: CharacterDirection) -> Seq<usize> {
        match direction {
            CharacterDirection::Up => self.walk_up_animation@,
            CharacterDirection::Down => self.walk_down_animation@,
            CharacterDirection::Left => self.walk_left_animation@,
            CharacterDirection::Right => self.walk_right_animation@,
        }
    }

    /// Every walking animation has a frame, counted by `u32`.
    pub open spec fn wf(self) -> bool {
        forall|d: CharacterDirection| 0 < #[trigger] self.frames(d).len() <= u32::MAX
    }
}

fn copy_frames(v: &Vec<usize>) -> (r: Vec<usize>)
    ensures
        r@ == v@,
{
    let mut r: Vec<usize> = Vec::new();
    let mut i: usize = 0;
    while i < v.len()
        invariant
            i <= v@.len(),
            r@ == v@.subrange(0, i as int),
        decreases v@.len() - i,
    {
        r.push(v[i]);
        i = i + 1;
    }
    r
}

/// Keeps the sprite animation of a character in step with its facing.
pub struct CharacterAnimationSystem;

impl CharacterAnimationSystem {
    /// When the facing state differs from the one last seen, the animation
    /// for the new direction starts from its first frame, paused unless the
    /// character moves. When it is the same nothing changes, so a running
    /// animation is not restarted.
    pub fn run(
        &mut self,
        character_animation: &mut CharacterAnimation,
        character_meta: &CharacterMeta,
        sprite_animation: &mut SpriteAnimation,
    )
        requires
            old(character_animation).wf(),
        ensures
            final(character_animation).wf(),
            old(sprite_animation).wf() ==> final(sprite_animation).wf(),
            final(character_animation).prev_character_meta == *character_meta,
            forall|d: CharacterDirection|
                #[trigger] final(character_animation).frames(d) == old(character_animation).frames(d),
            old(character_animation).prev_character_meta == *character_meta ==> {
                &&& final(sprite_animation).index == old(sprite_animation).index
                &&& final(sprite_animation).keys@ == old(sprite_animation).keys@
                &&& final(sprite_animation).pause == old(sprite_animation).pause
                &&& final(sprite_animation).time == old(sprite_animation).time
                &&& final(sprite_animation).speed == old(sprite_animation).speed
            },
            old(character_animation).prev_character_meta != *character_meta ==> {
                &&& final(sprite_animation).index == 0
                &&& final(sprite_animation).keys@ == old(character_animation).frames(
                    character_meta.direction,
                )
                &&& final(sprite_animation).pause == !character_meta.moving
                &&& final(sprite_animation).time == old(sprite_animation).time
                &&& final(sprite_animation).speed == old(sprite_animation).speed
            },
    {
        if character_animation.prev_character_meta != *character_meta {
            character_animation.prev_character_meta = *character_meta;
            let new_animation = match character_meta.direction {
                CharacterDirection::Up => copy_frames(&character_animation.walk_up_animation),
                CharacterDirection::Down => copy_frames(&character_animation.walk_down_animation),
                CharacterDirection::Left => copy_frames(&character_animation.walk_left_animation),
                CharacterDirection::Right => copy_frames(&character_animation.walk_right_animation),
            };
            sprite_animation.index = 0;
            sprite_animation.keys = new_animation;
            sprite_animation.pause = !character_meta.moving;
            assert(0 < old(character_animation).frames(character_meta.direction).len() <= u32::MAX);
        }
        assert forall|d: CharacterDirection|
            0 < #[trigger] character_animation.frames(d).len() <= u32::MAX by {
            assert(old(character_animation).frames(d) == character_animation.frames(d));
        }
    }
}

} // verus!
