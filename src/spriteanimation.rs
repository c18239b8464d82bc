//! Frame-by-frame sprite animation.

use vstd::prelude::*;

verus! {

/// The frames of an animation and where playback stands: `index` into
/// `keys`, time spent on the frame, and the time per frame (`speed`).
#[derive(Debug)]
pub struct SpriteAnimation {
    pub index: u32,
    pub keys: Vec<usize>,
    pub speed: u64,
    pub time: u64,
    pub pause: bool,
}

/// Number of frames passed when `t` has run on a frame at `speed` per frame:
/// one frame for each full `speed` while more than `speed` is left.
pub open spec fn frames_passed(t: int, speed: int) -> int
    decreases t,
{
    if speed > 0 && t > speed {
        1 + frames_passed(t - speed, speed)
    } else {
        0
    }
}

/// Frame index after `k` steps from `i` round `n` frames.
pub open spec fn index_after(i: int, k: int, n: int) -> int
    decreases k,
{
    if k <= 0 {
        i
    } else {
        (index_after(i, k - 1, n) + 1) % n
    }
}

impl SpriteAnimation {
    /// An animation at its first frame, playing.
    pub fn new(keys: Vec<usize>, speed: u64) -> (r: Self)
        ensures
            r.index == 0,
            r.keys@ == keys@,
            r.speed == speed,
            r.time == 0,
            !r.pause,
    {
        SpriteAnimation { index: 0, keys, speed, time: 0, pause: false }
    }

    /// At least one frame, frames counted by `u32`, the index on a frame,
    /// and a positive time per frame.
    pub open spec fn wf(self) -> bool {
        &&& 0 < self.keys@.len() <= u32::MAX
        &&& self.index < self.keys@.len()
        &&& self.speed > 0
    }

    /// Lets `dt` pass. Unless paused, the time grows by `dt`, and while it
    /// is more than `speed` the animation moves one frame on (round to the
    /// first) and `speed` is taken off. Returns the sprite of the new frame
    /// when the frame changed.
    pub fn advance(&mut self, dt: u64) -> (r: Option<usize>)
        requires
            old(self).wf(),
            old(self).time + dt <= u64::MAX,
        ensures
            final(self).wf(),
            final(self).keys@ == old(self).keys@,
            final(self).speed == old(self).speed,
            final(self).pause == old(self).pause,
            old(self).pause ==> final(self).index == old(self).index && final(self).time == old(
                self,
            ).time && r is None,
            !old(self).pause ==> {
                let t = old(self).time + dt;
                let k = frames_passed(t, old(self).speed as int);
                &&& final(self).time == t - k * old(self).speed
                &&& final(self).index == index_after(
                    old(self).index as int,
                    k,
                    old(self).keys@.len() as int,
                )
                &&& r == if k > 0 {
                    Some(old(self).keys@[final(self).index as int])
                } else {
                    None
                }
            },
    {
        if self.pause {
            return None;
        }
        let ghost t = self.time + dt;
        let ghost i0 = self.index as int;
        let n = self.keys.len() as u32;
        let mut sprite: Option<usize> = None;
        self.time = self.time + dt;
        let ghost mut k: int = 0;
        while self.time > self.speed
            invariant
                self.wf(),
                n == self.keys@.len(),
                self.keys@ == old(self).keys@,
                self.speed == old(self).speed,
                self.pause == old(self).pause,
                t == old(self).time + dt,
                0 <= k,
                self.time == t - k * self.speed,
                k + frames_passed(self.time as int, self.speed as int) == frames_passed(
                    t,
                    self.speed as int,
                ),
                self.index == index_after(i0, k, n as int),
                sprite == if k > 0 {
                    Some(self.keys@[self.index as int])
                } else {
                    None::<usize>
                },
            decreases self.time,
        {
            self.index = (self.index + 1) % n;
            sprite = Some(self.keys[self.index as usize]);
            self.time = self.time - self.speed;
            proof {
                k = k + 1;
                assert(t - k * self.speed == t - (k - 1) * self.speed - self.speed) by (nonlinear_arith);
            }
        }
        sprite
    }
}

impl Default for SpriteAnimation {
    /// No frames, stopped at the start.
    fn default() -> (r: Self)
        ensures
            r.index == 0,
            r.keys@.len() == 0,
            r.speed == 0,
            r.time == 0,
            !r.pause,
    {
        SpriteAnimation { index: 0, keys: Vec::new(), speed: 0, time: 0, pause: false }
    }
}

/// Plays sprite animations.
pub struct SpriteAnimationSystem;

impl SpriteAnimationSystem {
    /// One tick of `dt` for one animation; the sprite to show when the
    /// frame changed.
    pub fn run(&mut self, sprite_animation: &mut SpriteAnimation, dt: u64) -> (r: Option<usize>)
        requires
            old(sprite_animation).wf(),
            old(sprite_animation).time + dt <= u64::MAX,
        ensures
            final(sprite_animation).wf(),
            final(sprite_animation).keys@ == old(sprite_animation).keys@,
            final(sprite_animation).speed == old(sprite_animation).speed,
            final(sprite_animation).pause == old(sprite_animation).pause,
            old(sprite_animation).pause ==> final(sprite_animation).index == old(
                sprite_animation,
            ).index && final(sprite_animation).time == old(sprite_animation).time && r is None,
            !old(sprite_animation).pause ==> {
                let t = old(sprite_animation).time + dt;
                let k = frames_passed(t, old(sprite_animation).speed as int);
                &&& final(sprite_animation).time == t - k * old(sprite_animation).speed
                &&& final(sprite_animation).index == index_after(
                    old(sprite_animation).index as int,
                    k,
                    old(sprite_animation).keys@.len() as int,
                )
                &&& r == if k > 0 {
                    Some(old(sprite_animation).keys@[final(sprite_animation).index as int])
                } else {
                    None
                }
            },
    {
        sprite_animation.advance(dt)
    }
}

} // verus!
