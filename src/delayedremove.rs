//! Removal of an entity once a given time has passed.

use vstd::prelude::*;

verus! {

/// Time lived so far and the time after which the entity goes.
#[derive(Clone, Copy, Debug, PartialEq, Eq, Structural)]
pub struct DelayedRemove {
    pub current: u64,
    pub end: u64,
}

impl DelayedRemove {
    /// Removal after `end` milliseconds.
    pub fn new(end: u64) -> (r: Self)
        ensures
            r == (DelayedRemove { current: 0, end }),
    {
        DelayedRemove { current: 0, end }
    }

    /// Lets `dt` pass; true once the time lived strictly exceeds `end`.
    pub fn tick(&mut self, dt: u64) -> (expired: bool)
        requires
            old(self).current + dt <= u64::MAX,
        ensures
            final(self).current == old(self).current + dt,
            final(self).end == old(self).end,
            expired == (final(self).current > final(self).end),
    {
        self.current = self.current + dt;
        self.current > self.end
    }
}

/// The entities, in order, whose time lived exceeds their end once `dt`
/// has passed.
pub open spec fn expired_entities(timers: Seq<(u32, DelayedRemove)>, dt: int) -> Seq<u32>
    decreases timers.len(),
{
    if timers.len() == 0 {
        Seq::empty()
    } else {
        let before = expired_entities(timers.drop_last(), dt);
        let t = timers.last();
        if t.1.current + dt > t.1.end {
            before.push(t.0)
        } else {
            before
        }
    }
}

/// Advances every delayed removal.
pub struct DelayedRemoveSystem;

impl DelayedRemoveSystem {
    /// Lets `dt` pass for each `(entity, timer)` and returns the entities
    /// whose time is up, in order.
    pub fn run(&mut self, timers: &mut Vec<(u32, DelayedRemove)>, dt: u64) -> (removed: Vec<u32>)
        requires
            forall|i: int| 0 <= i < old(timers)@.len() ==> #[trigger] old(timers)@[i].1.current + dt <= u64::MAX,
        ensures
            final(timers)@.len() == old(timers)@.len(),
            forall|i: int|
                0 <= i < old(timers)@.len() ==> #[trigger] final(timers)@[i] == (
                old(timers)@[i].0,
                DelayedRemove {
                    current: (old(timers)@[i].1.current + dt) as u64,
                    end: old(timers)@[i].1.end,
                },
            ),
            removed@ == expired_entities(old(timers)@, dt as int),
    {
        let ghost start = timers@;
        let mut removed: Vec<u32> = Vec::new();
        let mut i: usize = 0;
        while i < timers.len()
            invariant
                timers@.len() == start.len(),
                i <= start.len(),
                forall|k: int| 0 <= k < start.len() ==> #[trigger] start[k].1.current + dt <= u64::MAX,
                forall|k: int|
                    0 <= k < i ==> #[trigger] timers@[k] == (
                    start[k].0,
                    DelayedRemove { current: (start[k].1.current + dt) as u64, end: start[k].1.end },
                ),
                forall|k: int| i <= k < start.len() ==> #[trigger] timers@[k] == start[k],
                removed@ == expired_entities(start.subrange(0, i as int), dt as int),
            decreases start.len() - i,
        {
            let (entity, mut timer) = timers[i];
            assert(start[i as int].1.current + dt <= u64::MAX);
            let expired = timer.tick(dt);
            timers.set(i, (entity, timer));
            proof {
                assert(start.subrange(0, i + 1).drop_last() == start.subrange(0, i as int));
            }
            if expired {
                removed.push(entity);
            }
            i = i + 1;
        }
        assert(start.subrange(0, start.len() as int) == start);
        removed
    }
}

} // verus!
