//! Damage: destroyers lower the health of the destroyables they touch.

use vstd::prelude::*;
use crate::events::{EventChannel, ReaderId};

verus! {

/// Largest magnitude of a health value accepted by a damage pass.
pub const HEALTH_LIMIT: i64 = 1099511627776;

/// Largest damage of a destroyer.
pub const DAMAGE_LIMIT: i64 = 1048576;

/// Most events in one damage pass.
pub const EVENT_LIMIT: usize = 65536;

/// Lowers the health of destroyables it touches by `damage`.
#[derive(Clone, Copy, Debug, PartialEq, Eq, Structural)]
pub struct Destroyer {
    pub damage: i64,
}

/// Removed once its health drops below zero.
#[derive(Clone, Copy, Debug, PartialEq, Eq, Structural)]
pub struct Destroyable {
    pub health: i64,
}

/// Two entities whose shapes touch.
#[derive(Clone, Copy, Debug, PartialEq, Eq, Structural)]
pub struct ProximityEvent {
    pub collider1: u32,
    pub collider2: u32,
}

/// `target` is hit by `source`, if the first is destroyable and the second
/// a destroyer: the health drops by the damage, and the target is listed
/// for removal when its health falls below zero.
pub open spec fn strike(
    healths: Seq<Option<Destroyable>>,
    destroyers: Seq<Option<Destroyer>>,
    target: u32,
    source: u32,
) -> (Seq<Option<Destroyable>>, Seq<u32>) {
    if target < healths.len() && healths[target as int] is Some && source < destroyers.len()
        && destroyers[source as int] is Some {
        let h = healths[target as int]->Some_0.health - destroyers[source as int]->Some_0.damage;
        (
            healths.update(target as int, Some(Destroyable { health: h as i64 })),
            if h < 0 {
                seq![target]
            } else {
                Seq::empty()
            },
        )
    } else {
        (healths, Seq::empty())
    }
}

/// One event: the first collider is struck by the second, then the second
/// by the first.
pub open spec fn apply_event(
    healths: Seq<Option<Destroyable>>,
    destroyers: Seq<Option<Destroyer>>,
    e: ProximityEvent,
) -> (Seq<Option<Destroyable>>, Seq<u32>) {
    let first = strike(healths, destroyers, e.collider1, e.collider2);
    let second = strike(first.0, destroyers, e.collider2, e.collider1);
    (second.0, first.1 + second.1)
}

/// The events in order: the healths after them and the entities to remove,
/// in the order of the hits that took them below zero.
pub open spec fn apply_events(
    healths: Seq<Option<Destroyable>>,
    destroyers: Seq<Option<Destroyer>>,
    events: Seq<ProximityEvent>,
) -> (Seq<Option<Destroyable>>, Seq<u32>)
    decreases events.len(),
{
    if events.len() == 0 {
        (healths, Seq::empty())
    } else {
        let before = apply_events(healths, destroyers, events.drop_last());
        let last = apply_event(before.0, destroyers, events.last());
        (last.0, before.1 + last.1)
    }
}

/// Every health at least `low` and at most `HEALTH_LIMIT`.
pub open spec fn healths_within(healths: Seq<Option<Destroyable>>, low: int) -> bool {
    forall|i: int|
        0 <= i < healths.len() && #[trigger] healths[i] is Some ==> low <= healths[i]->Some_0.health
            <= HEALTH_LIMIT
}

/// Every damage between zero and `DAMAGE_LIMIT`.
pub open spec fn damages_within(destroyers: Seq<Option<Destroyer>>) -> bool {
    forall|i: int|
        0 <= i < destroyers.len() && #[trigger] destroyers[i] is Some ==> 0
            <= destroyers[i]->Some_0.damage <= DAMAGE_LIMIT
}

/// Applies one strike to the stored healths.
fn strike_in_place(
    healths: &mut Vec<Option<Destroyable>>,
    destroyers: &Vec<Option<Destroyer>>,
    target: u32,
    source: u32,
    removed: &mut Vec<u32>,
    Ghost(low): Ghost<int>,
)
    requires
        healths_within(old(healths)@, low),
        low >= -HEALTH_LIMIT - 2 * EVENT_LIMIT * DAMAGE_LIMIT,
        damages_within(destroyers@),
    ensures
        final(healths)@ == strike(old(healths)@, destroyers@, target, source).0,
        final(removed)@ == old(removed)@ + strike(old(healths)@, destroyers@, target, source).1,
        healths_within(final(healths)@, low - DAMAGE_LIMIT),
{
    if (target as usize) < healths.len() && (source as usize) < destroyers.len() {
        if let Some(d) = healths[target as usize] {
            if let Some(s) = destroyers[source as usize] {
                assert(healths@[target as int] is Some);
                assert(destroyers@[source as int] is Some);
                let h = d.health - s.damage;
                healths.set(target as usize, Some(Destroyable { health: h }));
                if h < 0 {
                    removed.push(target);
                }
                assert(removed@ =~= old(removed)@ + strike(old(healths)@, destroyers@, target, source).1);
                return ;
            }
        }
    }
    assert(removed@ =~= old(removed)@ + Seq::<u32>::empty());
}

/// Applies hits reported by proximity events.
pub struct DestroySystem {
    reader: Option<ReaderId>,
}

impl DestroySystem {
    pub closed spec fn reader(self) -> Option<ReaderId> {
        self.reader
    }

    /// Damage applied for a list of events, with no channel: see `run`.
    pub fn apply(
        healths: &mut Vec<Option<Destroyable>>,
        destroyers: &Vec<Option<Destroyer>>,
        events: &Vec<ProximityEvent>,
    ) -> (removed: Vec<u32>)
        requires
            healths_within(old(healths)@, -HEALTH_LIMIT),
            damages_within(destroyers@),
            events@.len() <= EVENT_LIMIT,
        ensures
            final(healths)@ == apply_events(old(healths)@, destroyers@, events@).0,
            removed@ == apply_events(old(healths)@, destroyers@, events@).1,
    {
        let mut removed: Vec<u32> = Vec::new();
        let mut i: usize = 0;
        while i < events.len()
            invariant
                i <= events@.len(),
                events@.len() <= EVENT_LIMIT,
                damages_within(destroyers@),
                healths_within(healths@, -HEALTH_LIMIT - 2 * i * DAMAGE_LIMIT),
                healths@ == apply_events(old(healths)@, destroyers@, events@.subrange(0, i as int)).0,
                removed@ == apply_events(old(healths)@, destroyers@, events@.subrange(0, i as int)).1,
            decreases events@.len() - i,
        {
            let e = events[i];
            proof {
                assert(2 * i * DAMAGE_LIMIT <= 2 * EVENT_LIMIT * DAMAGE_LIMIT) by (nonlinear_arith)
                    requires
                        i <= EVENT_LIMIT,
                ;
                assert(2 * (i + 1) * DAMAGE_LIMIT == 2 * i * DAMAGE_LIMIT + 2 * DAMAGE_LIMIT) by (nonlinear_arith);
                assert(events@.subrange(0, i + 1).drop_last() == events@.subrange(0, i as int));
            }
            strike_in_place(
                healths,
                destroyers,
                e.collider1,
                e.collider2,
                &mut removed,
                Ghost(-HEALTH_LIMIT - 2 * i * DAMAGE_LIMIT),
            );
            strike_in_place(
                healths,
                destroyers,
                e.collider2,
                e.collider1,
                &mut removed,
                Ghost(-HEALTH_LIMIT - 2 * i * DAMAGE_LIMIT - DAMAGE_LIMIT),
            );
            proof {
                let before = apply_events(old(healths)@, destroyers@, events@.subrange(0, i as int));
                let first = strike(before.0, destroyers@, e.collider1, e.collider2);
                let second = strike(first.0, destroyers@, e.collider2, e.collider1);
                assert(removed@ == before.1 + first.1 + second.1);
                assert(before.1 + first.1 + second.1 == before.1 + (first.1 + second.1));
            }
            i = i + 1;
        }
        assert(events@.subrange(0, events@.len() as int) == events@);
        removed
    }

    /// The events the next run will read.
    pub open spec fn pending(self, channel: EventChannel<ProximityEvent>) -> Seq<ProximityEvent> {
        match self.reader() {
            Some(r) => channel.unread_from(r.position()),
            None => Seq::empty(),
        }
    }

    /// Number of events the next run will read.
    pub fn unread(&self, channel: &EventChannel<ProximityEvent>) -> (r: usize)
        ensures
            r == self.pending(*channel).len(),
    {
        match &self.reader {
            Some(reader) => channel.unread(reader),
            None => 0,
        }
    }

    /// Reads the events this system has not seen yet and applies their hits
    /// to the stored healths. On the first run the system registers as a
    /// reader, so it sees the events written after that. Returns the
    /// entities to remove.
    pub fn run(
        &mut self,
        channel: &EventChannel<ProximityEvent>,
        healths: &mut Vec<Option<Destroyable>>,
        destroyers: &Vec<Option<Destroyer>>,
    ) -> (removed: Vec<u32>)
        requires
            old(self).pending(*channel).len() <= EVENT_LIMIT,
            healths_within(old(healths)@, -HEALTH_LIMIT),
            damages_within(destroyers@),
        ensures
            final(self).reader() matches Some(r) && r.position() == channel@.len(),
            final(healths)@ == apply_events(old(healths)@, destroyers@, old(self).pending(*channel)).0,
            removed@ == apply_events(old(healths)@, destroyers@, old(self).pending(*channel)).1,
    {
        let mut reader = match self.reader {
            Some(r) => r,
            None => channel.register_reader(),
        };
        let events = channel.read(&mut reader);
        self.reader = Some(reader);
        DestroySystem::apply(healths, destroyers, &events)
    }
}

impl Default for DestroySystem {
    /// Ready to read the events written from its first run on.
    fn default() -> (r: Self)
        ensures
            r.reader() is None,
    {
        DestroySystem { reader: None }
    }
}

} // verus!
