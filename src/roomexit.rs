//! Requests to leave the room through an exit.

use vstd::prelude::*;
use crate::damage::ProximityEvent;
use crate::events::{EventChannel, ReaderId};
use crate::map::Coordinate;
use crate::room::DestRoom;

verus! {

/// A request to move to the room an exit leads to, with the cell where the
/// player appears there.
#[derive(Clone, Copy, Debug, PartialEq, Eq)]
pub struct PerformRoomExit(pub DestRoom, pub (i32, i32));

impl PerformRoomExit {
    /// The coordinate of the room to enter, seen from room `current`, and
    /// the spawn cell.
    pub fn destination(&self, current: Coordinate) -> (r: (Coordinate, (i32, i32)))
        requires
            self.0.resolvable(current),
        ensures
            r.0.0 == self.0.target(current).0,
            r.0.1 == self.0.target(current).1,
            r.1 == self.1,
    {
        (self.0.to_absolute_coordinates(current), self.1)
    }
}

/// The exit touched by `entity`, if it is one.
pub open spec fn exit_of(exits: Seq<Option<DestRoom>>, entity: u32) -> Option<DestRoom> {
    if entity < exits.len() {
        exits[entity as int]
    } else {
        None
    }
}

/// The request standing after the events, starting from `pending`: each
/// collider of each event that is an exit replaces it.
pub open spec fn exit_request(
    exits: Seq<Option<DestRoom>>,
    events: Seq<ProximityEvent>,
    pending: Option<(DestRoom, (i32, i32))>,
) -> Option<(DestRoom, (i32, i32))>
    decreases events.len(),
{
    if events.len() == 0 {
        pending
    } else {
        let before = exit_request(exits, events.drop_last(), pending);
        let e = events.last();
        let after_first = match exit_of(exits, e.collider1) {
            Some(d) => Some((d, d.spawn())),
            None => before,
        };
        match exit_of(exits, e.collider2) {
            Some(d) => Some((d, d.spawn())),
            None => after_first,
        }
    }
}

pub open spec fn request_view(r: Option<PerformRoomExit>) -> Option<(DestRoom, (i32, i32))> {
    match r {
        Some(p) => Some((p.0, p.1)),
        None => None,
    }
}

fn exit_at(exits: &Vec<Option<DestRoom>>, entity: u32) -> (r: Option<DestRoom>)
    ensures
        r == exit_of(exits@, entity),
{
    if (entity as usize) < exits.len() {
        exits[entity as usize]
    } else {
        None
    }
}

/// Watches proximity events for entities that are exits.
pub struct RoomExitSystem {
    reader: ReaderId,
}

impl RoomExitSystem {
    pub closed spec fn reader(self) -> ReaderId {
        self.reader
    }

    /// Reads the events written from now on.
    pub fn new(channel: &EventChannel<ProximityEvent>) -> (r: Self)
        ensures
            r.reader().position() == channel@.len(),
    {
        RoomExitSystem { reader: channel.register_reader() }
    }

    /// Reads the new events; for each collider that is an exit (`exits` by
    /// entity), a request to take it replaces the pending one.
    pub fn run(
        &mut self,
        channel: &EventChannel<ProximityEvent>,
        exits: &Vec<Option<DestRoom>>,
        perform_room_exit: &mut Option<PerformRoomExit>,
    )
        ensures
            final(self).reader().position() == channel@.len(),
            request_view(*final(perform_room_exit)) == exit_request(
                exits@,
                channel.unread_from(old(self).reader().position()),
                request_view(*old(perform_room_exit)),
            ),
    {
        let events = channel.read(&mut self.reader);
        let mut i: usize = 0;
        while i < events.len()
            invariant
                i <= events@.len(),
                request_view(*perform_room_exit) == exit_request(
                    exits@,
                    events@.subrange(0, i as int),
                    request_view(*old(perform_room_exit)),
                ),
            decreases events@.len() - i,
        {
            let e = events[i];
            proof {
                assert(events@.subrange(0, i + 1).drop_last() == events@.subrange(0, i as int));
            }
            if let Some(exit) = exit_at(exits, e.collider1) {
                *perform_room_exit = Some(PerformRoomExit(exit, exit.spawn_point()));
            }
            if let Some(exit) = exit_at(exits, e.collider2) {
                *perform_room_exit = Some(PerformRoomExit(exit, exit.spawn_point()));
            }
            i = i + 1;
        }
        assert(events@.subrange(0, events@.len() as int) == events@);
    }
}

} // verus!
