//! An append-only event log read through independent cursors.

use vstd::prelude::*;

verus! {

/// Events in the order they were written.
pub struct EventChannel<T> {
    events: Vec<T>,
}

/// The position of one reader in a channel: every event before it has
/// been read by that reader.
#[derive(Clone, Copy, Debug, PartialEq, Eq, Structural)]
pub struct ReaderId {
    cursor: usize,
}

impl ReaderId {
    pub closed spec fn position(self) -> nat {
        self.cursor as nat
    }
}

impl<T: Copy> EventChannel<T> {
    /// The events written so far.
    pub closed spec fn view(&self) -> Seq<T> {
        self.events@
    }

    pub fn new() -> (r: Self)
        ensures
            r@ == Seq::<T>::empty(),
    {
        EventChannel { events: Vec::new() }
    }

    /// Appends one event.
    pub fn single_write(&mut self, event: T)
        ensures
            final(self)@ == old(self)@.push(event),
    {
        self.events.push(event);
    }

    /// Number of events written so far.
    pub fn len(&self) -> (r: usize)
        ensures
            r == self@.len(),
    {
        self.events.len()
    }

    /// A reader that sees the events written from now on.
    pub fn register_reader(&self) -> (r: ReaderId)
        ensures
            r.position() == self@.len(),
    {
        ReaderId { cursor: self.events.len() }
    }

    /// The events after `position`, or none when it lies beyond the end.
    pub open spec fn unread_from(self, position: nat) -> Seq<T> {
        if position <= self@.len() {
            self@.subrange(position as int, self@.len() as int)
        } else {
            Seq::empty()
        }
    }

    /// Number of events this reader has not seen yet.
    pub fn unread(&self, reader: &ReaderId) -> (r: usize)
        ensures
            r == self.unread_from(reader.position()).len(),
    {
        if reader.cursor <= self.events.len() {
            self.events.len() - reader.cursor
        } else {
            0
        }
    }

    /// The events this reader has not seen yet, in order; the reader then
    /// stands at the end.
    pub fn read(&self, reader: &mut ReaderId) -> (r: Vec<T>)
        ensures
            r@ == self.unread_from(old(reader).position()),
            final(reader).position() == self@.len(),
    {
        let mut r: Vec<T> = Vec::new();
        if reader.cursor > self.events.len() {
            reader.cursor = self.events.len();
            return r;
        }
        let mut i: usize = reader.cursor;
        while i < self.events.len()
            invariant
                reader.cursor <= i <= self@.len(),
                r@ == self@.subrange(reader.cursor as int, i as int),
            decreases self@.len() - i,
        {
            r.push(self.events[i]);
            i = i + 1;
        }
        reader.cursor = i;
        r
    }
}

} // verus!
