//! The event queue: a bounded, first-in-first-out buffer of typed events
//! between the transport callbacks and the ingestion consumer.

use vstd::prelude::*;
use crate::data::RawChatPayload;
use crate::data::RawLoginPayload;

verus! {

/// How many events the queue holds by default.
pub const MESSAGE_BUFFER_SIZE: usize = 64;

/// One event carried from a transport callback to the consumer.
#[derive(Debug)]
pub enum Event {
    /// A batch of raw chat payloads.
    Chat(Vec<RawChatPayload>),
    /// The transport lost its connection.
    Disconnect,
    /// A batch of raw login payloads.
    Login(Vec<RawLoginPayload>),
    /// The terminal sentinel: the consumer stops once it reads this.
    Terminate,
}

/// A bounded queue of events, delivered in the order they were accepted.
pub struct EventQueue {
    items: Vec<Event>,
    capacity: usize,
}

impl View for EventQueue {
    type V = Seq<Event>;

    closed spec fn view(&self) -> Seq<Event> {
        self.items@
    }
}

impl EventQueue {
    /// The queue's fixed capacity.
    pub closed spec fn spec_capacity(&self) -> nat {
        self.capacity as nat
    }

    /// The queue never holds more events than its capacity.
    pub closed spec fn wf(&self) -> bool {
        self.items@.len() <= self.capacity
    }

    /// Creates an empty queue of the given capacity.
    pub fn with_capacity(capacity: usize) -> (q: EventQueue)
        requires
            capacity >= 1,
        ensures
            q@ == Seq::<Event>::empty(),
            q.spec_capacity() == capacity,
            q.wf(),
    {
        EventQueue { items: Vec::new(), capacity }
    }

    /// Creates an empty queue of the default capacity.
    pub fn new() -> (q: EventQueue)
        ensures
            q@ == Seq::<Event>::empty(),
            q.spec_capacity() == MESSAGE_BUFFER_SIZE,
            q.wf(),
    {
        EventQueue::with_capacity(MESSAGE_BUFFER_SIZE)
    }

    /// How many events are queued.
    pub fn len(&self) -> (n: usize)
        ensures
            n == self@.len(),
    {
        self.items.len()
    }

    /// Appends an event when a slot is free; a full queue rejects the event
    /// and hands it back, leaving the queue unchanged.
    pub fn try_send(&mut self, event: Event) -> (r: Result<(), Event>)
        requires
            old(self).wf(),
        ensures
            final(self).wf(),
            final(self).spec_capacity() == old(self).spec_capacity(),
            old(self)@.len() < old(self).spec_capacity() ==> (r is Ok && final(self)@ == old(
                self,
            )@.push(event)),
            old(self)@.len() >= old(self).spec_capacity() ==> (r matches Err(e) && e == event
                && final(self)@ == old(self)@),
    {
        if self.items.len() < self.capacity {
            self.items.push(event);
            Ok(())
        } else {
            Err(event)
        }
    }

    /// Removes and returns the oldest event; an empty queue returns nothing.
    pub fn recv(&mut self) -> (r: Option<Event>)
        requires
            old(self).wf(),
        ensures
            final(self).wf(),
            final(self).spec_capacity() == old(self).spec_capacity(),
            old(self)@.len() == 0 ==> (r is None && final(self)@ == old(self)@),
            old(self)@.len() > 0 ==> (r matches Some(e) && e == old(self)@[0] && final(self)@
                == old(self)@.drop_first()),
    {
        if self.items.len() == 0 {
            None
        } else {
            let event = self.items.remove(0);
            proof {
                assert(self.items@ =~= old(self).items@.drop_first());
            }
            Some(event)
        }
    }
}

} // verus!
