//! The event bridge between the hotkey source and the state machine.

use vstd::prelude::*;

use crate::lifecycle::Event;

verus! {

/// Decouples the hotkey source's delivery context from the state
/// machine's scheduling context.  Events queue in arrival order; the
/// machine's context polls without blocking.  The view is the exact
/// sequence of pending events, oldest first: an event is delivered at
/// most once, none is silently dropped, and order is kept.  The
/// capacity is fixed at creation and sized for realistic event rates;
/// offering to a full bridge is a programmer error, ruled out by
/// [`EventBridge::offer`]'s precondition.
#[derive(Debug)]
pub struct EventBridge {
    queue: Vec<Event>,
    capacity: usize,
}

impl View for EventBridge {
    type V = Seq<Event>;

    closed spec fn view(&self) -> Seq<Event> {
        self.queue@
    }
}

impl EventBridge {
    /// How many events the bridge can hold.
    pub closed spec fn spec_capacity(self) -> usize {
        self.capacity
    }

    /// An empty bridge holding up to `capacity` events.
    pub fn new(capacity: usize) -> (b: EventBridge)
        ensures
            b@ =~= Seq::<Event>::empty(),
            b.spec_capacity() == capacity,
    {
        EventBridge { queue: Vec::new(), capacity }
    }

    /// Whether another event can be offered right now.
    pub fn has_room(&self) -> (r: bool)
        ensures
            r == (self@.len() < self.spec_capacity()),
    {
        self.queue.len() < self.capacity
    }

    /// Queue one event behind the pending ones.
    pub fn offer(&mut self, event: Event)
        requires
            old(self)@.len() < old(self).spec_capacity(),
        ensures
            final(self)@ == old(self)@.push(event),
            final(self).spec_capacity() == old(self).spec_capacity(),
    {
        self.queue.push(event);
    }

    /// Take the oldest pending event, or `None` when nothing is
    /// pending.  Never blocks.
    pub fn poll(&mut self) -> (e: Option<Event>)
        ensures
            old(self)@.len() == 0 ==> e is None && final(self)@ == old(self)@,
            old(self)@.len() > 0 ==> e == Some(old(self)@[0]) && final(self)@ == old(
                self,
            )@.drop_first(),
            final(self).spec_capacity() == old(self).spec_capacity(),
    {
        if self.queue.len() == 0 {
            None
        } else {
            let ghost pre: Seq<Event> = self.queue@;
            let e = self.queue.remove(0);
            proof {
                assert(self.queue@ =~= pre.drop_first());
            }
            Some(e)
        }
    }
}

} // verus!
