//! Injection events on their way to the motion loop.
//!
//! A button, key or wheel event is a call into the system that can block.
//! So the control loop only queues it, and the motion loop executes it on
//! its own cadence, right after placing the cursor.
use vstd::prelude::*;

use crate::protocol::KeyKind;

verus! {

/// How many events the queue may hold before the newest is dropped.
/// Dropping input is preferable to freezing the machine.
pub const EVENT_QUEUE_CAP: usize = 512;

/// One queued injection event.
#[derive(Debug, Clone, Copy, PartialEq, Eq, Structural)]
pub enum InjectEvent {
    Button { button: u8, pressed: bool },
    Wheel { dx: i32, dy: i32 },
    Key { kind: KeyKind, key: u32 },
}

/// The queue with one more event, if there is room.
pub open spec fn queued(q: Seq<InjectEvent>, e: InjectEvent) -> Seq<InjectEvent> {
    if q.len() < EVENT_QUEUE_CAP {
        q.push(e)
    } else {
        q
    }
}

/// The queue after several events.
pub open spec fn queued_all(q: Seq<InjectEvent>, es: Seq<InjectEvent>) -> Seq<InjectEvent>
    decreases es.len(),
{
    if es.len() == 0 {
        q
    } else {
        queued(queued_all(q, es.drop_last()), es.last())
    }
}

/// The bounded queue.
#[derive(Debug)]
pub struct EventQueue {
    events: Vec<InjectEvent>,
}

impl View for EventQueue {
    type V = Seq<InjectEvent>;

    closed spec fn view(&self) -> Seq<InjectEvent> {
        self.events@
    }
}

impl EventQueue {
    /// The queue holds at most [`EVENT_QUEUE_CAP`] events.
    pub open spec fn wf(self) -> bool {
        self@.len() <= EVENT_QUEUE_CAP
    }

    /// An empty queue.
    pub fn new() -> (r: Self)
        ensures
            r.wf(),
            r@ == Seq::<InjectEvent>::empty(),
    {
        EventQueue { events: Vec::new() }
    }

    /// Queue one event for the motion loop. When the queue is full the
    /// event is dropped: the motion loop is wedged, and the recovery
    /// restarts the session anyway.
    pub fn enqueue_event(&mut self, event: InjectEvent)
        requires
            old(self).wf(),
        ensures
            final(self).wf(),
            final(self)@ == queued(old(self)@, event),
    {
        if self.events.len() < EVENT_QUEUE_CAP {
            self.events.push(event);
        }
    }

    /// Take every queued event out, in order, to be executed.
    pub fn drain_events(&mut self) -> (r: Vec<InjectEvent>)
        ensures
            final(self).wf(),
            r@ == old(self)@,
            final(self)@ == Seq::<InjectEvent>::empty(),
    {
        let mut out: Vec<InjectEvent> = Vec::new();
        out.append(&mut self.events);
        assert(out@ =~= old(self)@);
        out
    }
}

// ---------------------------------------------------------------------
// Laws
// ---------------------------------------------------------------------

/// Events execute in wire order: as long as the queue has room for them,
/// all of them come out, behind what was there and in the order in which
/// they arrived.
pub proof fn events_keep_their_order(q: Seq<InjectEvent>, es: Seq<InjectEvent>)
    requires
        q.len() + es.len() <= EVENT_QUEUE_CAP,
    ensures
        queued_all(q, es) == q + es,
    decreases es.len(),
{
    if es.len() > 0 {
        let init = es.drop_last();
        events_keep_their_order(q, init);
        assert((q + init).push(es.last()) =~= q + es);
    } else {
        assert(q + es =~= q);
    }
}

/// The queue never grows past its cap, and what is in it stays: a flood
/// can only cost the newest events.
pub proof fn a_flood_costs_only_the_newest(q: Seq<InjectEvent>, es: Seq<InjectEvent>)
    requires
        q.len() <= EVENT_QUEUE_CAP,
    ensures
        queued_all(q, es).len() <= EVENT_QUEUE_CAP,
        q.is_prefix_of(queued_all(q, es)),
        queued_all(q, es).is_prefix_of(q + es),
    decreases es.len(),
{
    if es.len() > 0 {
        let init = es.drop_last();
        a_flood_costs_only_the_newest(q, init);
        let before = queued_all(q, init);
        let after = queued_all(q, es);
        assert(before =~= (q + init).subrange(0, before.len() as int));
        assert(after.subrange(0, q.len() as int) =~= before.subrange(0, q.len() as int));
        if before.len() < EVENT_QUEUE_CAP {
            if before.len() < (q + init).len() {
                lemma_room_means_all(q, init);
            }
            assert(before =~= q + init);
            assert(after =~= (q + es).subrange(0, after.len() as int));
        } else {
            assert(after =~= (q + es).subrange(0, after.len() as int));
        }
    } else {
        assert(q + es =~= q);
        assert(q =~= q.subrange(0, q.len() as int));
    }
}

proof fn lemma_room_means_all(q: Seq<InjectEvent>, es: Seq<InjectEvent>)
    requires
        queued_all(q, es).len() < EVENT_QUEUE_CAP,
    ensures
        queued_all(q, es) == q + es,
    decreases es.len(),
{
    if es.len() > 0 {
        lemma_room_means_all(q, es.drop_last());
        assert((q + es.drop_last()).push(es.last()) =~= q + es);
    } else {
        assert(q + es =~= q);
    }
}

} // verus!
