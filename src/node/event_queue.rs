//! A bounded first-in first-out queue of parameter updates, held in
//! `heapless::mpmc::MpMcQueue`.

use vstd::prelude::*;
use crate::id::Id;
use crate::node::error::Error;
use crate::value::Value;

verus! {

/// Number of events the queue holds.
pub const EVENT_QUEUE_CAPACITY: usize = 32;

/// A request from application code to change a parameter's value.
#[derive(Copy, Clone, PartialEq, Eq, Structural, Debug)]
pub struct Event {
    pub id: Id,
    pub value: Value,
}

impl Event {
    pub fn new(id: Id, value: Value) -> (r: Self)
        ensures
            r == (Event { id, value }),
    {
        Event { id, value }
    }
}

impl From<(Id, Value)> for Event {
    fn from(v: (Id, Value)) -> (r: Self) {
        Event { id: v.0, value: v.1 }
    }
}

impl vstd::std_specs::convert::FromSpecImpl<(Id, Value)> for Event {
    open spec fn obeys_from_spec() -> bool {
        true
    }

    open spec fn from_spec(v: (Id, Value)) -> Event {
        Event { id: v.0, value: v.1 }
    }
}

#[verifier::external_type_specification]
#[verifier::external_body]
#[verifier::reject_recursive_types(T)]
pub struct ExMpMcQueue<T, const N: usize>(heapless::mpmc::MpMcQueue<T, N>);

/// The events a queue holds, oldest first.
pub uninterp spec fn queued(q: heapless::mpmc::MpMcQueue<Event, EVENT_QUEUE_CAPACITY>) -> Seq<Event>;

/// Relies on `heapless::mpmc::MpMcQueue::new`: an empty queue.
#[verifier::external_body]
fn queue_new() -> (r: heapless::mpmc::MpMcQueue<Event, EVENT_QUEUE_CAPACITY>)
    ensures
        queued(r) == Seq::<Event>::empty(),
{
    heapless::mpmc::MpMcQueue::new()
}

/// Relies on `heapless::mpmc::MpMcQueue::enqueue`: adds the event at the
/// back when fewer than the capacity are queued, else hands it back and
/// leaves the queue as it was.
#[verifier::external_body]
fn queue_enqueue(q: &mut heapless::mpmc::MpMcQueue<Event, EVENT_QUEUE_CAPACITY>, e: Event) -> (r:
    Result<(), Event>)
    ensures
        queued(*old(q)).len() < EVENT_QUEUE_CAPACITY ==> r is Ok && queued(*final(q)) == queued(
            *old(q),
        ).push(e),
        queued(*old(q)).len() >= EVENT_QUEUE_CAPACITY ==> (r matches Err(x) && x == e) && queued(
            *final(q),
        ) == queued(*old(q)),
        queued(*final(q)).len() <= EVENT_QUEUE_CAPACITY,
{
    q.enqueue(e)
}

/// Relies on `heapless::mpmc::MpMcQueue::dequeue`: removes and returns the
/// oldest event.
#[verifier::external_body]
fn queue_dequeue(q: &mut heapless::mpmc::MpMcQueue<Event, EVENT_QUEUE_CAPACITY>) -> (r: Option<
    Event,
>)
    ensures
        queued(*old(q)).len() == 0 ==> r is None && queued(*final(q)) == queued(*old(q)),
        queued(*old(q)).len() > 0 ==> r == Some(queued(*old(q))[0]) && queued(*final(q))
            == queued(*old(q)).subrange(1, queued(*old(q)).len() as int),
{
    q.dequeue()
}

/// Enqueueing: the events afterwards, and the result.
pub open spec fn enqueue_spec(q: Seq<Event>, e: Event) -> (Result<(), Error>, Seq<Event>) {
    if q.len() < EVENT_QUEUE_CAPACITY {
        (Ok(()), q.push(e))
    } else {
        (Err(Error::Capacity), q)
    }
}

/// Dequeueing: the events afterwards, and the result.
pub open spec fn dequeue_spec(q: Seq<Event>) -> (Option<Event>, Seq<Event>) {
    if q.len() == 0 {
        (None, q)
    } else {
        (Some(q[0]), q.subrange(1, q.len() as int))
    }
}

/// A bounded queue of events, filled by application code and drained by the
/// main loop.
pub struct EventQueue {
    queue: heapless::mpmc::MpMcQueue<Event, EVENT_QUEUE_CAPACITY>,
}

impl View for EventQueue {
    type V = Seq<Event>;

    closed spec fn view(&self) -> Seq<Event> {
        queued(self.queue)
    }
}

impl EventQueue {
    pub fn new() -> (r: Self)
        ensures
            r@ == Seq::<Event>::empty(),
    {
        EventQueue { queue: queue_new() }
    }
}

/// Adds `event` at the back of the queue; `Capacity` when it is full.
pub fn enqueue_event(queue: &mut EventQueue, event: Event) -> (r: Result<(), Error>)
    ensures
        (r, final(queue)@) == enqueue_spec(old(queue)@, event),
{
    match queue_enqueue(&mut queue.queue, event) {
        Ok(()) => Ok(()),
        Err(_) => Err(Error::Capacity),
    }
}

/// Removes and returns the oldest event, if any.
pub fn dequeue_event(queue: &mut EventQueue) -> (r: Option<Event>)
    ensures
        (r, final(queue)@) == dequeue_spec(old(queue)@),
{
    queue_dequeue(&mut queue.queue)
}

/// Events leave an empty queue in the order they entered it.
pub proof fn lemma_event_order(e1: Event, e2: Event)
    ensures
        ({
            let q1 = enqueue_spec(Seq::empty(), e1);
            let q2 = enqueue_spec(q1.1, e2);
            let d1 = dequeue_spec(q2.1);
            let d2 = dequeue_spec(d1.1);
            q1.0 is Ok && q2.0 is Ok && d1.0 == Some(e1) && d2.0 == Some(e2) && d2.1.len() == 0
        }),
{
    let q2 = seq![e1, e2];
    assert(Seq::<Event>::empty().push(e1).push(e2) =~= q2);
    assert(q2.subrange(1, 2) =~= seq![e2]);
}

} // verus!
