use vstd::prelude::*;

use crate::events::BusEvent;

verus! {

/// The model of the bounded broadcast bus: the totally ordered log of
/// everything published, and the bound on how far a subscriber may trail
/// behind. Producers never block; a subscriber that trails by more than
/// `capacity` events loses the oldest ones and observes a lag signal.
pub struct EventBus {
    pub log: Vec<BusEvent>,
    pub capacity: usize,
}

/// One subscriber's cursor into the bus. `pos` is the log position of
/// the next event to take; `start` is the log length at subscription;
/// `taken` records the log index of every event the subscriber has
/// taken, in the order it took them.
pub struct BusReader {
    pub pos: usize,
    pub start: Ghost<int>,
    pub taken: Ghost<Seq<int>>,
}

/// What one receive attempt yields.
pub enum RecvOutcome {
    /// The next event, in publication order.
    Event(BusEvent),
    /// The subscriber trailed too far; the oldest unseen events are lost
    /// and the cursor catches up to the oldest retained one.
    Lagged,
    /// Nothing has been published past the cursor.
    Empty,
}

/// A subscriber's cursor is sound for the bus: it never passes the log,
/// it never looks before its subscription, and what it has taken are
/// log indices in strictly increasing order, all before the cursor and
/// none before the subscription.
pub open spec fn reader_wf(r: BusReader, bus: &EventBus) -> bool {
    &&& r.pos <= bus.log@.len()
    &&& 0 <= r.start@ <= r.pos
    &&& forall|k: int| 0 <= k < r.taken@.len() ==> r.start@ <= #[trigger] r.taken@[k] < r.pos
    &&& forall|k1: int, k2: int|
        0 <= k1 < k2 < r.taken@.len() ==> r.taken@[k1] < r.taken@[k2]
}

impl EventBus {
    /// A bus with the given capacity and nothing published.
    pub fn new(capacity: usize) -> (r: EventBus)
        requires
            capacity >= 1,
        ensures
            r.log@.len() == 0,
            r.capacity == capacity,
    {
        EventBus { log: Vec::new(), capacity }
    }

    /// Publishes one event. Publication never blocks and never fails;
    /// the event takes the next position of the log.
    pub fn publish(&mut self, e: BusEvent)
        ensures
            final(self).log@ == old(self).log@.push(e),
            final(self).capacity == old(self).capacity,
    {
        self.log.push(e);
    }

    /// A subscription made now: it yields only events published after
    /// this moment; there is no replay.
    pub fn subscribe(&self) -> (r: BusReader)
        ensures
            r.pos == self.log@.len(),
            r.start@ == self.log@.len(),
            r.taken@ == Seq::<int>::empty(),
            reader_wf(r, self),
    {
        BusReader {
            pos: self.log.len(),
            start: Ghost(self.log@.len() as int),
            taken: Ghost(Seq::empty()),
        }
    }

    /// Takes the subscriber's next event. With nothing new, yields
    /// `Empty`. When the subscriber trails by more than the capacity,
    /// yields `Lagged` and moves the cursor to the oldest retained
    /// event. Otherwise yields the event at the cursor and advances it.
    pub fn recv(&self, r: &mut BusReader) -> (out: RecvOutcome)
        requires
            reader_wf(*old(r), self),
        ensures
            reader_wf(*final(r), self),
            final(r).start@ == old(r).start@,
            old(r).pos <= final(r).pos,
            match out {
                RecvOutcome::Empty => {
                    &&& old(r).pos == self.log@.len()
                    &&& *final(r) == *old(r)
                },
                RecvOutcome::Lagged => {
                    &&& self.log@.len() - old(r).pos > self.capacity
                    &&& final(r).pos == self.log@.len() - self.capacity
                    &&& final(r).taken@ == old(r).taken@
                },
                RecvOutcome::Event(e) => {
                    &&& old(r).pos < self.log@.len()
                    &&& self.log@.len() - old(r).pos <= self.capacity
                    &&& e == self.log@[old(r).pos as int]
                    &&& final(r).pos == old(r).pos + 1
                    &&& final(r).taken@ == old(r).taken@.push(old(r).pos as int)
                },
            },
    {
        if r.pos == self.log.len() {
            return RecvOutcome::Empty;
        }
        if self.log.len() - r.pos > self.capacity {
            r.pos = self.log.len() - self.capacity;
            return RecvOutcome::Lagged;
        }
        let e = self.log[r.pos].clone();
        proof {
            r.taken@ = r.taken@.push(r.pos as int);
        }
        r.pos = r.pos + 1;
        RecvOutcome::Event(e)
    }
}

/// Publishing preserves every subscriber's soundness: the log only
/// grows, so an existing cursor stays valid.
pub proof fn lemma_publish_preserves_reader(r: BusReader, before: &EventBus, after: &EventBus)
    requires
        reader_wf(r, before),
        before.log@.len() <= after.log@.len(),
    ensures
        reader_wf(r, after),
{
}

/// Broadcast order is kept: a subscriber takes events at strictly
/// increasing log positions, so any two events it takes — in particular
/// two events of the same producer, which stand in the log in the order
/// they were emitted — are taken in publication order, never reversed.
pub proof fn lemma_fifo_per_producer(r: BusReader, bus: &EventBus, k1: int, k2: int)
    requires
        reader_wf(r, bus),
        0 <= k1 < k2 < r.taken@.len(),
    ensures
        r.taken@[k1] < r.taken@[k2],
{
}

/// No replay: a subscriber never takes an event published before it
/// subscribed.
pub proof fn lemma_no_replay(r: BusReader, bus: &EventBus, k: int)
    requires
        reader_wf(r, bus),
        0 <= k < r.taken@.len(),
    ensures
        r.taken@[k] >= r.start@,
{
}

} // verus!
