//! The event ring: the bounded transport between the classifier and the
//! poller, modelled at record granularity.
//!
//! Reservations are fixed-size and committed whole, so the model holds
//! complete records. The ring is bounded: a submission to a full ring
//! fails and the record is dropped — the packet itself is never held up.

use vstd::prelude::*;
use crate::common::NetworkFlowEvent;

verus! {

/// A bounded first-in-first-out ring of event records.
pub struct EventRing {
    items: Vec<NetworkFlowEvent>,
    capacity: usize,
}

impl EventRing {
    /// The records in the ring, oldest first.
    pub closed spec fn view(&self) -> Seq<NetworkFlowEvent> {
        self.items@
    }

    /// The most records the ring can hold.
    pub closed spec fn cap(&self) -> int {
        self.capacity as int
    }

    /// The ring never holds more than its capacity.
    pub closed spec fn wf(&self) -> bool {
        self.items@.len() <= self.capacity
    }

    /// A new empty ring of the given capacity, in records.
    pub fn new(capacity: usize) -> (r: Self)
        requires
            capacity >= 1,
        ensures
            r.wf(),
            r.view() == Seq::<NetworkFlowEvent>::empty(),
            r.cap() == capacity,
    {
        EventRing { items: Vec::new(), capacity }
    }

    /// How many records sit in the ring.
    pub fn len(&self) -> (r: usize)
        ensures
            r == self.view().len(),
    {
        self.items.len()
    }

    /// Try to submit a record: appended when there is room, dropped when
    /// the ring is full. A full ring applies no back-pressure; the
    /// submission simply fails.
    pub fn try_push(&mut self, ev: NetworkFlowEvent) -> (r: bool)
        requires
            old(self).wf(),
        ensures
            final(self).wf(),
            final(self).cap() == old(self).cap(),
            r == (old(self).view().len() < old(self).cap()),
            r ==> final(self).view() == old(self).view().push(ev),
            !r ==> final(self).view() == old(self).view(),
    {
        if self.items.len() < self.capacity {
            self.items.push(ev);
            true
        } else {
            false
        }
    }

    /// Take the oldest record out of the ring, if any.
    pub fn pop(&mut self) -> (r: Option<NetworkFlowEvent>)
        requires
            old(self).wf(),
        ensures
            final(self).wf(),
            final(self).cap() == old(self).cap(),
            match r {
                Some(ev) => old(self).view().len() > 0 && ev == old(self).view()[0]
                    && final(self).view() == old(self).view().drop_first(),
                None => old(self).view().len() == 0 && final(self).view() == old(self).view(),
            },
    {
        if self.items.len() == 0 {
            None
        } else {
            let ev = self.items.remove(0);
            proof {
                assert(self.items@ =~= old(self).items@.drop_first());
            }
            Some(ev)
        }
    }

    /// Drain up to `max` records, oldest first, in submission order.
    pub fn drain(&mut self, max: usize) -> (r: Vec<NetworkFlowEvent>)
        requires
            old(self).wf(),
        ensures
            final(self).wf(),
            final(self).cap() == old(self).cap(),
            r@.len() == if old(self).view().len() <= max {
                old(self).view().len() as int
            } else {
                max as int
            },
            r@ == old(self).view().subrange(0, r@.len() as int),
            final(self).view() == old(self).view().subrange(
                r@.len() as int,
                old(self).view().len() as int,
            ),
    {
        let mut r: Vec<NetworkFlowEvent> = Vec::new();
        while r.len() < max && self.items.len() > 0
            invariant
                self.wf(),
                self.cap() == old(self).cap(),
                r@.len() <= max,
                r@.len() <= old(self).view().len(),
                self.view().len() == old(self).view().len() - r@.len(),
                r@ == old(self).view().subrange(0, r@.len() as int),
                self.view() == old(self).view().subrange(
                    r@.len() as int,
                    old(self).view().len() as int,
                ),
            decreases max - r@.len(),
        {
            let ev = match self.pop() {
                Some(ev) => ev,
                None => {
                    proof {
                        assert(false);
                    }
                    return r;
                },
            };
            r.push(ev);
            proof {
                assert(r@ =~= old(self).view().subrange(0, r@.len() as int));
                assert(self.view() =~= old(self).view().subrange(
                    r@.len() as int,
                    old(self).view().len() as int,
                ));
            }
        }
        r
    }
}

} // verus!
