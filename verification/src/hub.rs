//! The broadcast hub: single-producer, multi-consumer fan-out of events with
//! a bounded queue per consumer.
//!
//! Every publish appends the event to every registered consumer's queue; a
//! full queue drops its oldest event instead of blocking, and the consumer's
//! next read then yields an explicit lag signal before delivery resumes.
//!
//! Ghost state records the full publish history and, per consumer, the
//! publish indices of the events it was handed. The well-formedness
//! invariant ties the queues to the history, which yields the delivery
//! guarantees: events arrive in publish order ([`lemma_delivery_order`]) and
//! never from before the consumer subscribed
//! ([`lemma_no_retroactive_delivery`]).

use vstd::prelude::*;
use crate::models::{EventView, MessageEvent};

verus! {

/// How many events a consumer may have pending before it lags.
pub const HUB_CAPACITY: usize = 100;

/// One registered subscriber's side of the hub.
pub struct Consumer {
    /// The handle the hub knows this consumer by.
    pub id: u64,
    /// Undelivered events, oldest first.
    pub queue: Vec<MessageEvent>,
    /// Whether events were dropped since the last read.
    pub lagged: bool,
    /// Publish index at which this consumer subscribed.
    pub joined: Ghost<int>,
    /// Publish index of the oldest undelivered event.
    pub cursor: Ghost<int>,
    /// Publish indices of the events handed out so far, in delivery order.
    pub taken: Ghost<Seq<int>>,
}

/// The fan-out primitive: a publish history and the registered consumers.
pub struct Hub {
    pub consumers: Vec<Consumer>,
    pub next_id: u64,
    /// Every event ever published, in order.
    pub published: Ghost<Seq<EventView>>,
}

/// The mathematical value of a queue.
pub open spec fn queue_view(q: Seq<MessageEvent>) -> Seq<EventView> {
    q.map_values(|e: MessageEvent| e@)
}

/// The events a consumer has been handed, in delivery order.
pub open spec fn received(c: Consumer, history: Seq<EventView>) -> Seq<EventView> {
    Seq::new(c.taken@.len(), |k: int| history[c.taken@[k]])
}

pub open spec fn wf_consumer(c: Consumer, history: Seq<EventView>) -> bool {
    &&& 0 <= c.joined@ <= c.cursor@
    &&& c.cursor@ + c.queue@.len() == history.len()
    &&& queue_view(c.queue@) == history.skip(c.cursor@)
    &&& c.queue@.len() <= HUB_CAPACITY
    &&& forall|k: int| 0 <= k < c.taken@.len() ==> c.joined@ <= #[trigger] c.taken@[k] < c.cursor@
    &&& forall|k1: int, k2: int|
        0 <= k1 < k2 < c.taken@.len() ==> #[trigger] c.taken@[k1] < #[trigger] c.taken@[k2]
}

pub open spec fn has_consumer(cs: Seq<Consumer>, id: u64) -> bool {
    exists|i: int| 0 <= i < cs.len() && cs[i].id == id
}

pub open spec fn index_of(cs: Seq<Consumer>, id: u64) -> int {
    choose|i: int| 0 <= i < cs.len() && cs[i].id == id
}

/// How one publish changes one consumer: the event is appended; a full
/// queue first drops its oldest event and marks the lag.
pub open spec fn delivered_rel(
    oc: Consumer,
    nc: Consumer,
    history_before: Seq<EventView>,
    e: EventView,
) -> bool {
    &&& nc.id == oc.id
    &&& nc.joined == oc.joined
    &&& nc.taken == oc.taken
    &&& wf_consumer(nc, history_before.push(e))
    &&& if oc.queue@.len() < HUB_CAPACITY {
        &&& queue_view(nc.queue@) == queue_view(oc.queue@).push(e)
        &&& nc.lagged == oc.lagged
        &&& nc.cursor == oc.cursor
    } else {
        &&& queue_view(nc.queue@) == queue_view(oc.queue@).skip(1).push(e)
        &&& nc.lagged == true
        &&& nc.cursor@ == oc.cursor@ + 1
    }
}

/// What one read yields: an event, the lag signal, nothing pending, or an
/// unknown consumer handle.
pub enum ReadOutcome {
    Event(MessageEvent),
    Lagged,
    Empty,
    NotSubscribed,
}

impl Hub {
    pub open spec fn wf(self) -> bool {
        &&& forall|i: int|
            0 <= i < self.consumers@.len() ==> wf_consumer(
                #[trigger] self.consumers@[i],
                self.published@,
            )
        &&& forall|i: int, j: int|
            0 <= i < self.consumers@.len() && 0 <= j < self.consumers@.len() && i != j
                ==> #[trigger] self.consumers@[i].id != #[trigger] self.consumers@[j].id
        &&& forall|i: int|
            0 <= i < self.consumers@.len() ==> (#[trigger] self.consumers@[i]).id < self.next_id
    }

    /// A hub with no history and no consumers.
    pub fn new() -> (r: Hub)
        ensures
            r.wf(),
            r.consumers@.len() == 0,
            r.published@ == Seq::<EventView>::empty(),
            r.next_id == 0,
    {
        Hub { consumers: Vec::new(), next_id: 0, published: Ghost(Seq::empty()) }
    }

    /// Registers a new consumer with an empty queue. It sees only events
    /// published after this call. The id space is a machine limit: the
    /// counter must not have been exhausted.
    pub fn subscribe(&mut self) -> (id: u64)
        requires
            old(self).wf(),
            old(self).next_id < u64::MAX,
        ensures
            final(self).wf(),
            id == old(self).next_id,
            final(self).next_id == old(self).next_id + 1,
            final(self).published == old(self).published,
            final(self).consumers@.len() == old(self).consumers@.len() + 1,
            forall|j: int|
                0 <= j < old(self).consumers@.len() ==> final(self).consumers@[j] == old(
                    self,
                ).consumers@[j],
            final(self).consumers@.last().id == id,
            final(self).consumers@.last().queue@.len() == 0,
            final(self).consumers@.last().lagged == false,
            final(self).consumers@.last().joined@ == old(self).published@.len(),
            final(self).consumers@.last().cursor@ == old(self).published@.len(),
            final(self).consumers@.last().taken@ == Seq::<int>::empty(),
            has_consumer(final(self).consumers@, id),
    {
        let id = self.next_id;
        let c = Consumer {
            id,
            queue: Vec::new(),
            lagged: false,
            joined: Ghost(self.published@.len() as int),
            cursor: Ghost(self.published@.len() as int),
            taken: Ghost(Seq::empty()),
        };
        proof {
            assert(queue_view(c.queue@) =~= self.published@.skip(self.published@.len() as int));
        }
        self.consumers.push(c);
        self.next_id = self.next_id + 1;
        proof {
            assert(has_consumer(self.consumers@, id)) by {
                assert(self.consumers@[self.consumers@.len() - 1].id == id);
            }
        }
        id
    }

    /// Deregisters the consumer with this handle; unknown handles change
    /// nothing, so deregistering twice is harmless.
    pub fn unsubscribe(&mut self, id: u64)
        requires
            old(self).wf(),
        ensures
            final(self).wf(),
            final(self).published == old(self).published,
            final(self).next_id == old(self).next_id,
            !has_consumer(old(self).consumers@, id) ==> *final(self) == *old(self),
            has_consumer(old(self).consumers@, id) ==> final(self).consumers@ == old(
                self,
            ).consumers@.remove(index_of(old(self).consumers@, id)),
            !has_consumer(final(self).consumers@, id),
    {
        let n = self.consumers.len();
        let mut i: usize = 0;
        while i < n
            invariant
                old(self).wf(),
                i <= n,
                n == self.consumers@.len(),
                *self == *old(self),
                forall|j: int| 0 <= j < i ==> (#[trigger] self.consumers@[j]).id != id,
            decreases n - i,
        {
            if self.consumers[i].id == id {
                proof {
                    assert(has_consumer(self.consumers@, id)) by {
                        assert(self.consumers@[i as int].id == id);
                    }
                    let w = index_of(old(self).consumers@, id);
                    assert(0 <= w < self.consumers@.len() && self.consumers@[w].id == id);
                    assert(w == i as int);
                }
                self.consumers.remove(i);
                proof {
                    assert forall|j: int| 0 <= j < self.consumers@.len() implies !(
                    #[trigger] self.consumers@[j].id == id) by {
                        if j < i as int {
                            assert(self.consumers@[j] == old(self).consumers@[j]);
                        } else {
                            assert(self.consumers@[j] == old(self).consumers@[j + 1]);
                        }
                    }
                }
                return ;
            }
            i += 1;
        }
    }

    /// Delivers the event to every registered consumer: appended to each
    /// queue, displacing the oldest pending event (and marking the lag)
    /// where a queue is already full. Publishing never blocks and never
    /// fails; with no consumers the event is simply recorded as history.
    pub fn publish(&mut self, evt: &MessageEvent)
        requires
            old(self).wf(),
        ensures
            final(self).wf(),
            final(self).published@ == old(self).published@.push(evt@),
            final(self).next_id == old(self).next_id,
            final(self).consumers@.len() == old(self).consumers@.len(),
            forall|i: int|
                0 <= i < old(self).consumers@.len() ==> delivered_rel(
                    old(self).consumers@[i],
                    #[trigger] final(self).consumers@[i],
                    old(self).published@,
                    evt@,
                ),
    {
        self.published = Ghost(self.published@.push(evt@));
        let n = self.consumers.len();
        let mut i: usize = 0;
        while i < n
            invariant
                old(self).wf(),
                i <= n,
                n == self.consumers@.len(),
                self.consumers@.len() == old(self).consumers@.len(),
                self.published@ == old(self).published@.push(evt@),
                self.next_id == old(self).next_id,
                forall|j: int|
                    i <= j < n ==> #[trigger] self.consumers@[j] == old(self).consumers@[j],
                forall|j: int|
                    0 <= j < i ==> delivered_rel(
                        old(self).consumers@[j],
                        #[trigger] self.consumers@[j],
                        old(self).published@,
                        evt@,
                    ),
            decreases n - i,
        {
            let ghost pre = self.consumers@;
            let c = self.consumers.remove(i);
            proof {
                assert(c == old(self).consumers@[i as int]);
                assert(old(self).wf());
                assert(wf_consumer(c, old(self).published@));
            }
            let c2 = deliver(c, evt, Ghost(old(self).published@));
            self.consumers.insert(i, c2);
            proof {
                assert(self.consumers@ =~= pre.update(i as int, c2));
            }
            i += 1;
        }
    }

    /// One read by the consumer with this handle: the lag signal if events
    /// were dropped since its last read, else the oldest pending event,
    /// else nothing.
    pub fn read(&mut self, id: u64) -> (r: ReadOutcome)
        requires
            old(self).wf(),
        ensures
            final(self).wf(),
            final(self).published == old(self).published,
            final(self).next_id == old(self).next_id,
            !has_consumer(old(self).consumers@, id) ==> r is NotSubscribed && *final(self) == *old(
                self,
            ),
            has_consumer(old(self).consumers@, id) ==> {
                let i = index_of(old(self).consumers@, id);
                let oc = old(self).consumers@[i];
                let nc = final(self).consumers@[i];
                &&& final(self).consumers@.len() == old(self).consumers@.len()
                &&& forall|j: int|
                    0 <= j < old(self).consumers@.len() && j != i ==> final(self).consumers@[j]
                        == old(self).consumers@[j]
                &&& nc.id == oc.id
                &&& nc.joined == oc.joined
                &&& (oc.lagged ==> r is Lagged && nc.lagged == false && nc.queue == oc.queue
                    && nc.cursor == oc.cursor && nc.taken == oc.taken)
                &&& (!oc.lagged && oc.queue@.len() == 0 ==> r is Empty && nc == oc)
                &&& (!oc.lagged && oc.queue@.len() > 0 ==> {
                    &&& (r matches ReadOutcome::Event(e) && e@ == old(self).published@[oc.cursor@]
                        && e@ == queue_view(oc.queue@)[0])
                    &&& queue_view(nc.queue@) == queue_view(oc.queue@).skip(1)
                    &&& nc.cursor@ == oc.cursor@ + 1
                    &&& nc.taken@ == oc.taken@.push(oc.cursor@)
                    &&& nc.lagged == oc.lagged
                })
            },
    {
        let n = self.consumers.len();
        let mut i: usize = 0;
        while i < n
            invariant
                old(self).wf(),
                i <= n,
                n == self.consumers@.len(),
                *self == *old(self),
                forall|j: int| 0 <= j < i ==> (#[trigger] self.consumers@[j]).id != id,
            decreases n - i,
        {
            if self.consumers[i].id == id {
                proof {
                    assert(old(self).consumers@ == self.consumers@);
                    assert(has_consumer(old(self).consumers@, id)) by {
                        assert(old(self).consumers@[i as int].id == id);
                    }
                    let w = index_of(old(self).consumers@, id);
                    assert(0 <= w < old(self).consumers@.len() && old(self).consumers@[w].id == id);
                    assert(old(self).consumers@[i as int].id == id);
                    assert(w == i as int);
                }
                let ghost pre = self.consumers@;
                let mut c = self.consumers.remove(i);
                let ghost oc = c;
                proof {
                    assert(oc == old(self).consumers@[i as int]);
                    assert(wf_consumer(oc, old(self).published@));
                }
                if c.lagged {
                    c.lagged = false;
                    self.consumers.insert(i, c);
                    proof {
                        assert(self.consumers@ =~= pre.update(i as int, c));
                        assert(wf_consumer(c, self.published@));
                        lemma_wf_after_update(*old(self), *self, i as int, c);
                    }
                    return ReadOutcome::Lagged;
                }
                if c.queue.len() == 0 {
                    self.consumers.insert(i, c);
                    proof {
                        assert(self.consumers@ =~= pre.update(i as int, c));
                        assert(self.consumers@ =~= pre);
                        lemma_wf_after_update(*old(self), *self, i as int, c);
                    }
                    return ReadOutcome::Empty;
                }
                let e = c.queue.remove(0);
                proof {
                    assert(0 <= oc.cursor@ < self.published@.len());
                    assert(queue_view(oc.queue@)[0] == e@);
                    assert(self.published@.skip(oc.cursor@)[0] == self.published@[oc.cursor@]);
                    assert(e@ == self.published@[oc.cursor@]);
                }
                c.cursor = Ghost(c.cursor@ + 1);
                c.taken = Ghost(c.taken@.push(oc.cursor@));
                proof {
                    assert(queue_view(c.queue@) =~= queue_view(oc.queue@).skip(1));
                    assert(queue_view(c.queue@) =~= self.published@.skip(c.cursor@));
                }
                self.consumers.insert(i, c);
                proof {
                    assert(self.consumers@ =~= pre.update(i as int, c));
                    assert(wf_consumer(c, self.published@)) by {
                        assert(queue_view(c.queue@) == self.published@.skip(c.cursor@));
                        assert(forall|k: int|
                            0 <= k < oc.taken@.len() ==> c.taken@[k] == #[trigger] oc.taken@[k]);
                        assert(c.taken@[c.taken@.len() - 1] == oc.cursor@);
                    }
                    lemma_wf_after_update(*old(self), *self, i as int, c);
                }
                return ReadOutcome::Event(e);
            }
            i += 1;
        }
        ReadOutcome::NotSubscribed
    }
}

/// Replacing one consumer by a well-formed one with the same id keeps the
/// hub well-formed.
proof fn lemma_wf_after_update(h0: Hub, h1: Hub, i: int, c: Consumer)
    requires
        h0.wf(),
        0 <= i < h0.consumers@.len(),
        h1.consumers@ == h0.consumers@.update(i, c),
        h1.published@ == h0.published@,
        h1.next_id == h0.next_id,
        wf_consumer(c, h1.published@),
        c.id == h0.consumers@[i].id,
    ensures
        h1.wf(),
{
    assert forall|j: int| 0 <= j < h1.consumers@.len() implies wf_consumer(
        #[trigger] h1.consumers@[j],
        h1.published@,
    ) by {
        if j != i {
            assert(h1.consumers@[j] == h0.consumers@[j]);
            assert(wf_consumer(h0.consumers@[j], h0.published@));
        }
    }
    assert forall|j: int| 0 <= j < h1.consumers@.len() implies (#[trigger] h1.consumers@[j]).id
        == h0.consumers@[j].id by {
        if j != i {
            assert(h1.consumers@[j] == h0.consumers@[j]);
        }
    }
}

fn deliver(c: Consumer, evt: &MessageEvent, Ghost(history): Ghost<Seq<EventView>>) -> (r: Consumer)
    requires
        wf_consumer(c, history),
    ensures
        delivered_rel(c, r, history, evt@),
{
    let mut nc = c;
    let ghost oc = c;
    if nc.queue.len() == HUB_CAPACITY {
        let _dropped = nc.queue.remove(0);
        nc.lagged = true;
        nc.cursor = Ghost(nc.cursor@ + 1);
        proof {
            assert(queue_view(nc.queue@) =~= queue_view(oc.queue@).skip(1));
        }
    }
    let ghost mid = nc;
    nc.queue.push(evt.duplicate());
    proof {
        assert(queue_view(nc.queue@) =~= queue_view(mid.queue@).push(evt@));
        assert(queue_view(nc.queue@) =~= history.push(evt@).skip(nc.cursor@));
    }
    nc
}

/// Delivery preserves publish order: the publish indices of the events a
/// consumer was handed are strictly increasing, so for any two events
/// published A then B, no consumer is handed B before A.
pub proof fn lemma_delivery_order(h: Hub, i: int)
    requires
        h.wf(),
        0 <= i < h.consumers@.len(),
    ensures
        forall|k1: int, k2: int|
            0 <= k1 < k2 < h.consumers@[i].taken@.len() ==> #[trigger] h.consumers@[i].taken@[k1]
                < #[trigger] h.consumers@[i].taken@[k2],
        forall|k: int|
            0 <= k < h.consumers@[i].taken@.len() ==> received(h.consumers@[i], h.published@)[k]
                == h.published@[#[trigger] h.consumers@[i].taken@[k]],
{
}

/// No retroactive delivery: every event a consumer was handed was published
/// at or after the point where it subscribed, and lies in the history, so
/// an event published before it subscribed is never delivered to it.
pub proof fn lemma_no_retroactive_delivery(h: Hub, i: int)
    requires
        h.wf(),
        0 <= i < h.consumers@.len(),
    ensures
        forall|k: int|
            0 <= k < h.consumers@[i].taken@.len() ==> h.consumers@[i].joined@
                <= #[trigger] h.consumers@[i].taken@[k] < h.published@.len(),
{
    assert(wf_consumer(h.consumers@[i], h.published@));
}

} // verus!
