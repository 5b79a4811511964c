//! The routing layer.  Subscribers register a topic filter (or none, for a
//! catch-all subscription); every dispatched event is appended to the inbox
//! of each subscriber it is delivered to.  The dispatcher's well-formedness
//! states the delivery law: each inbox is exactly the source log filtered
//! by the subscriber's interest, in arrival order — no reordering, no
//! batching, nothing dropped.

use vstd::prelude::*;

use crate::events::WorkerEvent;
use crate::events::WorkerEventValue;
use crate::events::classify_view;
use crate::events::discriminant_field;
use crate::events::parses_as_record;
use crate::events::record_field_str;

verus! {

/// Whether an event is delivered to a subscriber with the given filter: a
/// catch-all subscriber receives every event; a topic subscriber receives
/// exactly the structured events whose discriminant equals its topic.
pub open spec fn delivered_to(filter: Option<Seq<char>>, e: WorkerEventValue) -> bool {
    match filter {
        None => true,
        Some(t) => e matches WorkerEventValue::Typed { topic, .. } && topic == t,
    }
}

/// The mathematical value of a subscriber's filter.
pub open spec fn filter_value(f: Option<String>) -> Option<Seq<char>> {
    match f {
        Some(t) => Some(t@),
        None => None,
    }
}

/// The mathematical values of a queue of delivered events.
pub open spec fn inbox_values(v: Seq<WorkerEvent>) -> Seq<WorkerEventValue> {
    v.map_values(|e: WorkerEvent| e@)
}

/// A subscriber's interest, as a predicate on events.
pub open spec fn interest(f: Option<Seq<char>>) -> spec_fn(WorkerEventValue) -> bool {
    |e: WorkerEventValue| delivered_to(f, e)
}

/// The events a subscriber with filter `f` receives out of a source log,
/// in source order.
pub open spec fn deliveries(log: Seq<WorkerEventValue>, f: Option<Seq<char>>) -> Seq<
    WorkerEventValue,
> {
    log.filter(interest(f))
}

/// Delivery order follows arrival order: what a subscriber has received
/// by an earlier point of the stream is a prefix of what it has received
/// by any later one — events are never reordered, batched or dropped.
pub proof fn lemma_deliveries_monotone(
    earlier: Seq<WorkerEventValue>,
    later: Seq<WorkerEventValue>,
    f: Option<Seq<char>>,
)
    requires
        earlier.is_prefix_of(later),
    ensures
        deliveries(earlier, f).is_prefix_of(deliveries(later, f)),
{
    earlier.lemma_filter_monotone(later, interest(f));
}

/// Appending one event to the source log appends it to the deliveries of
/// exactly the subscribers it is delivered to, at the end: delivery order
/// follows arrival order.
pub proof fn lemma_deliveries_push(log: Seq<WorkerEventValue>, f: Option<Seq<char>>, e: WorkerEventValue)
    ensures
        deliveries(log.push(e), f) == (if delivered_to(f, e) {
            deliveries(log, f).push(e)
        } else {
            deliveries(log, f)
        }),
{
    reveal(Seq::filter);
    assert(log.push(e).drop_last() =~= log);
    assert(log.push(e).last() == e);
}

/// The routing law for one classified line: every subscriber with no
/// filter receives its event, whatever it is — a non-parsing line is
/// surfaced to it as a raw event, never dropped; and a subscriber on topic
/// `u` receives exactly the lines that parse with discriminant `u`.
pub proof fn lemma_routing(l: Seq<char>)
    ensures
        delivered_to(None::<Seq<char>>, classify_view(l)),
        forall|u: Seq<char>|
            #[trigger] delivered_to(Some(u), classify_view(l)) <==> (parses_as_record(l)
                && record_field_str(l, discriminant_field()) == Some(u)),
{
}

/// One registered subscriber: its filter and the events delivered to it,
/// oldest first.  The ghost mark remembers how long the source log was
/// when the subscription was made: a subscriber sees what arrives from
/// then on.
struct Subscription {
    filter: Option<String>,
    inbox: Vec<WorkerEvent>,
    joined_at: Ghost<nat>,
}

/// The publish/subscribe routing layer, with its ghost source log of every
/// event dispatched so far, in arrival order.
pub struct Dispatcher {
    subs: Vec<Subscription>,
    log: Ghost<Seq<WorkerEventValue>>,
}

impl Dispatcher {
    /// The source log: every event dispatched so far, in arrival order.
    pub closed spec fn log(&self) -> Seq<WorkerEventValue> {
        self.log@
    }

    pub closed spec fn sub_count(&self) -> nat {
        self.subs@.len()
    }

    pub closed spec fn sub_filter(&self, i: int) -> Option<Seq<char>> {
        filter_value(self.subs@[i].filter)
    }

    /// What the log looked like when subscriber `i` joined.
    pub closed spec fn sub_joined_at(&self, i: int) -> nat {
        self.subs@[i].joined_at@
    }

    /// The values of the events delivered to subscriber `i`, oldest first.
    pub closed spec fn sub_inbox(&self, i: int) -> Seq<WorkerEventValue> {
        inbox_values(self.subs@[i].inbox@)
    }

    /// The delivery law: every subscriber's inbox is exactly the part of
    /// the source log since it joined, filtered by its interest, in
    /// arrival order.
    pub open spec fn wf(&self) -> bool {
        forall|i: int|
            0 <= i < self.sub_count() ==> {
                &&& #[trigger] self.sub_joined_at(i) <= self.log().len()
                &&& self.sub_inbox(i) == deliveries(
                    self.log().skip(self.sub_joined_at(i) as int),
                    self.sub_filter(i),
                )
            }
    }

    /// An empty dispatcher: no subscribers, nothing dispatched.
    pub fn new() -> (d: Dispatcher)
        ensures
            d.wf(),
            d.sub_count() == 0,
            d.log() == Seq::<WorkerEventValue>::empty(),
    {
        Dispatcher { subs: Vec::new(), log: Ghost(Seq::empty()) }
    }

    /// Register a subscriber: on a topic when a filter is given, on every
    /// event otherwise.  Returns its handle.  Existing subscribers are
    /// untouched; the new inbox is empty.
    pub fn subscribe(&mut self, filter: Option<String>) -> (id: usize)
        requires
            old(self).wf(),
        ensures
            final(self).wf(),
            final(self).log() == old(self).log(),
            final(self).sub_count() == old(self).sub_count() + 1,
            id == old(self).sub_count(),
            final(self).sub_filter(id as int) == filter_value(filter),
            final(self).sub_inbox(id as int) == Seq::<WorkerEventValue>::empty(),
            forall|i: int|
                0 <= i < old(self).sub_count() ==> #[trigger] final(self).sub_filter(i) == old(
                    self,
                ).sub_filter(i) && final(self).sub_inbox(i) == old(self).sub_inbox(i),
    {
        let id = self.subs.len();
        let ghost mark = self.log@.len();
        self.subs.push(Subscription { filter, inbox: Vec::new(), joined_at: Ghost(mark) });
        proof {
            assert forall|i: int|
                0 <= i < old(self).sub_count() implies #[trigger] self.sub_filter(i) == old(
                self,
            ).sub_filter(i) && self.sub_inbox(i) == old(self).sub_inbox(i) && self.sub_joined_at(
                i,
            ) == old(self).sub_joined_at(i) by {
                assert(self.subs@[i] == old(self).subs@[i]);
            }
            assert(self.sub_inbox(id as int) =~= Seq::<WorkerEventValue>::empty());
            assert(self.log@.skip(mark as int) =~= Seq::<WorkerEventValue>::empty());
            assert(deliveries(Seq::<WorkerEventValue>::empty(), self.sub_filter(id as int)) =~= Seq::<
                WorkerEventValue,
            >::empty()) by {
                reveal(Seq::filter);
            }
            assert forall|i: int| 0 <= i < self.sub_count() implies {
                &&& #[trigger] self.sub_joined_at(i) <= self.log().len()
                &&& self.sub_inbox(i) == deliveries(
                    self.log().skip(self.sub_joined_at(i) as int),
                    self.sub_filter(i),
                )
            } by {
                if i < id {
                    assert(old(self).sub_joined_at(i) <= old(self).log().len());
                }
            }
        }
        id
    }

    /// Deliver one event: it is appended, in arrival order, to the inbox
    /// of exactly the subscribers it is delivered to; every other inbox is
    /// unchanged.
    pub fn dispatch(&mut self, ev: WorkerEvent)
        requires
            old(self).wf(),
        ensures
            final(self).wf(),
            final(self).log() == old(self).log().push(ev@),
            final(self).sub_count() == old(self).sub_count(),
            forall|i: int|
                0 <= i < old(self).sub_count() ==> #[trigger] final(self).sub_filter(i) == old(
                    self,
                ).sub_filter(i) && final(self).sub_joined_at(i) == old(self).sub_joined_at(i),
            forall|i: int|
                0 <= i < old(self).sub_count() ==> #[trigger] final(self).sub_inbox(i) == (
                if delivered_to(old(self).sub_filter(i), ev@) {
                    old(self).sub_inbox(i).push(ev@)
                } else {
                    old(self).sub_inbox(i)
                }),
    {
        let ghost evv = ev@;
        let n = self.subs.len();
        let mut i: usize = 0;
        while i < n
            invariant
                i <= n,
                n == self.subs@.len(),
                n == old(self).subs@.len(),
                evv == ev@,
                self.log@ == old(self).log@,
                forall|j: int| i <= j < n ==> self.subs@[j] == old(self).subs@[j],
                forall|j: int|
                    0 <= j < i ==> {
                        &&& #[trigger] self.subs@[j].filter == old(self).subs@[j].filter
                        &&& self.subs@[j].joined_at == old(self).subs@[j].joined_at
                        &&& inbox_values(self.subs@[j].inbox@) == (if delivered_to(
                            filter_value(old(self).subs@[j].filter),
                            evv,
                        ) {
                            inbox_values(old(self).subs@[j].inbox@).push(evv)
                        } else {
                            inbox_values(old(self).subs@[j].inbox@)
                        })
                    },
            decreases n - i,
        {
            let deliver = match &self.subs[i].filter {
                None => true,
                Some(t) => match &ev {
                    WorkerEvent::Typed { topic, .. } => *t == *topic,
                    _ => false,
                },
            };
            proof {
                assert(deliver == delivered_to(filter_value(self.subs@[i as int].filter), evv));
            }
            if deliver {
                let copy = ev.duplicate();
                let ghost before = self.subs@[i as int].inbox@;
                self.subs[i].inbox.push(copy);
                proof {
                    assert(inbox_values(before.push(copy)) =~= inbox_values(before).push(evv));
                }
            }
            i = i + 1;
        }
        proof {
            self.log@ = self.log@.push(evv);
            assert forall|k: int|
                0 <= k < old(self).sub_count() implies #[trigger] self.sub_inbox(k) == (
            if delivered_to(old(self).sub_filter(k), evv) {
                old(self).sub_inbox(k).push(evv)
            } else {
                old(self).sub_inbox(k)
            }) by {
                assert(self.subs@[k].filter == old(self).subs@[k].filter);
            }
            assert forall|k: int| 0 <= k < self.sub_count() implies {
                &&& #[trigger] self.sub_joined_at(k) <= self.log().len()
                &&& self.sub_inbox(k) == deliveries(
                    self.log().skip(self.sub_joined_at(k) as int),
                    self.sub_filter(k),
                )
            } by {
                let m = old(self).sub_joined_at(k) as int;
                let f = old(self).sub_filter(k);
                assert(old(self).log().push(evv).skip(m) =~= old(self).log().skip(m).push(evv));
                lemma_deliveries_push(old(self).log().skip(m), f, evv);
            }
        }
    }

    /// How many subscribers are registered.
    pub fn subscriber_count(&self) -> (n: usize)
        ensures
            n == self.sub_count(),
    {
        self.subs.len()
    }

    /// How many events subscriber `id` has received.
    pub fn inbox_len(&self, id: usize) -> (n: usize)
        requires
            id < self.sub_count(),
        ensures
            n == self.sub_inbox(id as int).len(),
    {
        self.subs[id].inbox.len()
    }

    /// The `k`-th event delivered to subscriber `id`, oldest first.
    pub fn event_at(&self, id: usize, k: usize) -> (ev: &WorkerEvent)
        requires
            id < self.sub_count(),
            k < self.sub_inbox(id as int).len(),
        ensures
            ev@ == self.sub_inbox(id as int)[k as int],
    {
        &self.subs[id].inbox[k]
    }
}

} // verus!
