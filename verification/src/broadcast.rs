//! The fan-out bus.
//!
//! A [`Broadcaster`] owns a registry of [`Subscription`]s, each a bounded
//! queue of envelopes. Publishing stamps the event with the next sequence
//! number and offers it to every live subscription without ever blocking:
//! a full queue discards its oldest entry to admit the new one (drop-oldest),
//! so a slow subscriber sees a gap in history rather than stalling writers or
//! other subscribers. There is no replay: a subscription only ever receives
//! envelopes published after it joined.

use vstd::prelude::*;

use crate::event::Envelope;
use crate::event::EnvelopeView;
use crate::event::Event;
use crate::event::EventView;

verus! {

/// The overflow policy applied to a subscriber queue's view when one more
/// item arrives: append if there is room, otherwise discard the oldest entry
/// to admit the new one.
pub open spec fn push_drop_oldest<T>(q: Seq<T>, item: T, cap: int) -> Seq<T> {
    if q.len() < cap {
        q.push(item)
    } else {
        q.drop_first().push(item)
    }
}

#[verifier::ext_equal]
pub ghost struct SubscriptionView {
    pub id: int,
    pub joined_seq: int,
    pub last_seq: int,
    pub cursor: int,
    pub queue: Seq<EnvelopeView>,
}

/// One connected observer: a bounded envelope queue plus delivery cursors.
///
/// `joined_seq` is the sequence number that was current when the observer
/// connected; `last_seq` is the sequence number of the envelope most recently
/// handed out (`joined_seq - 1` while none has been); `cursor` counts handed
/// out envelopes. Both cursors exist for ordering diagnostics, not replay.
pub struct Subscription {
    pub id: u64,
    pub joined_seq: u64,
    pub last_seq: u64,
    pub cursor: u64,
    pub queue: Vec<Envelope>,
}

impl View for Subscription {
    type V = SubscriptionView;

    open spec fn view(&self) -> SubscriptionView {
        SubscriptionView {
            id: self.id as int,
            joined_seq: self.joined_seq as int,
            last_seq: self.last_seq as int,
            cursor: self.cursor as int,
            queue: self.queue@.map_values(|e: Envelope| e@),
        }
    }
}

/// Well-formedness of one subscription against the bus counters: its queue is
/// within capacity, ordered by strictly increasing sequence number, and holds
/// only envelopes newer than the last one handed out and older than the next
/// one to be assigned.
pub open spec fn sub_wf(s: SubscriptionView, next_seq: int, next_sub_id: int, cap: int) -> bool {
    &&& 1 <= s.joined_seq <= s.last_seq + 1
    &&& s.last_seq < next_seq
    &&& 0 <= s.id < next_sub_id
    &&& 0 <= s.cursor <= s.last_seq + 1 - s.joined_seq
    &&& s.queue.len() <= cap
    &&& forall|a: int, b: int| 0 <= a < b < s.queue.len() ==> s.queue[a].seq < s.queue[b].seq
    &&& forall|a: int| 0 <= a < s.queue.len() ==> s.last_seq < #[trigger] s.queue[a].seq < next_seq
}

#[verifier::ext_equal]
pub ghost struct BroadcasterView {
    pub subs: Seq<SubscriptionView>,
    pub next_seq: int,
    pub next_sub_id: int,
    pub cap: int,
}

/// The single broadcast point: a registry of live subscriptions, the global
/// sequence counter, and the per-subscriber queue capacity.
pub struct Broadcaster {
    pub subs: Vec<Subscription>,
    pub next_seq: u64,
    pub next_sub_id: u64,
    pub cap: usize,
}

impl View for Broadcaster {
    type V = BroadcasterView;

    open spec fn view(&self) -> BroadcasterView {
        BroadcasterView {
            subs: self.subs@.map_values(|s: Subscription| s@),
            next_seq: self.next_seq as int,
            next_sub_id: self.next_sub_id as int,
            cap: self.cap as int,
        }
    }
}

/// Well-formedness of the bus: positive capacity and counters, every
/// subscription well formed, and subscription identities distinct.
pub open spec fn bc_wf(b: BroadcasterView) -> bool {
    &&& 1 <= b.cap
    &&& 1 <= b.next_seq
    &&& 1 <= b.next_sub_id
    &&& forall|i: int|
        0 <= i < b.subs.len() ==> sub_wf(#[trigger] b.subs[i], b.next_seq, b.next_sub_id, b.cap)
    &&& forall|i: int, j: int| 0 <= i < j < b.subs.len() ==> b.subs[i].id != b.subs[j].id
}

/// Whether some live subscription carries the identity `id`.
pub open spec fn has_sub(subs: Seq<SubscriptionView>, id: int) -> bool {
    exists|i: int| 0 <= i < subs.len() && subs[i].id == id
}

/// The registry position of the subscription with identity `id` (meaningful
/// only when `has_sub` holds and identities are distinct).
pub open spec fn sub_index(subs: Seq<SubscriptionView>, id: int) -> int {
    choose|i: int| 0 <= i < subs.len() && subs[i].id == id
}

/// How one subscription changes when an envelope is offered to it: cursors
/// and identity are untouched and the queue takes the envelope under the
/// drop-oldest policy.
pub open spec fn offered_sub(
    s0: SubscriptionView,
    s1: SubscriptionView,
    env: EnvelopeView,
    cap: int,
) -> bool {
    &&& s1.id == s0.id
    &&& s1.joined_seq == s0.joined_seq
    &&& s1.last_seq == s0.last_seq
    &&& s1.cursor == s0.cursor
    &&& s1.queue == push_drop_oldest(s0.queue, env, cap)
}

/// How the whole bus changes when one event is published: the sequence
/// counter moves by one, the registry keeps its shape, and every live
/// subscription is offered the envelope stamped with the old counter.
pub open spec fn published_one(b0: BroadcasterView, b1: BroadcasterView, ev: EventView) -> bool {
    &&& b1.next_seq == b0.next_seq + 1
    &&& b1.next_sub_id == b0.next_sub_id
    &&& b1.cap == b0.cap
    &&& b1.subs.len() == b0.subs.len()
    &&& forall|i: int|
        0 <= i < b0.subs.len() ==> offered_sub(
            b0.subs[i],
            #[trigger] b1.subs[i],
            EnvelopeView { seq: b0.next_seq, event: ev },
            b0.cap,
        )
    &&& b0.subs.len() == 0 ==> b1.subs == b0.subs
}

/// Hydration law: after a publish, the newest envelope in every live
/// subscriber's queue carries exactly the event that was published — the
/// snapshot taken at commit time reaches each subscriber unchanged, so no
/// subscriber ever needs to (or can) re-query state that may since have
/// moved on.
pub proof fn lemma_delivered_envelope_is_snapshot(
    b0: BroadcasterView,
    b1: BroadcasterView,
    ev: EventView,
    i: int,
)
    requires
        published_one(b0, b1, ev),
        1 <= b0.cap,
        0 <= i < b0.subs.len(),
    ensures
        b1.subs[i].queue.len() > 0,
        b1.subs[i].queue.last() == (EnvelopeView { seq: b0.next_seq, event: ev }),
{
    assert(offered_sub(
        b0.subs[i],
        b1.subs[i],
        EnvelopeView { seq: b0.next_seq, event: ev },
        b0.cap,
    ));
}

/// Ordering law: within any well-formed subscriber's queue, envelopes stand
/// in strictly increasing sequence-number order — the order the broadcaster
/// published them in. Since every subscriber's queue is filled from the same
/// single broadcast point, all subscribers observe published events in the
/// same relative order.
pub proof fn lemma_fanout_preserves_publish_order(b: BroadcasterView, i: int, a: int, c: int)
    requires
        bc_wf(b),
        0 <= i < b.subs.len(),
        0 <= a < c < b.subs[i].queue.len(),
    ensures
        b.subs[i].queue[a].seq < b.subs[i].queue[c].seq,
{
    assert(sub_wf(b.subs[i], b.next_seq, b.next_sub_id, b.cap));
}

/// No-replay law: a well-formed subscriber's queue never holds an envelope
/// published before the subscriber joined, nor one it was already handed.
pub proof fn lemma_no_replay(b: BroadcasterView, i: int, a: int)
    requires
        bc_wf(b),
        0 <= i < b.subs.len(),
        0 <= a < b.subs[i].queue.len(),
    ensures
        b.subs[i].queue[a].seq >= b.subs[i].joined_seq,
        b.subs[i].queue[a].seq > b.subs[i].last_seq,
{
    assert(sub_wf(b.subs[i], b.next_seq, b.next_sub_id, b.cap));
}

/// The view of a queue after a series of items is offered to it one by one
/// under the drop-oldest policy.
pub open spec fn offer_all<T>(q: Seq<T>, items: Seq<T>, cap: int) -> Seq<T>
    decreases items.len(),
{
    if items.len() == 0 {
        q
    } else {
        offer_all(push_drop_oldest(q, items[0], cap), items.drop_first(), cap)
    }
}

/// The `n` most recent entries of a sequence, in order (all of them when the
/// sequence is shorter than `n`).
pub open spec fn newest<T>(s: Seq<T>, n: int) -> Seq<T> {
    if s.len() <= n {
        s
    } else {
        s.skip(s.len() - n)
    }
}

/// Offering a series of items to a queue that holds the newest `cap` entries
/// of some history leaves it holding the newest `cap` entries of the extended
/// history.
proof fn lemma_offer_all_newest<T>(hist: Seq<T>, items: Seq<T>, cap: int)
    requires
        1 <= cap,
    ensures
        offer_all(newest(hist, cap), items, cap) == newest(hist + items, cap),
    decreases items.len(),
{
    if items.len() == 0 {
        assert(hist + items =~= hist);
    } else {
        let q = newest(hist, cap);
        let hist1 = hist.push(items[0]);
        assert(push_drop_oldest(q, items[0], cap) =~= newest(hist1, cap));
        lemma_offer_all_newest(hist1, items.drop_first(), cap);
        assert(hist1 + items.drop_first() =~= hist + items);
    }
}

/// Overflow law: starting from an empty queue of capacity `cap`, offering any
/// series of items under the drop-oldest policy leaves exactly the `cap` most
/// recent items, in the order they were offered; the oldest were the ones
/// discarded. In particular, offering `cap + 1` items leaves all but the
/// first.
pub proof fn lemma_drop_oldest_keeps_newest<T>(items: Seq<T>, cap: int)
    requires
        1 <= cap,
    ensures
        offer_all(Seq::empty(), items, cap) == newest(items, cap),
{
    lemma_offer_all_newest(Seq::<T>::empty(), items, cap);
    assert(newest(Seq::<T>::empty(), cap) =~= Seq::<T>::empty());
    assert(Seq::<T>::empty() + items =~= items);
}

impl Broadcaster {
    pub open spec fn wf(&self) -> bool {
        bc_wf(self@)
    }

    /// A bus with no subscribers, issuing sequence numbers from 1, whose
    /// subscriber queues will hold at most `cap` envelopes.
    pub fn new(cap: usize) -> (r: Broadcaster)
        requires
            1 <= cap,
        ensures
            r.wf(),
            r@.subs.len() == 0,
            r@.next_seq == 1,
            r@.next_sub_id == 1,
            r@.cap == cap as int,
    {
        let r = Broadcaster { subs: Vec::new(), next_seq: 1, next_sub_id: 1, cap };
        proof {
            assert(r@.subs =~= Seq::<SubscriptionView>::empty());
        }
        r
    }

    /// Registers a new subscription with an empty queue and returns its
    /// identity. The new subscription is eligible only for envelopes published
    /// from this moment on: its `joined_seq` is the current sequence counter.
    pub fn subscribe(&mut self) -> (id: u64)
        requires
            old(self).wf(),
            old(self)@.next_sub_id < u64::MAX,
        ensures
            final(self).wf(),
            id as int == old(self)@.next_sub_id,
            final(self)@.next_sub_id == old(self)@.next_sub_id + 1,
            final(self)@.next_seq == old(self)@.next_seq,
            final(self)@.cap == old(self)@.cap,
            final(self)@.subs == old(self)@.subs.push(
                SubscriptionView {
                    id: id as int,
                    joined_seq: old(self)@.next_seq,
                    last_seq: old(self)@.next_seq - 1,
                    cursor: 0,
                    queue: Seq::empty(),
                },
            ),
            has_sub(final(self)@.subs, id as int),
    {
        let id = self.next_sub_id;
        self.next_sub_id = self.next_sub_id + 1;
        let sub = Subscription {
            id,
            joined_seq: self.next_seq,
            last_seq: self.next_seq - 1,
            cursor: 0,
            queue: Vec::new(),
        };
        self.subs.push(sub);
        proof {
            let subs1 = self@.subs;
            let n = old(self)@.subs.len() as int;
            assert(subs1 =~~= old(self)@.subs.push(
                SubscriptionView {
                    id: id as int,
                    joined_seq: old(self)@.next_seq,
                    last_seq: old(self)@.next_seq - 1,
                    cursor: 0,
                    queue: Seq::empty(),
                },
            ));
            assert(subs1[n].id == id as int);
        }
        id
    }

    /// The registry position of the subscription with identity `id`, if any.
    fn index_of(&self, id: u64) -> (r: Option<usize>)
        requires
            self.wf(),
        ensures
            match r {
                Option::Some(i) => {
                    &&& i < self@.subs.len()
                    &&& self@.subs[i as int].id == id as int
                    &&& sub_index(self@.subs, id as int) == i as int
                    &&& has_sub(self@.subs, id as int)
                },
                Option::None => !has_sub(self@.subs, id as int),
            },
    {
        let mut i: usize = 0;
        let n = self.subs.len();
        while i < n
            invariant
                i <= n,
                n == self@.subs.len(),
                self.wf(),
                forall|k: int| 0 <= k < i ==> self@.subs[k].id != id as int,
            decreases n - i,
        {
            if self.subs[i].id == id {
                proof {
                    let gi = i as int;
                    assert(self@.subs[gi].id == id as int);
                    assert(has_sub(self@.subs, id as int)) by {
                        assert(0 <= gi < self@.subs.len() && self@.subs[gi].id == id as int);
                    }
                    let j = sub_index(self@.subs, id as int);
                    assert(0 <= j < self@.subs.len() && self@.subs[j].id == id as int);
                    if j != gi {
                        assert(self@.subs[j].id != self@.subs[gi].id);
                    }
                }
                return Option::Some(i);
            }
            i = i + 1;
        }
        Option::None
    }

    /// Removes the subscription with identity `id` from the registry, if it
    /// is there; calling it again (or for an unknown identity) changes
    /// nothing. Everything the subscription still held is reclaimed.
    pub fn unsubscribe(&mut self, id: u64)
        requires
            old(self).wf(),
        ensures
            final(self).wf(),
            final(self)@.next_seq == old(self)@.next_seq,
            final(self)@.next_sub_id == old(self)@.next_sub_id,
            final(self)@.cap == old(self)@.cap,
            !has_sub(old(self)@.subs, id as int) ==> final(self)@.subs == old(self)@.subs,
            has_sub(old(self)@.subs, id as int) ==> final(self)@.subs == old(self)@.subs.remove(
                sub_index(old(self)@.subs, id as int),
            ),
            !has_sub(final(self)@.subs, id as int),
            final(self)@.subs.len() == old(self)@.subs.len() - (
            if has_sub(old(self)@.subs, id as int) {
                1int
            } else {
                0int
            }),
    {
        let idx = self.index_of(id);
        match idx {
            Option::None => {},
            Option::Some(i) => {
                let _ = self.subs.remove(i);
                proof {
                    let gi = i as int;
                    let subs0 = old(self)@.subs;
                    assert(self@.subs =~= subs0.remove(gi));
                    assert forall|k: int| 0 <= k < self@.subs.len() implies self@.subs[k].id
                        != id as int by {
                        if k < gi {
                            assert(self@.subs[k] == subs0[k]);
                        } else {
                            assert(self@.subs[k] == subs0[k + 1]);
                        }
                    }
                }
            },
        }
    }

    /// Fans one event out: stamps it with the next sequence number and offers
    /// the resulting envelope to every live subscription under the
    /// drop-oldest policy. Never blocks and never fails; with no subscribers
    /// registered the registry is untouched and only the sequence counter
    /// moves.
    #[verifier::loop_isolation(false)]
    pub fn publish(&mut self, event: Event)
        requires
            old(self).wf(),
            old(self)@.next_seq < u64::MAX,
        ensures
            final(self).wf(),
            final(self)@.next_seq == old(self)@.next_seq + 1,
            final(self)@.next_sub_id == old(self)@.next_sub_id,
            final(self)@.cap == old(self)@.cap,
            final(self)@.subs.len() == old(self)@.subs.len(),
            forall|i: int|
                0 <= i < old(self)@.subs.len() ==> offered_sub(
                    old(self)@.subs[i],
                    #[trigger] final(self)@.subs[i],
                    EnvelopeView { seq: old(self)@.next_seq, event: event@ },
                    old(self)@.cap,
                ),
            old(self)@.subs.len() == 0 ==> final(self)@.subs == old(self)@.subs,
            published_one(old(self)@, final(self)@, event@),
    {
        let ghost env_v = EnvelopeView { seq: old(self)@.next_seq, event: event@ };
        let seq = self.next_seq;
        self.next_seq = self.next_seq + 1;
        let n = self.subs.len();
        let mut i: usize = 0;
        while i < n
            invariant
                i <= n,
                n == self@.subs.len(),
                n == old(self)@.subs.len(),
                self@.next_seq == old(self)@.next_seq + 1,
                self@.next_sub_id == old(self)@.next_sub_id,
                self@.cap == old(self)@.cap,
                1 <= self@.cap,
                seq as int == old(self)@.next_seq,
                env_v == (EnvelopeView { seq: seq as int, event: event@ }),
                bc_wf(old(self)@),
                forall|k: int|
                    0 <= k < i ==> offered_sub(
                        old(self)@.subs[k],
                        #[trigger] self@.subs[k],
                        env_v,
                        old(self)@.cap,
                    ),
                forall|k: int| i <= k < n ==> self@.subs[k] == old(self)@.subs[k],
            decreases n - i,
        {
            let env = Envelope { seq, event: event.duplicate() };
            let ghost prev = self@.subs;
            let ghost prev_raw = self.subs@;
            let ghost q0 = self@.subs[i as int].queue;
            if self.subs[i].queue.len() >= self.cap {
                let _ = self.subs[i].queue.remove(0);
            }
            self.subs[i].queue.push(env);
            proof {
                let k = i as int;
                assert(self@.subs[k].queue =~= push_drop_oldest(q0, env_v, old(self)@.cap));
                assert(offered_sub(old(self)@.subs[k], self@.subs[k], env_v, old(self)@.cap));
                assert forall|m: int| 0 <= m < k + 1 implies offered_sub(
                    old(self)@.subs[m],
                    #[trigger] self@.subs[m],
                    env_v,
                    old(self)@.cap,
                ) by {
                    if m < k {
                        assert(self.subs@[m] == prev_raw[m]);
                        assert(self@.subs[m] == prev[m]);
                        assert(offered_sub(old(self)@.subs[m], prev[m], env_v, old(self)@.cap));
                    }
                }
                assert forall|m: int| k + 1 <= m < n implies #[trigger] self@.subs[m] == old(
                    self,
                )@.subs[m] by {
                    assert(self.subs@[m] == prev_raw[m]);
                    assert(self@.subs[m] == prev[m]);
                    assert(prev[m] == old(self)@.subs[m]);
                }
            }
            i = i + 1;
        }
        proof {
            assert forall|k: int| 0 <= k < n implies sub_wf(
                #[trigger] self@.subs[k],
                self@.next_seq,
                self@.next_sub_id,
                self@.cap,
            ) by {
                let s0 = old(self)@.subs[k];
                let s1 = self@.subs[k];
                assert(sub_wf(s0, old(self)@.next_seq, old(self)@.next_sub_id, old(self)@.cap));
                assert(s1.queue == push_drop_oldest(s0.queue, env_v, old(self)@.cap));
            }
            assert forall|a: int, b: int| 0 <= a < b < n implies self@.subs[a].id
                != self@.subs[b].id by {
                assert(self@.subs[a].id == old(self)@.subs[a].id);
                assert(self@.subs[b].id == old(self)@.subs[b].id);
            }
            if n == 0 {
                assert(self@.subs =~= old(self)@.subs);
            }
        }
    }

    /// Hands out the oldest queued envelope of subscription `id`, advancing
    /// its cursors; `None` when its queue is empty or the identity is
    /// unknown. Envelopes come out in publish order — each one's sequence
    /// number exceeds that of everything handed out before — and never from
    /// before the subscription joined.
    pub fn recv(&mut self, id: u64) -> (r: Option<Envelope>)
        requires
            old(self).wf(),
        ensures
            final(self).wf(),
            final(self)@.next_seq == old(self)@.next_seq,
            final(self)@.next_sub_id == old(self)@.next_sub_id,
            final(self)@.cap == old(self)@.cap,
            !has_sub(old(self)@.subs, id as int) ==> r is None && final(self)@ == old(self)@,
            has_sub(old(self)@.subs, id as int) ==> {
                let i = sub_index(old(self)@.subs, id as int);
                let s0 = old(self)@.subs[i];
                &&& s0.queue.len() == 0 ==> r is None && final(self)@ == old(self)@
                &&& s0.queue.len() > 0 ==> {
                    &&& r matches Option::Some(env)
                    &&& env@ == s0.queue[0]
                    &&& env@.seq > s0.last_seq
                    &&& env@.seq >= s0.joined_seq
                    &&& final(self)@.subs == old(self)@.subs.update(
                        i,
                        SubscriptionView {
                            id: s0.id,
                            joined_seq: s0.joined_seq,
                            last_seq: env@.seq,
                            cursor: s0.cursor + 1,
                            queue: s0.queue.drop_first(),
                        },
                    )
                }
            },
    {
        let idx = self.index_of(id);
        match idx {
            Option::None => Option::None,
            Option::Some(i) => {
                if self.subs[i].queue.len() == 0 {
                    Option::None
                } else {
                    let ghost s0 = old(self)@.subs[i as int];
                    proof {
                        assert(sub_wf(s0, old(self)@.next_seq, old(self)@.next_sub_id, old(self)@.cap));
                    }
                    let env = self.subs[i].queue.remove(0);
                    self.subs[i].last_seq = env.seq;
                    let c = self.subs[i].cursor;
                    self.subs[i].cursor = c + 1;
                    proof {
                        let gi = i as int;
                        assert(self@.subs[gi].queue =~= s0.queue.drop_first());
                        assert(self@.subs =~~= old(self)@.subs.update(
                            gi,
                            SubscriptionView {
                                id: s0.id,
                                joined_seq: s0.joined_seq,
                                last_seq: env@.seq,
                                cursor: s0.cursor + 1,
                                queue: s0.queue.drop_first(),
                            },
                        ));
                        let s1 = self@.subs[gi];
                        assert forall|a: int, b: int| 0 <= a < b < s1.queue.len() implies s1.queue[a].seq
                            < s1.queue[b].seq by {
                            assert(s1.queue[a] == s0.queue[a + 1]);
                            assert(s1.queue[b] == s0.queue[b + 1]);
                        }
                        assert forall|a: int| 0 <= a < s1.queue.len() implies s1.last_seq < #[trigger] s1.queue[a].seq
                            < self@.next_seq by {
                            assert(s1.queue[a] == s0.queue[a + 1]);
                            assert(s0.queue[0].seq < s0.queue[a + 1].seq);
                        }
                        assert(sub_wf(s1, self@.next_seq, self@.next_sub_id, self@.cap));
                        assert forall|m: int| 0 <= m < self@.subs.len() implies sub_wf(
                            #[trigger] self@.subs[m],
                            self@.next_seq,
                            self@.next_sub_id,
                            self@.cap,
                        ) by {
                            if m != gi {
                                assert(self@.subs[m] == old(self)@.subs[m]);
                            }
                        }
                        assert forall|a: int, b: int| 0 <= a < b < self@.subs.len() implies self@.subs[a].id
                            != self@.subs[b].id by {
                            assert(self@.subs[a].id == old(self)@.subs[a].id);
                            assert(self@.subs[b].id == old(self)@.subs[b].id);
                        }
                    }
                    Option::Some(env)
                }
            },
        }
    }
}

} // verus!
