//! The broadcast hub: one fan-out channel of text messages. Each subscriber
//! has its own bounded queue; when it is full the oldest pending message is
//! dropped for that subscriber alone, so a publish never waits on anyone.
use vstd::prelude::*;

verus! {

/// The last `cap` elements of `s`, or all of `s` if it is no longer.
pub open spec fn keep_last(s: Seq<String>, cap: nat) -> Seq<String> {
    if s.len() <= cap {
        s
    } else {
        s.subrange(s.len() - cap, s.len() as int)
    }
}

/// A subscriber's queue after `msg` was published to it.
pub open spec fn bounded_push(q: Seq<String>, msg: String, cap: nat) -> Seq<String> {
    keep_last(q.push(msg), cap)
}

/// The hub's state; subscriptions are named by slot numbers.
pub struct Hub {
    capacity: usize,
    queues: Vec<Vec<String>>,
    active: Vec<bool>,
    /// Every message ever published, in the order the hub took them.
    log: Ghost<Seq<String>>,
    /// For each slot, the length of the log when it was last subscribed.
    joined: Ghost<Seq<int>>,
}

/// What `publish(msg)` on `before` leaves behind.
pub open spec fn publish_post(before: Hub, msg: String, after: Hub) -> bool {
    &&& after.wf()
    &&& after.capacity() == before.capacity()
    &&& after.log() == before.log().push(msg)
    &&& after.slots() == before.slots()
    &&& forall|j: int| #[trigger] after.subscribed(j) == before.subscribed(j)
    &&& forall|j: int| #[trigger] after.joined_at(j) == before.joined_at(j)
    &&& forall|j: int|
        before.subscribed(j) ==> #[trigger] after.pending(j) == bounded_push(
            before.pending(j),
            msg,
            before.capacity() as nat,
        )
}

/// What `take_next(id)` on `before` that answered `r` leaves behind.
pub open spec fn take_post(before: Hub, id: int, r: Option<String>, after: Hub) -> bool {
    &&& after.wf()
    &&& after.capacity() == before.capacity()
    &&& after.log() == before.log()
    &&& forall|j: int| #[trigger] after.subscribed(j) == before.subscribed(j)
    &&& forall|j: int|
        j != id && before.subscribed(j) ==> #[trigger] after.pending(j) == before.pending(j)
    &&& forall|j: int|
        before.subscribed(j) ==> #[trigger] after.joined_at(j) == before.joined_at(j)
    &&& match r {
        Some(m) => {
            &&& before.subscribed(id)
            &&& before.pending(id).len() > 0
            &&& m == before.pending(id)[0]
            &&& m == before.log()[before.cursor(id)]
            &&& after.pending(id) == before.pending(id).drop_first()
        },
        None => !before.subscribed(id) || before.pending(id).len() == 0,
    }
}

impl Hub {
    /// How many messages a subscriber may fall behind before it loses some.
    pub closed spec fn capacity(self) -> nat {
        self.capacity as nat
    }

    /// All messages published so far, in order.
    pub closed spec fn log(self) -> Seq<String> {
        self.log@
    }

    /// Number of slots (live or freed) the hub has handed out.
    pub closed spec fn slots(self) -> nat {
        self.queues@.len()
    }

    /// Whether `id` names a live subscription.
    pub closed spec fn subscribed(self, id: int) -> bool {
        0 <= id < self.active@.len() && self.active@[id]
    }

    /// Messages waiting for subscriber `id`, oldest first.
    pub closed spec fn pending(self, id: int) -> Seq<String> {
        self.queues@[id]@
    }

    /// Length of the log at the moment `id` subscribed.
    pub closed spec fn joined_at(self, id: int) -> int {
        self.joined@[id]
    }

    /// Position in the log of the next message `id` will receive.
    pub open spec fn cursor(self, id: int) -> int {
        self.log().len() - self.pending(id).len()
    }

    pub closed spec fn wf(self) -> bool {
        &&& self.capacity > 0
        &&& self.active@.len() == self.queues@.len()
        &&& self.joined@.len() == self.queues@.len()
        &&& forall|i: int|
            0 <= i < self.queues@.len() && !self.active@[i] ==> (#[trigger] self.queues@[i])@.len() == 0
        &&& forall|i: int|
            0 <= i < self.queues@.len() && self.active@[i] ==> {
                &&& (#[trigger] self.queues@[i])@.len() <= self.capacity
                &&& 0 <= self.joined@[i] <= self.log@.len() - self.queues@[i]@.len()
                &&& self.queues@[i]@ == self.log@.subrange(
                    self.log@.len() - self.queues@[i]@.len(),
                    self.log@.len() as int,
                )
            }
    }

    /// A hub with no subscribers where each subscriber may lag `capacity`
    /// messages behind.
    pub fn new(capacity: usize) -> (r: Hub)
        requires
            capacity > 0,
        ensures
            r.wf(),
            r.capacity() == capacity,
            r.log() == Seq::<String>::empty(),
            r.slots() == 0,
            forall|j: int| !r.subscribed(j),
    {
        Hub {
            capacity,
            queues: Vec::new(),
            active: Vec::new(),
            log: Ghost(Seq::empty()),
            joined: Ghost(Seq::empty()),
        }
    }

    /// Sends `msg` to every live subscription. Never fails and never waits:
    /// a subscriber whose queue is full loses its oldest pending message.
    pub fn publish(&mut self, msg: String)
        requires
            old(self).wf(),
        ensures
            publish_post(*old(self), msg, *final(self)),
    {
        let ghost before = *self;
        let ghost cap = self.capacity as nat;
        self.log = Ghost(self.log@.push(msg));
        let mut i: usize = 0;
        while i < self.queues.len()
            invariant
                before == *old(self),
                cap == before.capacity as nat,
                self.capacity == before.capacity,
                self.active == before.active,
                self.joined == before.joined,
                self.log@ == before.log@.push(msg),
                self.queues@.len() == before.queues@.len(),
                i <= self.queues@.len(),
                before.wf(),
                forall|k: int|
                    0 <= k < i ==> (#[trigger] self.queues@[k])@ == if self.active@[k] {
                        bounded_push(before.queues@[k]@, msg, cap)
                    } else {
                        before.queues@[k]@
                    },
                forall|k: int| i <= k < self.queues@.len() ==> #[trigger] self.queues@[k] == before.queues@[k],
            decreases self.queues@.len() - i,
        {
            if self.active[i] {
                let ghost q0 = self.queues@[i as int]@;
                assert(self.queues@[i as int] == before.queues@[i as int]);
                assert(q0.len() <= cap);
                self.queues[i].push(msg.clone());
                if self.queues[i].len() > self.capacity {
                    let _dropped = self.queues[i].remove(0);
                    assert(self.queues@[i as int]@ =~= bounded_push(q0, msg, cap));
                } else {
                    assert(self.queues@[i as int]@ =~= bounded_push(q0, msg, cap));
                }
            }
            i = i + 1;
        }
        assert forall|k: int|
            0 <= k < self.queues@.len() && self.active@[k] implies {
                &&& (#[trigger] self.queues@[k])@.len() <= self.capacity
                &&& 0 <= self.joined@[k] <= self.log@.len() - self.queues@[k]@.len()
                &&& self.queues@[k]@ == self.log@.subrange(
                    self.log@.len() - self.queues@[k]@.len(),
                    self.log@.len() as int,
                )
            } by {
            let q0 = before.queues@[k]@;
            let l0 = before.log@;
            assert(q0 == l0.subrange(l0.len() - q0.len(), l0.len() as int));
            assert(q0.push(msg) =~= self.log@.subrange(l0.len() - q0.len(), self.log@.len() as int));
            let q1 = self.queues@[k]@;
            assert(q1 =~= self.log@.subrange(self.log@.len() - q1.len(), self.log@.len() as int));
        }
        assert forall|j: int| before.subscribed(j) implies #[trigger] self.pending(j) == bounded_push(
            before.pending(j),
            msg,
            cap,
        ) by {
            assert(self.queues@[j]@ == bounded_push(before.queues@[j]@, msg, cap));
        }
    }

    /// Opens a subscription. It will receive the messages published from now
    /// on, and none published before.
    pub fn subscribe(&mut self) -> (id: usize)
        requires
            old(self).wf(),
        ensures
            final(self).wf(),
            !old(self).subscribed(id as int),
            final(self).subscribed(id as int),
            final(self).pending(id as int) == Seq::<String>::empty(),
            final(self).joined_at(id as int) == old(self).log().len(),
            final(self).capacity() == old(self).capacity(),
            final(self).log() == old(self).log(),
            forall|j: int|
                j != id ==> #[trigger] final(self).subscribed(j) == old(self).subscribed(j),
            forall|j: int|
                j != id && old(self).subscribed(j) ==> #[trigger] final(self).pending(j) == old(self).pending(j),
            forall|j: int|
                j != id && old(self).subscribed(j) ==> #[trigger] final(self).joined_at(j) == old(self).joined_at(j),
    {
        let ghost before = *self;
        let mut i: usize = 0;
        while i < self.active.len()
            invariant
                *self == before,
                before == *old(self),
                before.wf(),
                i <= self.active@.len(),
                forall|k: int| 0 <= k < i ==> self.active@[k],
            decreases self.active@.len() - i,
        {
            if !self.active[i] {
                self.active[i] = true;
                self.joined = Ghost(self.joined@.update(i as int, self.log@.len() as int));
                assert(self.queues@[i as int]@.len() == 0);
                assert(self.queues@[i as int]@ =~= self.log@.subrange(
                    self.log@.len() as int,
                    self.log@.len() as int,
                ));
                return i;
            }
            i = i + 1;
        }
        let id = self.queues.len();
        self.queues.push(Vec::new());
        self.active.push(true);
        self.joined = Ghost(self.joined@.push(self.log@.len() as int));
        assert(self.queues@[id as int]@ =~= self.log@.subrange(
            self.log@.len() as int,
            self.log@.len() as int,
        ));
        assert forall|k: int| 0 <= k < id implies #[trigger] self.queues@[k] == before.queues@[k] by {}
        id
    }

    /// Closes subscription `id` and frees its slot; closing one that is not
    /// live changes nothing.
    pub fn unsubscribe(&mut self, id: usize)
        requires
            old(self).wf(),
        ensures
            final(self).wf(),
            !final(self).subscribed(id as int),
            final(self).capacity() == old(self).capacity(),
            final(self).log() == old(self).log(),
            forall|j: int|
                j != id ==> #[trigger] final(self).subscribed(j) == old(self).subscribed(j),
            forall|j: int|
                j != id && old(self).subscribed(j) ==> #[trigger] final(self).pending(j) == old(self).pending(j),
            forall|j: int|
                j != id && old(self).subscribed(j) ==> #[trigger] final(self).joined_at(j) == old(self).joined_at(j),
    {
        if id < self.active.len() {
            self.active[id] = false;
            self.queues[id] = Vec::new();
        }
    }

    /// Hands subscriber `id` its oldest pending message, if any.
    pub fn take_next(&mut self, id: usize) -> (r: Option<String>)
        requires
            old(self).wf(),
        ensures
            take_post(*old(self), id as int, r, *final(self)),
    {
        if id < self.active.len() && self.active[id] && self.queues[id].len() > 0 {
            let ghost before = *self;
            let ghost q0 = self.queues@[id as int]@;
            let ghost l = self.log@;
            assert(q0 == l.subrange(l.len() - q0.len(), l.len() as int));
            assert(q0[0] == l[l.len() - q0.len()]);
            let m = self.queues[id].remove(0);
            assert(self.queues@[id as int]@ =~= before.queues@[id as int]@.drop_first());
            let ghost q = self.queues@[id as int]@;
            assert(q =~= self.log@.subrange(self.log@.len() - q.len(), self.log@.len() as int));
            assert(m == before.log@[before.log@.len() - before.queues@[id as int]@.len()]);
            Some(m)
        } else {
            None
        }
    }
}

/// A well-formed hub lets every subscriber hold at least one message.
pub proof fn lemma_capacity_positive(h: Hub)
    requires
        h.wf(),
    ensures
        h.capacity() > 0,
{
}

/// What a subscriber is still to receive is an unbroken run at the end of the
/// log, starting no earlier than its subscription: a message published before
/// someone subscribed never reaches them.
pub proof fn lemma_no_replay(h: Hub, id: int)
    requires
        h.wf(),
        h.subscribed(id),
    ensures
        h.joined_at(id) <= h.cursor(id) <= h.log().len(),
        h.pending(id).len() <= h.capacity(),
        h.pending(id) == h.log().subrange(h.cursor(id), h.log().len() as int),
{
    assert(h.queues@[id]@.len() <= h.capacity);
}

/// Any two live subscribers wait on the same messages in the same order: the
/// shorter queue is the tail of the longer one.
pub proof fn lemma_common_order(h: Hub, a: int, b: int)
    requires
        h.wf(),
        h.subscribed(a),
        h.subscribed(b),
        h.pending(a).len() <= h.pending(b).len(),
    ensures
        h.pending(a) == h.pending(b).subrange(
            h.pending(b).len() - h.pending(a).len(),
            h.pending(b).len() as int,
        ),
{
    lemma_no_replay(h, a);
    lemma_no_replay(h, b);
    assert(h.pending(a) =~= h.pending(b).subrange(
        h.pending(b).len() - h.pending(a).len(),
        h.pending(b).len() as int,
    ));
}

proof fn lemma_keep_last_push(s: Seq<String>, m: String, cap: nat)
    requires
        cap > 0,
    ensures
        keep_last(keep_last(s, cap).push(m), cap) == keep_last(s.push(m), cap),
{
    assert(keep_last(keep_last(s, cap).push(m), cap) =~= keep_last(s.push(m), cap));
}

/// A subscriber that takes nothing while messages are published keeps the
/// most recent `capacity` of what it had and what came; the oldest overflow
/// is dropped. Publishing goes on regardless of it.
pub proof fn lemma_stalled_keeps_latest(hs: Seq<Hub>, ms: Seq<String>, id: int)
    requires
        hs.len() == ms.len() + 1,
        hs[0].wf(),
        hs[0].subscribed(id),
        forall|i: int| 0 <= i < ms.len() ==> publish_post(#[trigger] hs[i], ms[i], hs[i + 1]),
    ensures
        hs.last().subscribed(id),
        hs.last().capacity() == hs[0].capacity(),
        hs.last().log() == hs[0].log() + ms,
        hs.last().pending(id) == keep_last(hs[0].pending(id) + ms, hs[0].capacity()),
    decreases ms.len(),
{
    let cap = hs[0].capacity();
    if ms.len() == 0 {
        lemma_no_replay(hs[0], id);
        assert(hs[0].pending(id) + ms =~= hs[0].pending(id));
        assert(hs[0].log() + ms =~= hs[0].log());
    } else {
        let n = ms.len() - 1;
        let hs0 = hs.drop_last();
        let ms0 = ms.drop_last();
        assert forall|i: int| 0 <= i < ms0.len() implies publish_post(#[trigger] hs0[i], ms0[i], hs0[i + 1]) by {
            assert(publish_post(hs[i], ms[i], hs[i + 1]));
        }
        lemma_stalled_keeps_latest(hs0, ms0, id);
        assert(publish_post(hs[n], ms[n], hs[n + 1]));
        let p0 = hs[0].pending(id);
        lemma_keep_last_push(p0 + ms0, ms[n], cap);
        assert((p0 + ms0).push(ms[n]) =~= p0 + ms);
        assert(hs0.last() == hs[n]);
        assert((hs[0].log() + ms0).push(ms[n]) =~= hs[0].log() + ms);
    }
}

} // verus!
