//! Broadcast hub model.
//!
//! One publish point, many independent subscriber queues, each bounded.
//! Publishing appends the message to every queue; a queue already at
//! capacity first drops its oldest entry, so a slow consumer delays nobody
//! and loses only its own oldest backlog. A publish with no subscribers
//! succeeds and does nothing. Sender exclusion is not the hub's job: each
//! handler filters its own messages out of what it forwards.
//!
//! The hub keeps a ghost log of everything ever published. Every queue is
//! always a suffix of that log, which is what makes the delivery order one
//! and the same for all subscribers.

use vstd::prelude::*;
use crate::message::{clone_message, ChatMessage};

verus! {

/// A subscriber's queue after `m` is published to it: `m` is appended, and
/// the oldest entry leaves first when the queue is at capacity `cap`.
pub open spec fn publish_one(q: Seq<ChatMessage>, m: ChatMessage, cap: nat) -> Seq<ChatMessage> {
    if q.len() < cap {
        q.push(m)
    } else {
        q.drop_first().push(m)
    }
}

/// The hub: one bounded queue per subscriber, and the history of all
/// published messages.
pub struct Hub {
    pub capacity: usize,
    pub queues: Vec<Vec<ChatMessage>>,
    pub log: Ghost<Seq<ChatMessage>>,
}

/// A queue in good standing: within capacity, and a suffix of the publish
/// history.
pub open spec fn queue_wf(q: Seq<ChatMessage>, log: Seq<ChatMessage>, cap: nat) -> bool {
    &&& q.len() <= cap
    &&& q.len() <= log.len()
    &&& q == log.subrange(log.len() - q.len(), log.len() as int)
}

impl Hub {
    /// All queues in good standing.
    pub open spec fn wf(self) -> bool {
        &&& self.capacity >= 1
        &&& forall|i: int|
            0 <= i < self.queues@.len() ==> queue_wf(
                self.queues@[i]@,
                self.log@,
                self.capacity as nat,
            )
    }

    /// A hub with no subscribers yet.
    pub fn new(capacity: usize) -> (h: Hub)
        requires
            capacity >= 1,
        ensures
            h.wf(),
            h.capacity == capacity,
            h.queues@.len() == 0,
            h.log@ == Seq::<ChatMessage>::empty(),
    {
        Hub { capacity, queues: Vec::new(), log: Ghost(Seq::empty()) }
    }

    /// Registers a new subscriber and returns its handle. The new queue is
    /// empty: it observes only what is published after this call.
    pub fn subscribe(&mut self) -> (sub: usize)
        requires
            old(self).wf(),
            old(self).queues@.len() < usize::MAX,
        ensures
            final(self).wf(),
            sub == old(self).queues@.len(),
            final(self).capacity == old(self).capacity,
            final(self).log@ == old(self).log@,
            final(self).queues@.len() == old(self).queues@.len() + 1,
            final(self).queues@[sub as int]@ == Seq::<ChatMessage>::empty(),
            forall|i: int|
                0 <= i < old(self).queues@.len() ==> final(self).queues@[i] == old(
                    self,
                ).queues@[i],
    {
        let sub = self.queues.len();
        self.queues.push(Vec::new());
        proof {
            assert(self.queues@[sub as int]@ =~= self.log@.subrange(
                self.log@.len() as int,
                self.log@.len() as int,
            ));
        }
        sub
    }

    /// Publishes `m`: appends it to every subscriber queue, dropping the
    /// oldest entry of a queue already at capacity. Succeeds with no
    /// subscribers too.
    pub fn publish(&mut self, m: &ChatMessage)
        requires
            old(self).wf(),
        ensures
            final(self).wf(),
            final(self).capacity == old(self).capacity,
            final(self).queues@.len() == old(self).queues@.len(),
            final(self).log@ == old(self).log@.push(*m),
            forall|i: int|
                0 <= i < old(self).queues@.len() ==> final(self).queues@[i]@ == publish_one(
                    old(self).queues@[i]@,
                    *m,
                    old(self).capacity as nat,
                ),
    {
        let ghost old_self = *old(self);
        let n = self.queues.len();
        let mut new_queues: Vec<Vec<ChatMessage>> = Vec::new();
        let mut idx: usize = 0;
        while idx < n
            invariant
                *self == old_self,
                self.wf(),
                n == self.queues@.len(),
                idx <= n,
                new_queues@.len() == idx,
                forall|i: int|
                    0 <= i < idx ==> new_queues@[i]@ == publish_one(
                        self.queues@[i]@,
                        *m,
                        self.capacity as nat,
                    ),
            decreases n - idx,
        {
            let q = &self.queues[idx];
            let start: usize = if q.len() < self.capacity {
                0
            } else {
                1
            };
            let mut q2: Vec<ChatMessage> = Vec::new();
            let mut j = start;
            while j < q.len()
                invariant
                    start <= j <= q@.len(),
                    start <= 1,
                    q2@ == q@.subrange(start as int, j as int),
                decreases q@.len() - j,
            {
                proof {
                    assert(q@.subrange(start as int, j + 1) =~= q@.subrange(
                        start as int,
                        j as int,
                    ).push(q@[j as int]));
                }
                q2.push(clone_message(&q[j]));
                j += 1;
            }
            q2.push(clone_message(m));
            proof {
                if q@.len() < self.capacity {
                    assert(q@.subrange(0, q@.len() as int) =~= q@);
                } else {
                    assert(self.queues@[idx as int]@.len() <= self.capacity);
                    assert(q@.subrange(1, q@.len() as int) =~= q@.drop_first());
                }
                assert(q2@ == publish_one(q@, *m, self.capacity as nat));
            }
            new_queues.push(q2);
            idx += 1;
        }
        self.queues = new_queues;
        self.log = Ghost(self.log@.push(*m));
        proof {
            let log0 = old_self.log@;
            let cap = old_self.capacity as nat;
            assert forall|i: int| 0 <= i < self.queues@.len() implies queue_wf(
                self.queues@[i]@,
                self.log@,
                cap,
            ) by {
                let q0 = old_self.queues@[i]@;
                let q1 = self.queues@[i]@;
                assert(q1 == publish_one(q0, *m, cap));
                assert(q0 == log0.subrange(log0.len() - q0.len(), log0.len() as int));
                assert(q1 =~= self.log@.subrange(
                    self.log@.len() - q1.len(),
                    self.log@.len() as int,
                ));
            }
        }
    }

    /// The number of registered subscribers.
    pub fn subscriber_count(&self) -> (n: usize)
        ensures
            n == self.queues@.len(),
    {
        self.queues.len()
    }

    /// Takes the oldest pending message of subscriber `sub`, if any.
    pub fn recv(&mut self, sub: usize) -> (r: Option<ChatMessage>)
        requires
            old(self).wf(),
            sub < old(self).queues@.len(),
        ensures
            final(self).wf(),
            final(self).capacity == old(self).capacity,
            final(self).log@ == old(self).log@,
            final(self).queues@.len() == old(self).queues@.len(),
            forall|i: int|
                0 <= i < old(self).queues@.len() && i != sub ==> final(self).queues@[i] == old(
                    self,
                ).queues@[i],
            old(self).queues@[sub as int]@.len() == 0 ==> r is None && final(self).queues@[
                sub as int
            ] == old(self).queues@[sub as int],
            old(self).queues@[sub as int]@.len() > 0 ==> {
                &&& r == Some(old(self).queues@[sub as int]@[0])
                &&& final(self).queues@[sub as int]@ == old(self).queues@[sub as int]@.drop_first()
            },
    {
        let ghost old_self = *old(self);
        if self.queues[sub].is_empty() {
            return None;
        }
        let mut q = self.queues.remove(sub);
        let front = q.remove(0);
        self.queues.insert(sub, q);
        proof {
            assert(self.queues@ =~= old_self.queues@.update(
                sub as int,
                self.queues@[sub as int],
            ));
            let log = self.log@;
            let q0 = old_self.queues@[sub as int]@;
            let q1 = self.queues@[sub as int]@;
            assert(q1 =~= q0.drop_first());
            assert(q0 == log.subrange(log.len() - q0.len(), log.len() as int));
            assert(q1 =~= log.subrange(log.len() - q1.len(), log.len() as int));
        }
        Some(front)
    }
}

/// Shared order: every pending queue is a suffix of the hub's publish
/// history, so any two entries of any queue stand in the history in queue
/// order — all subscribers observe one and the same delivery order.
pub proof fn lemma_shared_order(h: Hub, i: int, a: int, b: int)
    requires
        h.wf(),
        0 <= i < h.queues@.len(),
        0 <= a < b < h.queues@[i]@.len(),
    ensures
        h.queues@[i]@[a] == h.log@[h.log@.len() - h.queues@[i]@.len() + a],
        h.queues@[i]@[b] == h.log@[h.log@.len() - h.queues@[i]@.len() + b],
        h.log@.len() - h.queues@[i]@.len() + a < h.log@.len() - h.queues@[i]@.len() + b,
{
    let q = h.queues@[i]@;
    let log = h.log@;
    let s = log.len() - q.len();
    assert(q == log.subrange(s, log.len() as int));
    assert(q[a] == log.subrange(s, log.len() as int)[a]);
    assert(q[b] == log.subrange(s, log.len() as int)[b]);
}

/// Ordering: when a client publishes `m1` and then `m2`, every queue with
/// room for both ends with `m1` directly before `m2`, so each subscriber
/// takes `m1` out before `m2`.
pub proof fn lemma_publish_pair(q: Seq<ChatMessage>, m1: ChatMessage, m2: ChatMessage, cap: nat)
    requires
        cap >= 2,
    ensures
        ({
            let q2 = publish_one(publish_one(q, m1, cap), m2, cap);
            &&& q2.len() >= 2
            &&& q2[q2.len() - 2] == m1
            &&& q2[q2.len() - 1] == m2
        }),
{
}

/// Self-suppression with fan-out: a published message lands at the tail of
/// every subscriber queue; the handler of the client that sent it never
/// forwards it back, and the handler of any other client does.
pub proof fn lemma_self_suppression(
    q: Seq<ChatMessage>,
    m: ChatMessage,
    cap: nat,
    own: crate::message::ClientId,
)
    requires
        cap >= 1,
    ensures
        publish_one(q, m, cap).last() == m,
        !crate::handler::forwards_to(m.origin, m),
        own != m.origin ==> crate::handler::forwards_to(own, m),
{
}

/// Join and leave announcements reach everyone else: an announcement
/// published for client `c` lands at the tail of every subscriber queue,
/// and every handler of a client other than `c` forwards it.
pub proof fn lemma_announcement_delivered(
    q: Seq<ChatMessage>,
    m: ChatMessage,
    cap: nat,
    own: crate::message::ClientId,
)
    requires
        cap >= 1,
        m.text@ == crate::message::join_text() || m.text@ == crate::message::leave_text(),
    ensures
        publish_one(q, m, cap).last() == m,
        own != m.origin ==> crate::handler::forwards_to(own, m),
{
}

} // verus!
