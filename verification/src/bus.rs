//! The message bus: broadcast publish/subscribe over orchestrator messages,
//! modeled as one bounded queue per subscriber with an oldest-message-drop
//! policy on overflow. Publishers never wait for a slow subscriber; a full
//! queue loses its oldest message instead.

use vstd::prelude::*;

use crate::errors::HybridLLMError;
use crate::messages::MessageView;
use crate::messages::OrchestratorMessage;

verus! {

/// What a bounded enqueue does to one subscriber's queue: the message is
/// appended, and when the queue is at capacity its oldest message is
/// dropped first.
pub open spec fn bounded_push(q: Seq<MessageView>, m: MessageView, cap: nat) -> Seq<MessageView> {
    if q.len() < cap {
        q.push(m)
    } else {
        q.drop_first().push(m)
    }
}

/// Appends a message to a queue, extending the queue's view.
fn push_message(v: &mut Vec<OrchestratorMessage>, m: OrchestratorMessage)
    ensures
        final(v).deep_view() == old(v).deep_view().push(m@),
{
    let ghost mv = m@;
    v.push(m);
    proof {
        let dv = v.deep_view();
        let odv = old(v).deep_view();
        assert(forall|j: int| 0 <= j < odv.len() ==> dv[j] == odv[j]);
        assert(dv[odv.len() as int] == mv);
        assert(dv =~= odv.push(mv));
    }
}

/// Removes and returns a queue's oldest message.
fn pop_front_message(v: &mut Vec<OrchestratorMessage>) -> (m: OrchestratorMessage)
    requires
        old(v)@.len() > 0,
    ensures
        m@ == old(v).deep_view()[0],
        final(v).deep_view() == old(v).deep_view().drop_first(),
{
    let m = v.remove(0);
    proof {
        let dv = v.deep_view();
        let odv = old(v).deep_view();
        assert(forall|j: int| 0 <= j < dv.len() ==> v@[j] == old(v)@[j + 1]);
        assert(forall|j: int| 0 <= j < dv.len() ==> dv[j] == odv[j + 1]);
        assert(dv =~= odv.drop_first());
    }
    m
}

/// The broadcast fabric: every published message is fanned out to every
/// live subscriber queue.
pub struct MessageBus {
    pub capacity: usize,
    pub queues: Vec<Vec<OrchestratorMessage>>,
}

impl MessageBus {
    /// The capacity is positive and no queue exceeds it.
    pub open spec fn wf(self) -> bool {
        &&& self.capacity >= 1
        &&& forall|q: int|
            0 <= q < self.queues@.len() ==> (#[trigger] self.queues@[q])@.len() <= self.capacity
    }

    /// One subscriber's pending messages, oldest first.
    pub open spec fn queue_view(self, q: int) -> Seq<MessageView> {
        self.queues@[q].deep_view()
    }

    /// A bus with the given per-subscriber capacity and no subscribers yet.
    pub fn new(capacity: usize) -> (b: Self)
        requires
            capacity >= 1,
        ensures
            b.wf(),
            b.capacity == capacity,
            b.queues@.len() == 0,
    {
        MessageBus { capacity, queues: Vec::new() }
    }

    /// Registers a new subscriber, which observes only messages published
    /// after this call; returns its handle.
    pub fn subscribe(&mut self) -> (sub: usize)
        requires
            old(self).wf(),
        ensures
            final(self).wf(),
            final(self).capacity == old(self).capacity,
            sub == old(self).queues@.len(),
            final(self).queues@.len() == old(self).queues@.len() + 1,
            final(self).queue_view(sub as int) == Seq::<MessageView>::empty(),
            forall|q: int|
                0 <= q < old(self).queues@.len() ==> (#[trigger] final(self).queues@[q])
                    == old(self).queues@[q],
    {
        let sub = self.queues.len();
        self.queues.push(Vec::new());
        proof {
            assert(self.queues@[sub as int].deep_view() =~= Seq::<MessageView>::empty());
        }
        sub
    }

    /// Delivers the message to every subscriber queue, dropping the oldest
    /// pending message of any queue already at capacity; fails only when
    /// there is no subscriber at all.
    pub fn publish(&mut self, message: OrchestratorMessage) -> (r: Result<(), HybridLLMError>)
        requires
            old(self).wf(),
        ensures
            final(self).wf(),
            final(self).capacity == old(self).capacity,
            final(self).queues@.len() == old(self).queues@.len(),
            old(self).queues@.len() == 0 ==> r is Err && (r matches Err(e) ==> e is Other)
                && *final(self) == *old(self),
            old(self).queues@.len() > 0 ==> r is Ok && forall|q: int|
                0 <= q < old(self).queues@.len() ==> final(self).queue_view(q) == bounded_push(
                    old(self).queue_view(q),
                    message@,
                    old(self).capacity as nat,
                ),
    {
        let n = self.queues.len();
        if n == 0 {
            return Err(HybridLLMError::Other("no subscribers to receive the message".to_owned()));
        }
        let ghost pre = *old(self);
        let mut q: usize = 0;
        while q < n
            invariant
                n == self.queues@.len(),
                n == pre.queues@.len(),
                q <= n,
                self.capacity == pre.capacity,
                self.capacity >= 1,
                forall|j: int|
                    q <= j < n ==> (#[trigger] self.queues@[j]) == pre.queues@[j],
                forall|j: int|
                    0 <= j < q ==> (#[trigger] self.queues@[j]).deep_view() == bounded_push(
                        pre.queue_view(j),
                        message@,
                        pre.capacity as nat,
                    ),
                forall|j: int|
                    0 <= j < n ==> (#[trigger] self.queues@[j])@.len() <= self.capacity,
            decreases n - q,
        {
            if self.queues[q].len() >= self.capacity {
                let _dropped = pop_front_message(&mut self.queues[q]);
            }
            let copy = message.clone();
            push_message(&mut self.queues[q], copy);
            proof {
                let qd = self.queues@[q as int];
                assert(qd@.len() == qd.deep_view().len());
                assert(qd.deep_view() == bounded_push(
                    pre.queue_view(q as int),
                    message@,
                    pre.capacity as nat,
                ));
                assert(qd@.len() <= self.capacity);
            }
            q += 1;
        }
        Ok(())
    }

    /// Takes the oldest pending message of one subscriber, if any.
    pub fn recv(&mut self, sub: usize) -> (r: Option<OrchestratorMessage>)
        requires
            old(self).wf(),
            sub < old(self).queues@.len(),
        ensures
            final(self).wf(),
            final(self).capacity == old(self).capacity,
            final(self).queues@.len() == old(self).queues@.len(),
            old(self).queue_view(sub as int).len() == 0 ==> r is None && *final(self) == *old(
                self,
            ),
            old(self).queue_view(sub as int).len() > 0 ==> {
                &&& r matches Some(m) && m@ == old(self).queue_view(sub as int)[0]
                &&& final(self).queue_view(sub as int) == old(self).queue_view(
                    sub as int,
                ).drop_first()
                &&& forall|q: int|
                    0 <= q < old(self).queues@.len() && q != sub
                        ==> (#[trigger] final(self).queues@[q]) == old(self).queues@[q]
            },
    {
        if self.queues[sub].len() == 0 {
            return None;
        }
        let m = pop_front_message(&mut self.queues[sub]);
        proof {
            let qd = self.queues@[sub as int];
            assert(qd@.len() == qd.deep_view().len());
            assert(qd.deep_view() == old(self).queue_view(sub as int).drop_first());
            assert(qd@.len() <= self.capacity);
        }
        Some(m)
    }

    /// The number of live subscribers.
    pub fn subscriber_count(&self) -> (n: usize)
        ensures
            n == self.queues@.len(),
    {
        self.queues.len()
    }
}

} // verus!
