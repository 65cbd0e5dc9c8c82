//! A publish/subscribe hub: every message that is published is put, in the
//! order of the `publish` calls, into the queue of each subscriber registered
//! at that moment. Each subscriber takes from its own queue, at its own pace.
//!
//! The bus knows nothing of the messages that it carries.

use std::collections::VecDeque;
use std::rc::Rc;
use vstd::prelude::*;

verus! {

/// A message was not put into every queue.
#[derive(Debug, Clone, Copy, PartialEq, Eq)]
pub enum PublishError {
    /// At least one subscriber's queue was full and did not get the message.
    /// Every other subscriber has it.
    Overflow,
}

/// What a subscriber holds of its subscription. It is handed out by
/// [`EventBus::subscribe`] and given back to [`EventBus::unsubscribe`].
#[derive(Debug)]
pub struct SubscriptionHandle {
    slot: usize,
}

impl SubscriptionHandle {
    /// The number by which the bus knows this subscriber.
    pub closed spec fn id(&self) -> int {
        self.slot as int
    }
}

/// What waits for each subscriber, oldest first.
pub open spec fn queue_view<T>(queue: Seq<Rc<T>>) -> Seq<T> {
    Seq::new(queue.len(), |i: int| *queue[i])
}

/// The queues after `message` was published: it stands at the end of every
/// queue that held fewer than `limit` messages.
pub open spec fn published<T>(queues: Map<int, Seq<T>>, limit: nat, message: T) -> Map<
    int,
    Seq<T>,
> {
    Map::new(
        |id: int| queues.contains_key(id),
        |id: int|
            if queues[id].len() < limit {
                queues[id].push(message)
            } else {
                queues[id]
            },
    )
}

/// The queues after the messages of `messages` were published one after the
/// other.
pub open spec fn published_all<T>(queues: Map<int, Seq<T>>, limit: nat, messages: Seq<T>) -> Map<
    int,
    Seq<T>,
>
    decreases messages.len(),
{
    if messages.len() == 0 {
        queues
    } else {
        published(published_all(queues, limit, messages.drop_last()), limit, messages.last())
    }
}

/// The hub. Its value is the map from each subscriber's number to the
/// messages that wait for that subscriber, oldest first.
pub struct EventBus<T> {
    slots: Vec<Option<VecDeque<Rc<T>>>>,
    limit: usize,
}

impl<T> View for EventBus<T> {
    type V = Map<int, Seq<T>>;

    closed spec fn view(&self) -> Map<int, Seq<T>> {
        Map::new(
            |id: int| 0 <= id < self.slots@.len() && self.slots@[id] is Some,
            |id: int| queue_view(self.slots@[id]->0@),
        )
    }
}

impl<T> EventBus<T> {
    /// No queue holds more messages than the limit.
    pub closed spec fn wf(&self) -> bool {
        forall|i: int|
            0 <= i < self.slots@.len() ==> ((#[trigger] self.slots@[i]) matches Some(queue)
                ==> queue@.len() <= self.limit)
    }

    /// How many messages may wait for one subscriber.
    pub closed spec fn limit(&self) -> nat {
        self.limit as nat
    }

    /// The queues after `message` is published.
    pub open spec fn after_publish(&self, message: T) -> Map<int, Seq<T>> {
        published(self@, self.limit(), message)
    }

    /// Some subscriber's queue is full.
    pub open spec fn has_full_queue(&self) -> bool {
        exists|id: int| #[trigger] self@.contains_key(id) && self@[id].len() >= self.limit()
    }

    /// A bus without subscribers, where up to `limit` messages may wait for
    /// each subscriber.
    pub fn new(limit: usize) -> (r: EventBus<T>)
        ensures
            r.wf(),
            r@ == Map::<int, Seq<T>>::empty(),
            r.limit() == limit,
    {
        EventBus { slots: Vec::new(), limit }
    }

    /// Registers a subscriber. Its queue starts empty: it gets what is
    /// published from now on, and nothing of what was published before.
    pub fn subscribe(&mut self) -> (r: SubscriptionHandle)
        requires
            old(self).wf(),
        ensures
            final(self).wf(),
            !old(self)@.contains_key(r.id()),
            final(self)@ == old(self)@.insert(r.id(), Seq::empty()),
            final(self).limit() == old(self).limit(),
    {
        let mut i: usize = 0;
        while i < self.slots.len() && self.slots[i].is_some()
            invariant
                i <= self.slots.len(),
                *self == *old(self),
            decreases self.slots.len() - i,
        {
            i += 1;
        }
        let fresh: VecDeque<Rc<T>> = VecDeque::new();
        assert(queue_view(fresh@) =~= Seq::<T>::empty());
        if i < self.slots.len() {
            self.slots[i] = Some(fresh);
        } else {
            self.slots.push(Some(fresh));
        }
        SubscriptionHandle { slot: i }
    }

    /// Removes a subscriber, and with it what still waited for it. A handle
    /// that this bus does not know changes nothing.
    pub fn unsubscribe(&mut self, handle: SubscriptionHandle)
        requires
            old(self).wf(),
        ensures
            final(self).wf(),
            final(self)@ == old(self)@.remove(handle.id()),
            final(self).limit() == old(self).limit(),
    {
        if handle.slot < self.slots.len() {
            self.slots[handle.slot] = None;
        }
    }

    /// Whether the handle is one of a subscriber of this bus.
    pub fn is_subscribed(&self, handle: &SubscriptionHandle) -> (r: bool)
        ensures
            r == self@.contains_key(handle.id()),
    {
        handle.slot < self.slots.len() && self.slots[handle.slot].is_some()
    }

    /// Puts `message` at the end of the queue of every subscriber. A queue
    /// that is full does not get it, and the call reports `Overflow`; the
    /// other queues get it all the same. Without subscribers nothing happens.
    pub fn publish(&mut self, message: T) -> (r: Result<(), PublishError>)
        requires
            old(self).wf(),
        ensures
            final(self).wf(),
            final(self)@ == old(self).after_publish(message),
            final(self).limit() == old(self).limit(),
            r is Err <==> old(self).has_full_queue(),
    {
        let shared = Rc::new(message);
        let mut complete = true;
        let mut i: usize = 0;
        while i < self.slots.len()
            invariant
                i <= self.slots.len(),
                self.limit == old(self).limit,
                self.slots@.len() == old(self).slots@.len(),
                *shared == message,
                forall|k: int|
                    0 <= k < self.slots@.len() ==> ((#[trigger] self.slots@[k]) matches Some(
                        queue,
                    ) ==> queue@.len() <= self.limit),
                forall|k: int|
                    i <= k < self.slots@.len() ==> #[trigger] self.slots@[k] == old(
                        self,
                    ).slots@[k],
                forall|k: int|
                    0 <= k < i ==> (#[trigger] self.slots@[k] is Some) == (old(self).slots@[k]
                        is Some),
                forall|k: int|
                    0 <= k < i && old(self).slots@[k] is Some ==> queue_view(
                        (#[trigger] self.slots@[k])->0@,
                    ) == published(old(self)@, old(self).limit(), message)[k],
                complete <==> forall|k: int|
                    0 <= k < i && #[trigger] old(self)@.contains_key(k) ==> old(self)@[k].len()
                        < self.limit,
            decreases self.slots.len() - i,
        {
            let ghost before = self.slots@[i as int];
            match &mut self.slots[i] {
                Some(queue) => {
                    if queue.len() < self.limit {
                        queue.push_back(shared.clone());
                    } else {
                        complete = false;
                    }
                },
                None => {},
            }
            assert(old(self)@.contains_key(i as int) == (before is Some));
            i += 1;
        }
        if complete {
            Ok(())
        } else {
            Err(PublishError::Overflow)
        }
    }

    /// How many messages wait for the subscriber, which is never more than
    /// the limit; none for a handle that this bus does not know.
    pub fn pending(&self, handle: &SubscriptionHandle) -> (r: usize)
        requires
            self.wf(),
        ensures
            r == if self@.contains_key(handle.id()) {
                self@[handle.id()].len()
            } else {
                0
            },
            r <= self.limit(),
    {
        if handle.slot < self.slots.len() {
            match &self.slots[handle.slot] {
                Some(queue) => queue.len(),
                None => 0,
            }
        } else {
            0
        }
    }

    /// Takes the oldest message that waits for the subscriber out of its
    /// queue; `None` where nothing waits, or the bus does not know the handle.
    pub fn take(&mut self, handle: &SubscriptionHandle) -> (r: Option<Rc<T>>)
        requires
            old(self).wf(),
        ensures
            final(self).wf(),
            final(self).limit() == old(self).limit(),
            match r {
                Some(message) => {
                    &&& old(self)@.contains_key(handle.id())
                    &&& old(self)@[handle.id()].len() > 0
                    &&& *message == old(self)@[handle.id()][0]
                    &&& final(self)@ == old(self)@.insert(
                        handle.id(),
                        old(self)@[handle.id()].skip(1),
                    )
                },
                None => final(self)@ == old(self)@ && (old(self)@.contains_key(handle.id())
                    ==> old(self)@[handle.id()].len() == 0),
            },
    {
        if handle.slot >= self.slots.len() {
            return None;
        }
        let ghost before = self.slots@[handle.slot as int];
        match &mut self.slots[handle.slot] {
            Some(queue) => {
                let r = queue.pop_front();
                assert(r is Some ==> queue_view(queue@) =~= queue_view(before->0@).skip(1));
                r
            },
            None => None,
        }
    }
}

} // verus!
