//! What holds of the bus whatever is published, in whatever order
//! subscribers come and go.

use crate::bus::{published, published_all};
use vstd::prelude::*;

verus! {

/// Publishing on a bus without subscribers changes nothing.
pub proof fn lemma_publish_without_subscribers<T>(limit: nat, message: T)
    ensures
        published(Map::<int, Seq<T>>::empty(), limit, message) == Map::<int, Seq<T>>::empty(),
{
}

/// Publishing neither adds nor removes a subscriber.
pub proof fn lemma_publish_keeps_subscribers<T>(
    queues: Map<int, Seq<T>>,
    limit: nat,
    messages: Seq<T>,
)
    ensures
        published_all(queues, limit, messages).dom() == queues.dom(),
    decreases messages.len(),
{
    if messages.len() > 0 {
        lemma_publish_keeps_subscribers(queues, limit, messages.drop_last());
    }
}

/// A subscriber whose queue has room for them gets the messages that are
/// published in the order in which they are published, behind what waited
/// already.
pub proof fn lemma_published_in_order<T>(
    queues: Map<int, Seq<T>>,
    limit: nat,
    messages: Seq<T>,
    id: int,
)
    requires
        queues.contains_key(id),
        queues[id].len() + messages.len() <= limit,
    ensures
        published_all(queues, limit, messages).contains_key(id),
        published_all(queues, limit, messages)[id] == queues[id] + messages,
    decreases messages.len(),
{
    if messages.len() > 0 {
        lemma_published_in_order(queues, limit, messages.drop_last(), id);
    }
}

/// A subscriber that comes after some messages were published gets none of
/// them: its queue holds what is published after it came, and nothing else.
pub proof fn lemma_late_subscriber<T>(
    queues: Map<int, Seq<T>>,
    limit: nat,
    earlier: Seq<T>,
    later: Seq<T>,
    id: int,
)
    requires
        !queues.contains_key(id),
        later.len() <= limit,
    ensures
        !published_all(queues, limit, earlier).contains_key(id),
        published_all(
            published_all(queues, limit, earlier).insert(id, Seq::empty()),
            limit,
            later,
        )[id] == later,
{
    lemma_publish_keeps_subscribers(queues, limit, earlier);
    let joined = published_all(queues, limit, earlier).insert(id, Seq::<T>::empty());
    lemma_published_in_order(joined, limit, later, id);
}

/// What one subscriber gets does not depend on how full another
/// subscriber's queue is.
pub proof fn lemma_queues_are_independent<T>(
    queues: Map<int, Seq<T>>,
    limit: nat,
    message: T,
    id: int,
    other: int,
    backlog: Seq<T>,
)
    requires
        queues.contains_key(id),
        id != other,
    ensures
        published(queues.insert(other, backlog), limit, message)[id] == published(
            queues,
            limit,
            message,
        )[id],
{
}

} // verus!
