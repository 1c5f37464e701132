//! Subscribers, as the subscriber directory reports them.
//!
//! The pipeline only reads them: an issue goes to those who are confirmed at
//! the moment of publication.

use vstd::prelude::*;
use crate::ids::SubscriberId;

verus! {

/// Whether a subscriber has confirmed the subscription.
#[derive(Clone, Copy, Debug, PartialEq, Eq, Structural)]
pub enum SubscriberStatus {
    /// Signed up; the confirmation is still to come.
    PendingConfirmation,
    Confirmed,
}

/// A subscriber.
#[derive(Clone, Debug, PartialEq, Eq)]
pub struct Subscriber {
    pub id: SubscriberId,
    pub email: String,
    pub status: SubscriberStatus,
}

/// The identities of the confirmed among `subscribers`, in their order.
pub open spec fn confirmed_ids(subscribers: Seq<Subscriber>) -> Seq<SubscriberId>
    decreases subscribers.len(),
{
    if subscribers.len() == 0 {
        Seq::empty()
    } else {
        let before = confirmed_ids(subscribers.drop_last());
        if subscribers.last().status == SubscriberStatus::Confirmed {
            before.push(subscribers.last().id)
        } else {
            before
        }
    }
}

/// An identity is among the confirmed exactly if a confirmed subscriber bears it.
pub proof fn lemma_confirmed_ids(subscribers: Seq<Subscriber>, id: SubscriberId)
    ensures
        confirmed_ids(subscribers).contains(id) <==> exists|i: int|
            0 <= i < subscribers.len() && (#[trigger] subscribers[i]).id == id && subscribers[i].status
                == SubscriberStatus::Confirmed,
        confirmed_ids(subscribers).len() <= subscribers.len(),
    decreases subscribers.len(),
{
    if subscribers.len() > 0 {
        let head = subscribers.drop_last();
        let last = subscribers.last();
        lemma_confirmed_ids(head, id);
        let before = confirmed_ids(head);
        let all = confirmed_ids(subscribers);
        if all.contains(id) {
            let k = choose|k: int| 0 <= k < all.len() && all[k] == id;
            if k < before.len() {
                assert(before[k] == id);
                assert(before.contains(id));
                let i = choose|i: int|
                    0 <= i < head.len() && (#[trigger] head[i]).id == id && head[i].status
                        == SubscriberStatus::Confirmed;
                assert(subscribers[i].id == id);
            } else {
                assert(subscribers[subscribers.len() - 1].id == id);
            }
        }
        if exists|i: int|
            0 <= i < subscribers.len() && (#[trigger] subscribers[i]).id == id && subscribers[i].status
                == SubscriberStatus::Confirmed {
            let i = choose|i: int|
                0 <= i < subscribers.len() && (#[trigger] subscribers[i]).id == id
                    && subscribers[i].status == SubscriberStatus::Confirmed;
            if i < head.len() {
                assert(head[i].id == id);
                assert(before.contains(id));
                let k = choose|k: int| 0 <= k < before.len() && before[k] == id;
                assert(all[k] == id);
            } else {
                assert(all[all.len() - 1] == id);
            }
        }
    }
}

/// Picks the identities of the confirmed subscribers, in their order.
pub fn list_confirmed_subscriber_ids(subscribers: &Vec<Subscriber>) -> (ids: Vec<SubscriberId>)
    ensures
        ids@ == confirmed_ids(subscribers@),
{
    let mut ids: Vec<SubscriberId> = Vec::new();
    let mut i: usize = 0;
    while i < subscribers.len()
        invariant
            i <= subscribers.len(),
            ids@ == confirmed_ids(subscribers@.take(i as int)),
        decreases subscribers.len() - i,
    {
        proof {
            assert(subscribers@.take(i as int + 1).drop_last() =~= subscribers@.take(i as int));
        }
        match subscribers[i].status {
            SubscriberStatus::Confirmed => {
                ids.push(subscribers[i].id);
            },
            SubscriberStatus::PendingConfirmation => {},
        }
        i += 1;
    }
    assert(subscribers@.take(i as int) =~= subscribers@);
    ids
}

} // verus!
