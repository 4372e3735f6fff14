//! What holds of the auction across its operations.

use vstd::prelude::*;
use crate::model::{
    lemma_first_index, lemma_first_index_at, lemma_first_index_none, lemma_pool_within_total,
    lemma_sum_push, open_on, pool, predicts, Ledger,
};
use crate::types::{AccountId, BidView, Error, Payout};

verus! {

/// A bid whose amount does not exceed the floor of its event is refused, and
/// no bid is recorded.
pub proof fn lemma_bid_at_floor_not_recorded(
    l: Ledger,
    id: Seq<char>,
    date: Seq<char>,
    amount: u128,
    author: AccountId,
)
    requires
        l.wf(),
        l.event_of(id) >= 0,
        amount <= l.events[l.event_of(id)].min_bid_amount,
    ensures
        l.bid_error(id, amount) is Some,
        l.after_bid(id, date, amount, author).bids == l.bids,
{
}

/// Once a topic has been resolved with a payout, it has no open event left:
/// resolving it again fails with `NotFound`, finalizes nothing and pays
/// nothing.
pub proof fn lemma_resolve_once(l: Ledger, topic: Seq<char>, first: Seq<char>, second: Seq<char>)
    requires
        l.wf(),
        l.resolution(topic, first) is Ok,
    ensures
        l.resolved(topic, first).resolution(topic, second) == Err::<Payout, Error>(Error::NotFound),
        l.resolved(topic, first).resolved(topic, second) == l.resolved(topic, first),
{
    let k = l.open_event_on(topic);
    let id = l.events[k].identifier;
    let n = l.resolved(topic, first);
    lemma_first_index(l.events, open_on(topic));
    assert forall|j: int| 0 <= j < n.events.len() implies !open_on(topic)(#[trigger] n.events[j]) by {
        if j != k && l.events[j].identifier != id && !l.events[j].finalized && l.events[j].topic == topic {
            if j < k {
                assert(!open_on(topic)(l.events[j]));
            } else {
                assert(l.events[k].topic != l.events[j].topic);
            }
        }
    }
    lemma_first_index_none(n.events, open_on(topic));
}

/// The payout of a resolution is the sum of the amounts of all bids on the
/// resolved event, no more and no less.
pub proof fn lemma_payout_is_pool(l: Ledger, topic: Seq<char>, date: Seq<char>)
    requires
        l.wf(),
        l.resolution(topic, date) is Ok,
    ensures
        l.resolution(topic, date)->Ok_0.amount as int == pool(
            l.bids,
            l.events[l.open_event_on(topic)].identifier,
        ),
{
    lemma_first_index(l.events, open_on(topic));
    lemma_pool_within_total(l.bids, l.events[l.open_event_on(topic)].identifier);
}

/// Where exactly one bid on the open event of `topic` predicts `date`, its
/// author receives the whole pool of the event.
pub proof fn lemma_sole_prediction_wins(l: Ledger, topic: Seq<char>, date: Seq<char>, w: int)
    requires
        l.wf(),
        l.open_event_on(topic) >= 0,
        0 <= w < l.bids.len(),
        l.bids[w].identifier == l.events[l.open_event_on(topic)].identifier,
        l.bids[w].estimated_date == date,
        forall|j: int|
            0 <= j < l.bids.len() && j != w && (#[trigger] l.bids[j]).identifier == l.events[l.open_event_on(
                topic,
            )].identifier ==> l.bids[j].estimated_date != date,
    ensures
        l.resolution(topic, date) == Ok::<Payout, Error>(
            Payout {
                to: l.bids[w].author,
                amount: pool(l.bids, l.events[l.open_event_on(topic)].identifier) as u128,
            },
        ),
        pool(l.bids, l.events[l.open_event_on(topic)].identifier) <= u128::MAX,
{
    let id = l.events[l.open_event_on(topic)].identifier;
    lemma_first_index(l.events, open_on(topic));
    assert forall|j: int| 0 <= j < w implies !predicts(id, date)(#[trigger] l.bids[j]) by {}
    lemma_first_index_at(l.bids, predicts(id, date), w);
    lemma_pool_within_total(l.bids, id);
}

/// Creating an event leaves every existing event and every bid as it was.
pub proof fn lemma_add_event_isolated(l: Ledger, id: Seq<char>, topic: Seq<char>, floor: u128)
    ensures
        l.after_event(id, topic, floor).bids == l.bids,
        l.after_event(id, topic, floor).events.len() >= l.events.len(),
        forall|i: int|
            0 <= i < l.events.len() ==> #[trigger] l.after_event(id, topic, floor).events[i] == l.events[i],
{
}

/// Placing a bid on `id` leaves the events, the earlier bids, and the pool of
/// every other event as they were.
pub proof fn lemma_bid_isolated(
    l: Ledger,
    id: Seq<char>,
    date: Seq<char>,
    amount: u128,
    author: AccountId,
    other: Seq<char>,
)
    requires
        other != id,
    ensures
        l.after_bid(id, date, amount, author).events == l.events,
        l.after_bid(id, date, amount, author).bids.len() >= l.bids.len(),
        forall|i: int|
            0 <= i < l.bids.len() ==> #[trigger] l.after_bid(id, date, amount, author).bids[i] == l.bids[i],
        pool(l.after_bid(id, date, amount, author).bids, other) == pool(l.bids, other),
{
    let b = BidView { identifier: id, estimated_date: date, bid_amount: amount, author: author };
    lemma_sum_push(l.bids, b, other);
}

/// Resolving `topic` leaves every bid, and every event on another topic, as
/// it was.
pub proof fn lemma_resolution_isolated(l: Ledger, topic: Seq<char>, date: Seq<char>)
    requires
        l.wf(),
    ensures
        l.resolved(topic, date).bids == l.bids,
        l.resolved(topic, date).events.len() == l.events.len(),
        forall|i: int|
            0 <= i < l.events.len() && l.events[i].topic != topic ==> #[trigger] l.resolved(
                topic,
                date,
            ).events[i] == l.events[i],
{
    lemma_first_index(l.events, open_on(topic));
    let k = l.open_event_on(topic);
    if l.resolution(topic, date) is Ok {
        assert forall|i: int| 0 <= i < l.events.len() && l.events[i].topic != topic implies #[trigger] l.resolved(
            topic,
            date,
        ).events[i] == l.events[i] by {
            if i < k {
                assert(l.events[i].identifier != l.events[k].identifier);
            } else if i > k {
                assert(l.events[k].identifier != l.events[i].identifier);
            }
        }
    }
}

/// A resolution never reopens an event: what was finalized stays finalized.
pub proof fn lemma_finalized_stays_finalized(l: Ledger, topic: Seq<char>, date: Seq<char>, i: int)
    requires
        0 <= i < l.events.len(),
        l.events[i].finalized,
    ensures
        l.resolved(topic, date).events[i].finalized,
{
}

} // verus!
