//! The mathematical state of the auction and what each operation does to it.

use vstd::prelude::*;
use crate::types::{AccountId, BidView, Error, EventView, Payout};

verus! {

/// All events and all bids, in the order in which they were accepted.
pub struct Ledger {
    pub events: Seq<EventView>,
    pub bids: Seq<BidView>,
}

/// The index of the first element of `s` that satisfies `p`, or -1.
pub open spec fn first_index<A>(s: Seq<A>, p: spec_fn(A) -> bool) -> int
    decreases s.len(),
{
    if s.len() == 0 {
        -1
    } else {
        let r = first_index(s.drop_last(), p);
        if r >= 0 {
            r
        } else if p(s.last()) {
            s.len() - 1
        } else {
            -1
        }
    }
}

/// The event carries this identifier.
pub open spec fn has_identifier(id: Seq<char>) -> spec_fn(EventView) -> bool {
    |e: EventView| e.identifier == id
}

/// The event is open and carries this topic.
pub open spec fn open_on(topic: Seq<char>) -> spec_fn(EventView) -> bool {
    |e: EventView| !e.finalized && e.topic == topic
}

/// The bid is on the event `id` and predicts `date`.
pub open spec fn predicts(id: Seq<char>, date: Seq<char>) -> spec_fn(BidView) -> bool {
    |b: BidView| b.identifier == id && b.estimated_date == date
}

/// The sum of the amounts of the bids on the event `id`.
pub open spec fn pool(bids: Seq<BidView>, id: Seq<char>) -> int
    decreases bids.len(),
{
    if bids.len() == 0 {
        0
    } else {
        pool(bids.drop_last(), id) + if bids.last().identifier == id {
            bids.last().bid_amount as int
        } else {
            0
        }
    }
}

/// The sum of the amounts of all bids.
pub open spec fn total(bids: Seq<BidView>) -> int
    decreases bids.len(),
{
    if bids.len() == 0 {
        0
    } else {
        total(bids.drop_last()) + bids.last().bid_amount as int
    }
}

impl Ledger {
    /// Identifiers are unique, no topic has two open events, and the
    /// escrowed total fits in a `u128`.
    pub open spec fn wf(self) -> bool {
        &&& forall|i: int, j: int|
            0 <= i < j < self.events.len() ==> self.events[i].identifier != self.events[j].identifier
        &&& forall|i: int, j: int|
            0 <= i < j < self.events.len() && !self.events[i].finalized && !self.events[j].finalized
                ==> self.events[i].topic != self.events[j].topic
        &&& total(self.bids) <= u128::MAX
    }

    /// The index of the event with identifier `id`, or -1.
    pub open spec fn event_of(self, id: Seq<char>) -> int {
        first_index(self.events, has_identifier(id))
    }

    /// The index of the open event with topic `topic`, or -1.
    pub open spec fn open_event_on(self, topic: Seq<char>) -> int {
        first_index(self.events, open_on(topic))
    }

    /// Why creating an event would be refused, if it would.
    pub open spec fn add_event_error(self, id: Seq<char>, topic: Seq<char>) -> Option<Error> {
        if self.event_of(id) >= 0 {
            Some(Error::DuplicateIdentifier)
        } else if self.open_event_on(topic) >= 0 {
            Some(Error::DuplicateTopic)
        } else {
            None
        }
    }

    /// The ledger with a new open event appended.
    pub open spec fn with_event(self, id: Seq<char>, topic: Seq<char>, floor: u128) -> Ledger {
        Ledger {
            events: self.events.push(
                EventView { finalized: false, topic: topic, identifier: id, min_bid_amount: floor },
            ),
            bids: self.bids,
        }
    }

    /// The ledger after a request to create an event: unchanged when refused.
    pub open spec fn after_event(self, id: Seq<char>, topic: Seq<char>, floor: u128) -> Ledger {
        if self.add_event_error(id, topic) is Some {
            self
        } else {
            self.with_event(id, topic, floor)
        }
    }

    /// Why a bid of `amount` on the event `id` would be refused, if it would.
    pub open spec fn bid_error(self, id: Seq<char>, amount: u128) -> Option<Error> {
        let k = self.event_of(id);
        if k < 0 {
            Some(Error::NotFound)
        } else if self.events[k].finalized {
            Some(Error::EventClosed)
        } else if amount <= self.events[k].min_bid_amount {
            Some(Error::InsufficientBid)
        } else if total(self.bids) + amount > u128::MAX {
            Some(Error::PoolOverflow)
        } else {
            None
        }
    }

    /// The ledger with a bid appended.
    pub open spec fn with_bid(
        self,
        id: Seq<char>,
        date: Seq<char>,
        amount: u128,
        author: AccountId,
    ) -> Ledger {
        Ledger {
            events: self.events,
            bids: self.bids.push(
                BidView { identifier: id, estimated_date: date, bid_amount: amount, author: author },
            ),
        }
    }

    /// The ledger after a request to place a bid: unchanged when refused.
    pub open spec fn after_bid(
        self,
        id: Seq<char>,
        date: Seq<char>,
        amount: u128,
        author: AccountId,
    ) -> Ledger {
        if self.bid_error(id, amount) is Some {
            self
        } else {
            self.with_bid(id, date, amount, author)
        }
    }

    /// The events with every event of identifier `id` marked finalized.
    pub open spec fn finalize(self, id: Seq<char>) -> Seq<EventView> {
        self.events.map_values(
            |e: EventView|
                if e.identifier == id {
                    EventView { finalized: true, ..e }
                } else {
                    e
                },
        )
    }

    /// What resolving `topic` with the outcome `date` returns.
    pub open spec fn resolution(self, topic: Seq<char>, date: Seq<char>) -> Result<Payout, Error> {
        let k = self.open_event_on(topic);
        if k < 0 {
            Err(Error::NotFound)
        } else {
            let id = self.events[k].identifier;
            let w = first_index(self.bids, predicts(id, date));
            if w < 0 {
                Err(Error::NoWinner)
            } else {
                Ok(Payout { to: self.bids[w].author, amount: pool(self.bids, id) as u128 })
            }
        }
    }

    /// The ledger after resolving `topic` with the outcome `date`: unchanged
    /// when the resolution fails.
    pub open spec fn resolved(self, topic: Seq<char>, date: Seq<char>) -> Ledger {
        if self.resolution(topic, date) is Ok {
            Ledger {
                events: self.finalize(self.events[self.open_event_on(topic)].identifier),
                bids: self.bids,
            }
        } else {
            self
        }
    }
}

/// `first_index` is -1 exactly when no element satisfies `p`; otherwise it is
/// the first element that does.
pub proof fn lemma_first_index<A>(s: Seq<A>, p: spec_fn(A) -> bool)
    ensures
        -1 <= first_index(s, p) < s.len(),
        first_index(s, p) == -1 ==> forall|j: int| 0 <= j < s.len() ==> !p(#[trigger] s[j]),
        first_index(s, p) >= 0 ==> p(s[first_index(s, p)]),
        first_index(s, p) >= 0 ==> forall|j: int| 0 <= j < first_index(s, p) ==> !p(#[trigger] s[j]),
    decreases s.len(),
{
    if s.len() > 0 {
        lemma_first_index(s.drop_last(), p);
        assert forall|j: int| 0 <= j < s.len() - 1 implies s[j] == s.drop_last()[j] by {}
    }
}

/// The first element that satisfies `p` is where `first_index` points.
pub proof fn lemma_first_index_at<A>(s: Seq<A>, p: spec_fn(A) -> bool, k: int)
    requires
        0 <= k < s.len(),
        p(s[k]),
        forall|j: int| 0 <= j < k ==> !p(#[trigger] s[j]),
    ensures
        first_index(s, p) == k,
{
    lemma_first_index(s, p);
}

/// Where no element satisfies `p`, `first_index` is -1.
pub proof fn lemma_first_index_none<A>(s: Seq<A>, p: spec_fn(A) -> bool)
    requires
        forall|j: int| 0 <= j < s.len() ==> !p(#[trigger] s[j]),
    ensures
        first_index(s, p) == -1,
{
    lemma_first_index(s, p);
    if first_index(s, p) >= 0 {
        assert(p(s[first_index(s, p)]));
    }
}

/// Adding one bid further extends the pool and the total over a prefix.
pub proof fn lemma_sum_step(s: Seq<BidView>, id: Seq<char>, i: int)
    requires
        0 <= i < s.len(),
    ensures
        pool(s.take(i + 1), id) == pool(s.take(i), id) + if s[i].identifier == id {
            s[i].bid_amount as int
        } else {
            0
        },
        total(s.take(i + 1)) == total(s.take(i)) + s[i].bid_amount as int,
{
    assert(s.take(i + 1).drop_last() =~= s.take(i));
}

/// Appending a bid adds its amount to the total, and to the pool of its event
/// only.
pub proof fn lemma_sum_push(s: Seq<BidView>, b: BidView, id: Seq<char>)
    ensures
        total(s.push(b)) == total(s) + b.bid_amount as int,
        pool(s.push(b), id) == pool(s, id) + if b.identifier == id {
            b.bid_amount as int
        } else {
            0
        },
{
    assert(s.push(b).drop_last() =~= s);
}

/// A pool is part of the total.
pub proof fn lemma_pool_within_total(s: Seq<BidView>, id: Seq<char>)
    ensures
        0 <= pool(s, id) <= total(s),
    decreases s.len(),
{
    if s.len() > 0 {
        lemma_pool_within_total(s.drop_last(), id);
    }
}

/// The total of a prefix is at most the total.
pub proof fn lemma_total_prefix(s: Seq<BidView>, i: int)
    requires
        0 <= i <= s.len(),
    ensures
        total(s.take(i)) <= total(s),
    decreases s.len(),
{
    if i == s.len() {
        assert(s.take(i) =~= s);
    } else {
        lemma_total_prefix(s.drop_last(), i);
        assert(s.drop_last().take(i) =~= s.take(i));
        let t = s.drop_last();
        assert(total(s) == total(t) + s.last().bid_amount as int);
    }
}

/// Creating an event, where it is not refused, keeps the ledger well formed.
pub proof fn lemma_with_event_wf(l: Ledger, id: Seq<char>, topic: Seq<char>, floor: u128)
    requires
        l.wf(),
        l.add_event_error(id, topic) is None,
    ensures
        l.with_event(id, topic, floor).wf(),
{
    lemma_first_index(l.events, has_identifier(id));
    lemma_first_index(l.events, open_on(topic));
    let n = l.with_event(id, topic, floor);
    assert forall|i: int| 0 <= i < l.events.len() implies n.events[i] == l.events[i] by {}
    assert forall|i: int| 0 <= i < l.events.len() implies #[trigger] l.events[i].identifier != id by {
        assert(!has_identifier(id)(l.events[i]));
    }
    assert forall|i: int| 0 <= i < l.events.len() && !l.events[i].finalized implies #[trigger] l.events[i].topic
        != topic by {
        assert(!open_on(topic)(l.events[i]));
    }
}

/// Placing a bid, where it is not refused, keeps the ledger well formed.
pub proof fn lemma_with_bid_wf(l: Ledger, id: Seq<char>, date: Seq<char>, amount: u128, author: AccountId)
    requires
        l.wf(),
        l.bid_error(id, amount) is None,
    ensures
        l.with_bid(id, date, amount, author).wf(),
        total(l.with_bid(id, date, amount, author).bids) == total(l.bids) + amount,
{
    let b = BidView { identifier: id, estimated_date: date, bid_amount: amount, author: author };
    lemma_sum_push(l.bids, b, id);
}

/// Resolving keeps the ledger well formed.
pub proof fn lemma_resolved_wf(l: Ledger, topic: Seq<char>, date: Seq<char>)
    requires
        l.wf(),
    ensures
        l.resolved(topic, date).wf(),
        l.resolved(topic, date).bids == l.bids,
{
    let n = l.resolved(topic, date);
    assert forall|i: int| 0 <= i < l.events.len() implies (#[trigger] n.events[i]).identifier
        == l.events[i].identifier && n.events[i].topic == l.events[i].topic && (!n.events[i].finalized
        ==> !l.events[i].finalized) by {}
}

} // verus!
