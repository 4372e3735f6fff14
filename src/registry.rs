//! The auction's state and its operations.

use vstd::prelude::*;
use crate::model::{
    first_index, has_identifier, lemma_first_index_at, lemma_first_index_none,
    lemma_pool_within_total, lemma_resolved_wf, lemma_with_bid_wf, lemma_with_event_wf,
    lemma_sum_step, lemma_total_prefix, open_on, pool, predicts, total, Ledger,
};
use crate::types::{AccountId, Error, EventAdded, Payout, ProbabilisticEvent, ProbabilisticEventBid};

verus! {

/// All events and all bids, with the escrowed total kept alongside.
#[derive(Clone)]
pub struct Polkability {
    events: Vec<ProbabilisticEvent>,
    event_bids: Vec<ProbabilisticEventBid>,
    staked: u128,
}

impl View for Polkability {
    type V = Ledger;

    closed spec fn view(&self) -> Ledger {
        Ledger {
            events: self.events@.map_values(|e: ProbabilisticEvent| e@),
            bids: self.event_bids@.map_values(|b: ProbabilisticEventBid| b@),
        }
    }
}

impl Polkability {
    /// The ledger is well formed and `staked` is the sum of all bids.
    pub closed spec fn wf(&self) -> bool {
        &&& self@.wf()
        &&& self.staked as int == total(self@.bids)
    }

    /// An auction with no events and no bids.
    pub fn new() -> (r: Self)
        ensures
            r.wf(),
            r@.events == Seq::<crate::types::EventView>::empty(),
            r@.bids == Seq::<crate::types::BidView>::empty(),
    {
        let r = Polkability { events: Vec::new(), event_bids: Vec::new(), staked: 0 };
        assert(r@.events =~= Seq::empty());
        assert(r@.bids =~= Seq::empty());
        r
    }

    /// The position of the event with identifier `id`.
    fn find_by_identifier(&self, id: &String) -> (r: Option<usize>)
        ensures
            match r {
                Some(k) => k < self@.events.len() && k as int == self@.event_of(id@),
                None => self@.event_of(id@) == -1,
            },
    {
        let ghost s = self@.events;
        let ghost p = has_identifier(id@);
        let mut i: usize = 0;
        while i < self.events.len()
            invariant
                0 <= i <= self.events.len(),
                s == self@.events,
                p == has_identifier(id@),
                forall|j: int| 0 <= j < i ==> !p(#[trigger] s[j]),
            decreases self.events.len() - i,
        {
            if self.events[i].identifier == *id {
                proof {
                    lemma_first_index_at(s, p, i as int);
                }
                return Some(i);
            }
            i += 1;
        }
        proof {
            lemma_first_index_none(s, p);
        }
        None
    }

    /// The position of the open event on `topic`.
    fn find_open_on(&self, topic: &String) -> (r: Option<usize>)
        ensures
            match r {
                Some(k) => k < self@.events.len() && k as int == self@.open_event_on(topic@),
                None => self@.open_event_on(topic@) == -1,
            },
    {
        let ghost s = self@.events;
        let ghost p = open_on(topic@);
        let mut i: usize = 0;
        while i < self.events.len()
            invariant
                0 <= i <= self.events.len(),
                s == self@.events,
                p == open_on(topic@),
                forall|j: int| 0 <= j < i ==> !p(#[trigger] s[j]),
            decreases self.events.len() - i,
        {
            if !self.events[i].finalized && self.events[i].topic == *topic {
                proof {
                    lemma_first_index_at(s, p, i as int);
                }
                return Some(i);
            }
            i += 1;
        }
        proof {
            lemma_first_index_none(s, p);
        }
        None
    }

    /// The position of the first bid on the event `id` that predicts `date`.
    fn find_winner(&self, id: &String, date: &String) -> (r: Option<usize>)
        ensures
            match r {
                Some(w) => w < self@.bids.len() && w as int == first_index(self@.bids, predicts(id@, date@)),
                None => first_index(self@.bids, predicts(id@, date@)) == -1,
            },
    {
        let ghost s = self@.bids;
        let ghost p = predicts(id@, date@);
        let mut i: usize = 0;
        while i < self.event_bids.len()
            invariant
                0 <= i <= self.event_bids.len(),
                s == self@.bids,
                p == predicts(id@, date@),
                forall|j: int| 0 <= j < i ==> !p(#[trigger] s[j]),
            decreases self.event_bids.len() - i,
        {
            if self.event_bids[i].identifier == *id && self.event_bids[i].estimated_date == *date {
                proof {
                    lemma_first_index_at(s, p, i as int);
                }
                return Some(i);
            }
            i += 1;
        }
        proof {
            lemma_first_index_none(s, p);
        }
        None
    }

    /// The sum of the amounts of the bids on the event `id`.
    fn pool_of(&self, id: &String) -> (r: u128)
        requires
            self.wf(),
        ensures
            r as int == pool(self@.bids, id@),
    {
        let ghost s = self@.bids;
        let mut sum: u128 = 0;
        let mut i: usize = 0;
        while i < self.event_bids.len()
            invariant
                0 <= i <= self.event_bids.len(),
                s == self@.bids,
                total(s) <= u128::MAX,
                sum as int == pool(s.take(i as int), id@),
            decreases self.event_bids.len() - i,
        {
            proof {
                lemma_sum_step(s, id@, i as int);
                lemma_pool_within_total(s.take(i + 1), id@);
                lemma_total_prefix(s, i + 1);
            }
            if self.event_bids[i].identifier == *id {
                sum = sum + self.event_bids[i].bid_amount;
            }
            i += 1;
        }
        assert(s.take(i as int) =~= s);
        sum
    }

    /// Marks every event with identifier `id` finalized.
    fn finalize(&mut self, id: &String)
        ensures
            final(self)@.events == old(self)@.finalize(id@),
            final(self)@.bids == old(self)@.bids,
            final(self).staked == old(self).staked,
    {
        let ghost start = self@;
        let mut i: usize = 0;
        while i < self.events.len()
            invariant
                0 <= i <= self.events.len(),
                self.events.len() == start.events.len(),
                self@.bids == start.bids,
                self.staked == old(self).staked,
                forall|j: int| 0 <= j < i ==> self@.events[j] == start.finalize(id@)[j],
                forall|j: int| i <= j < self.events.len() ==> self@.events[j] == start.events[j],
            decreases self.events.len() - i,
        {
            if self.events[i].identifier == *id {
                self.events[i].finalized = true;
            }
            i += 1;
        }
        assert(self@.events =~= start.finalize(id@));
    }

    /// Registers an open event whose floor is the value attached to the call.
    /// Refused when the identifier is taken or the topic already has an open
    /// event; the ledger is then unchanged.
    pub fn add_event(
        &mut self,
        e_identifier: String,
        topic: String,
        caller: AccountId,
        transferred_value: u128,
    ) -> (r: Result<EventAdded, Error>)
        requires
            old(self).wf(),
        ensures
            final(self).wf(),
            final(self)@ == old(self)@.after_event(e_identifier@, topic@, transferred_value),
            match old(self)@.add_event_error(e_identifier@, topic@) {
                Some(e) => r == Err::<EventAdded, Error>(e) && final(self)@ == old(self)@,
                None => r matches Ok(added) && added.owner == Some(caller) && added.min_bid_amount
                    == transferred_value && added.topic@ == topic@ && final(self)@ == old(self)@.with_event(
                    e_identifier@,
                    topic@,
                    transferred_value,
                ),
            },
    {
        if self.find_by_identifier(&e_identifier).is_some() {
            return Err(Error::DuplicateIdentifier);
        }
        if self.find_open_on(&topic).is_some() {
            return Err(Error::DuplicateTopic);
        }
        proof {
            lemma_with_event_wf(self@, e_identifier@, topic@, transferred_value);
        }
        let ghost start = self@;
        let added = EventAdded { owner: Some(caller), min_bid_amount: transferred_value, topic: topic.clone() };
        self.events.push(
            ProbabilisticEvent {
                finalized: false,
                topic: topic,
                identifier: e_identifier,
                min_bid_amount: transferred_value,
            },
        );
        assert(self@.events =~= start.with_event(e_identifier@, topic@, transferred_value).events);
        Ok(added)
    }

    /// Places a bid of the value attached to the call on the event
    /// `e_identifier`. Refused, with the ledger unchanged, when there is no
    /// such event, when it is finalized, when the amount does not exceed its
    /// floor, or when the escrowed total would pass `u128::MAX`.
    pub fn add_bid_to_event(
        &mut self,
        e_identifier: String,
        estimated_date: String,
        from: AccountId,
        transferred_value: u128,
    ) -> (r: Result<(), Error>)
        requires
            old(self).wf(),
        ensures
            final(self).wf(),
            final(self)@ == old(self)@.after_bid(e_identifier@, estimated_date@, transferred_value, from),
            match old(self)@.bid_error(e_identifier@, transferred_value) {
                Some(e) => r == Err::<(), Error>(e) && final(self)@ == old(self)@,
                None => r == Ok::<(), Error>(()) && final(self)@ == old(self)@.with_bid(
                    e_identifier@,
                    estimated_date@,
                    transferred_value,
                    from,
                ),
            },
    {
        let k = match self.find_by_identifier(&e_identifier) {
            Some(k) => k,
            None => {
                return Err(Error::NotFound);
            },
        };
        if self.events[k].finalized {
            return Err(Error::EventClosed);
        }
        if transferred_value <= self.events[k].min_bid_amount {
            return Err(Error::InsufficientBid);
        }
        if transferred_value > u128::MAX - self.staked {
            return Err(Error::PoolOverflow);
        }
        proof {
            lemma_with_bid_wf(self@, e_identifier@, estimated_date@, transferred_value, from);
        }
        let ghost start = self@;
        self.event_bids.push(
            ProbabilisticEventBid {
                identifier: e_identifier,
                estimated_date: estimated_date,
                bid_amount: transferred_value,
                author: from,
            },
        );
        self.staked = self.staked + transferred_value;
        assert(self@.bids =~= start.with_bid(e_identifier@, estimated_date@, transferred_value, from).bids);
        Ok(())
    }

    /// Resolves the open event on `topic` with the reported outcome
    /// `estimated_date`: the event is finalized and the pool of all its bids
    /// is owed to the author of its first bid on that outcome. Fails with
    /// `NotFound` when the topic has no open event and with `NoWinner` when no
    /// bid predicted the outcome; the ledger is then unchanged.
    pub fn dispatch_event(&mut self, estimated_date: String, topic: String) -> (r: Result<Payout, Error>)
        requires
            old(self).wf(),
        ensures
            final(self).wf(),
            r == old(self)@.resolution(topic@, estimated_date@),
            final(self)@ == old(self)@.resolved(topic@, estimated_date@),
    {
        let k = match self.find_open_on(&topic) {
            Some(k) => k,
            None => {
                return Err(Error::NotFound);
            },
        };
        let id = self.events[k].identifier.clone();
        let w = match self.find_winner(&id, &estimated_date) {
            Some(w) => w,
            None => {
                return Err(Error::NoWinner);
            },
        };
        let amount = self.pool_of(&id);
        let to = self.event_bids[w].author;
        proof {
            lemma_resolved_wf(self@, topic@, estimated_date@);
        }
        self.finalize(&id);
        Ok(Payout { to, amount })
    }

    /// The number of events.
    pub fn event_count(&self) -> (r: usize)
        ensures
            r == self@.events.len(),
    {
        self.events.len()
    }

    /// The event at position `i`, in order of creation.
    pub fn event(&self, i: usize) -> (r: &ProbabilisticEvent)
        requires
            i < self@.events.len(),
        ensures
            r@ == self@.events[i as int],
    {
        &self.events[i]
    }

    /// The number of bids.
    pub fn bid_count(&self) -> (r: usize)
        ensures
            r == self@.bids.len(),
    {
        self.event_bids.len()
    }

    /// The bid at position `i`, in order of acceptance.
    pub fn bid(&self, i: usize) -> (r: &ProbabilisticEventBid)
        requires
            i < self@.bids.len(),
        ensures
            r@ == self@.bids[i as int],
    {
        &self.event_bids[i]
    }
}

} // verus!
