//! Records kept by the auction, and what its operations hand back.

use vstd::prelude::*;

verus! {

/// An account of the host environment, as its 32 raw bytes.
#[derive(Clone, Copy, Debug, PartialEq, Eq)]
pub struct AccountId(pub [u8; 32]);

/// Why an operation was refused.
#[derive(Clone, Copy, Debug, PartialEq, Eq, Structural)]
pub enum Error {
    /// No event matches the identifier or topic.
    NotFound,
    /// The resolved event has no bid on the reported outcome.
    NoWinner,
    /// The bid does not exceed the event's floor.
    InsufficientBid,
    /// The event has already been resolved.
    EventClosed,
    /// The host could not carry out the payout.
    TransferFailed,
    /// An event with this identifier already exists.
    DuplicateIdentifier,
    /// An open event with this topic already exists.
    DuplicateTopic,
    /// Accepting the bid would take the escrowed total past `u128::MAX`.
    PoolOverflow,
}

/// The transfer that a resolution owes: the whole pool, to one author.
#[derive(Clone, Copy, Debug, PartialEq, Eq)]
pub struct Payout {
    pub to: AccountId,
    pub amount: u128,
}

/// Notification of a newly created event.
#[derive(Clone, Debug)]
pub struct EventAdded {
    pub owner: Option<AccountId>,
    pub min_bid_amount: u128,
    pub topic: String,
}

/// An event that bids are placed on.
#[derive(Clone, Debug)]
pub struct ProbabilisticEvent {
    pub finalized: bool,
    pub topic: String,
    pub identifier: String,
    pub min_bid_amount: u128,
}

/// A funded prediction on the event named by `identifier`.
#[derive(Clone, Debug)]
pub struct ProbabilisticEventBid {
    pub identifier: String,
    pub estimated_date: String,
    pub bid_amount: u128,
    pub author: AccountId,
}

/// What an event is, with its strings as character sequences.
pub struct EventView {
    pub finalized: bool,
    pub topic: Seq<char>,
    pub identifier: Seq<char>,
    pub min_bid_amount: u128,
}

/// What a bid is, with its strings as character sequences.
pub struct BidView {
    pub identifier: Seq<char>,
    pub estimated_date: Seq<char>,
    pub bid_amount: u128,
    pub author: AccountId,
}

impl View for ProbabilisticEvent {
    type V = EventView;

    open spec fn view(&self) -> EventView {
        EventView {
            finalized: self.finalized,
            topic: self.topic@,
            identifier: self.identifier@,
            min_bid_amount: self.min_bid_amount,
        }
    }
}

impl View for ProbabilisticEventBid {
    type V = BidView;

    open spec fn view(&self) -> BidView {
        BidView {
            identifier: self.identifier@,
            estimated_date: self.estimated_date@,
            bid_amount: self.bid_amount,
            author: self.author,
        }
    }
}

} // verus!
