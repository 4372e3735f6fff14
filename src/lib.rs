//! An escrowed auction on predicted outcomes: events are registered under a
//! topic with a funded floor, bids above the floor are pooled per event, and a
//! reported outcome releases the whole pool of the event to the first bid that
//! predicted it.
//!
//! The host environment (caller identity, attached value, outbound transfers)
//! stays outside: its readings come in as arguments, and a resolution hands
//! back the [`Payout`] for the host to carry out.

pub mod types;
pub mod model;
pub mod registry;
pub mod laws;

pub use types::{AccountId, BidView, Error, EventAdded, EventView, Payout, ProbabilisticEvent, ProbabilisticEventBid};
pub use registry::Polkability;
