use polkability::{AccountId, Error, Payout, Polkability};

fn account(n: u8) -> AccountId {
    AccountId([n; 32])
}

fn s(text: &str) -> String {
    text.to_string()
}

fn with_event(id: &str, topic: &str, floor: u128) -> Polkability {
    let mut p = Polkability::new();
    p.add_event(s(id), s(topic), account(9), floor).unwrap();
    p
}

#[test]
fn lib_default_works() {
    let p = Polkability::new();
    assert_eq!(p.event_count(), 0);
    assert_eq!(p.bid_count(), 0);
}

#[test]
fn add_event_records_open_event_and_notifies() {
    let mut p = Polkability::new();
    let added = p.add_event(s("E1"), s("match1"), account(7), 100).unwrap();
    assert_eq!(added.owner, Some(account(7)));
    assert_eq!(added.min_bid_amount, 100);
    assert_eq!(added.topic, "match1");
    assert_eq!(p.event_count(), 1);
    let e = p.event(0);
    assert!(!e.finalized);
    assert_eq!(e.identifier, "E1");
    assert_eq!(e.topic, "match1");
    assert_eq!(e.min_bid_amount, 100);
}

#[test]
fn duplicate_identifier_is_refused() {
    let mut p = with_event("E1", "match1", 100);
    assert_eq!(p.add_event(s("E1"), s("match2"), account(1), 5).unwrap_err(), Error::DuplicateIdentifier);
    assert_eq!(p.event_count(), 1);
}

#[test]
fn duplicate_open_topic_is_refused() {
    let mut p = with_event("E1", "match1", 100);
    assert_eq!(p.add_event(s("E2"), s("match1"), account(1), 5).unwrap_err(), Error::DuplicateTopic);
    assert_eq!(p.event_count(), 1);
}

#[test]
fn topic_can_be_reused_after_resolution() {
    let mut p = with_event("E1", "match1", 100);
    p.add_bid_to_event(s("E1"), s("d"), account(1), 150).unwrap();
    p.dispatch_event(s("d"), s("match1")).unwrap();
    assert!(p.add_event(s("E2"), s("match1"), account(1), 10).is_ok());
    assert_eq!(p.event_count(), 2);
}

#[test]
fn bid_above_floor_is_recorded() {
    let mut p = with_event("E1", "match1", 100);
    assert_eq!(p.add_bid_to_event(s("E1"), s("2024-01-01"), account(1), 101), Ok(()));
    assert_eq!(p.bid_count(), 1);
    let b = p.bid(0);
    assert_eq!(b.identifier, "E1");
    assert_eq!(b.estimated_date, "2024-01-01");
    assert_eq!(b.bid_amount, 101);
    assert_eq!(b.author, account(1));
}

#[test]
fn bid_equal_to_floor_is_refused() {
    let mut p = with_event("E1", "match1", 100);
    assert_eq!(p.add_bid_to_event(s("E1"), s("d"), account(1), 100), Err(Error::InsufficientBid));
    assert_eq!(p.add_bid_to_event(s("E1"), s("d"), account(1), 0), Err(Error::InsufficientBid));
    assert_eq!(p.bid_count(), 0);
}

#[test]
fn bid_on_unknown_event_is_refused() {
    let mut p = with_event("E1", "match1", 100);
    assert_eq!(p.add_bid_to_event(s("E2"), s("d"), account(1), 500), Err(Error::NotFound));
    assert_eq!(p.bid_count(), 0);
}

#[test]
fn bid_on_finalized_event_is_refused() {
    let mut p = with_event("E1", "match1", 100);
    p.add_bid_to_event(s("E1"), s("d"), account(1), 150).unwrap();
    p.dispatch_event(s("d"), s("match1")).unwrap();
    assert_eq!(p.add_bid_to_event(s("E1"), s("d"), account(2), 500), Err(Error::EventClosed));
    assert_eq!(p.bid_count(), 1);
}

#[test]
fn bid_past_escrow_limit_is_refused() {
    let mut p = with_event("E1", "match1", 0);
    p.add_bid_to_event(s("E1"), s("d"), account(1), u128::MAX - 10).unwrap();
    assert_eq!(p.add_bid_to_event(s("E1"), s("d"), account(2), 11), Err(Error::PoolOverflow));
    assert_eq!(p.add_bid_to_event(s("E1"), s("d"), account(2), 10), Ok(()));
    assert_eq!(p.dispatch_event(s("d"), s("match1")), Ok(Payout { to: account(1), amount: u128::MAX }));
}

#[test]
fn scenario_match1_pays_pool_to_matching_bidder() {
    let (a, b, c) = (account(1), account(2), account(3));
    let mut p = Polkability::new();
    p.add_event(s("E1"), s("match1"), account(9), 100).unwrap();
    assert_eq!(p.add_bid_to_event(s("E1"), s("2024-01-01"), a, 150), Ok(()));
    assert_eq!(p.add_bid_to_event(s("E1"), s("2024-01-02"), b, 90), Err(Error::InsufficientBid));
    assert_eq!(p.add_bid_to_event(s("E1"), s("2024-01-02"), c, 200), Ok(()));
    assert_eq!(p.bid_count(), 2);
    let payout = p.dispatch_event(s("2024-01-02"), s("match1"));
    assert_eq!(payout, Ok(Payout { to: c, amount: 350 }));
    assert!(p.event(0).finalized);
}

#[test]
fn resolve_without_open_event_is_not_found() {
    let mut p = Polkability::new();
    assert_eq!(p.dispatch_event(s("d"), s("match1")), Err(Error::NotFound));
    let mut q = with_event("E1", "match1", 1);
    assert_eq!(q.dispatch_event(s("d"), s("match2")), Err(Error::NotFound));
    assert!(!q.event(0).finalized);
}

#[test]
fn resolve_without_matching_bid_is_no_winner() {
    let mut p = with_event("E1", "match1", 100);
    p.add_bid_to_event(s("E1"), s("2024-01-01"), account(1), 150).unwrap();
    assert_eq!(p.dispatch_event(s("2024-01-09"), s("match1")), Err(Error::NoWinner));
    assert!(!p.event(0).finalized);
}

#[test]
fn second_resolution_is_not_found() {
    let mut p = with_event("E1", "match1", 100);
    p.add_bid_to_event(s("E1"), s("d"), account(1), 150).unwrap();
    assert_eq!(p.dispatch_event(s("d"), s("match1")), Ok(Payout { to: account(1), amount: 150 }));
    assert_eq!(p.dispatch_event(s("d"), s("match1")), Err(Error::NotFound));
    assert_eq!(p.dispatch_event(s("other"), s("match1")), Err(Error::NotFound));
    assert!(p.event(0).finalized);
}

#[test]
fn payout_sums_only_bids_of_the_event() {
    let mut p = with_event("E1", "match1", 10);
    p.add_event(s("E2"), s("match2"), account(9), 10).unwrap();
    p.add_bid_to_event(s("E1"), s("x"), account(1), 11).unwrap();
    p.add_bid_to_event(s("E2"), s("x"), account(2), 1000).unwrap();
    p.add_bid_to_event(s("E1"), s("y"), account(3), 22).unwrap();
    p.add_bid_to_event(s("E1"), s("z"), account(4), 33).unwrap();
    assert_eq!(p.dispatch_event(s("y"), s("match1")), Ok(Payout { to: account(3), amount: 66 }));
}

#[test]
fn tied_predictions_pay_first_bidder() {
    let mut p = with_event("E1", "match1", 10);
    p.add_bid_to_event(s("E1"), s("x"), account(1), 20).unwrap();
    p.add_bid_to_event(s("E1"), s("y"), account(2), 30).unwrap();
    p.add_bid_to_event(s("E1"), s("y"), account(3), 40).unwrap();
    assert_eq!(p.dispatch_event(s("y"), s("match1")), Ok(Payout { to: account(2), amount: 90 }));
}

#[test]
fn prediction_on_other_event_does_not_win() {
    let mut p = with_event("E1", "match1", 10);
    p.add_event(s("E2"), s("match2"), account(9), 10).unwrap();
    p.add_bid_to_event(s("E2"), s("y"), account(2), 30).unwrap();
    p.add_bid_to_event(s("E1"), s("x"), account(1), 20).unwrap();
    assert_eq!(p.dispatch_event(s("y"), s("match1")), Err(Error::NoWinner));
}

#[test]
fn unrelated_event_untouched_by_operations() {
    let mut p = with_event("E1", "match1", 10);
    p.add_event(s("E2"), s("match2"), account(9), 50).unwrap();
    p.add_bid_to_event(s("E2"), s("y"), account(2), 60).unwrap();
    p.add_bid_to_event(s("E1"), s("x"), account(1), 20).unwrap();
    p.add_event(s("E3"), s("match3"), account(9), 5).unwrap();
    assert_eq!(p.dispatch_event(s("x"), s("match1")), Ok(Payout { to: account(1), amount: 20 }));
    let other = p.event(1);
    assert!(!other.finalized);
    assert_eq!(other.identifier, "E2");
    assert_eq!(other.min_bid_amount, 50);
    assert_eq!(p.bid_count(), 2);
    assert_eq!(p.bid(0).identifier, "E2");
    assert_eq!(p.bid(0).bid_amount, 60);
    assert_eq!(p.dispatch_event(s("y"), s("match2")), Ok(Payout { to: account(2), amount: 60 }));
}
