use juno_bid::host::Addr;
use juno_bid::ledger::BidLedger;
use juno_bid::state::Bid;

fn bid(bidder: &str, amount: u128) -> Bid {
    Bid {
        bidder: Addr::unchecked(bidder),
        amount,
    }
}

#[test]
fn a_new_ledger_is_empty() {
    let ledger = BidLedger::new();
    assert_eq!(ledger.len(), 0);
    assert!(ledger.list().is_empty());
    assert_eq!(ledger.get(&Addr::unchecked("a")), None);
    assert_eq!(ledger.position(&Addr::unchecked("a")), None);
}

#[test]
fn upsert_add_creates_then_increments() {
    let mut ledger = BidLedger::new();
    ledger.upsert_add(&Addr::unchecked("b"), 5);
    assert_eq!(ledger.list(), vec![bid("b", 5)]);
    ledger.upsert_add(&Addr::unchecked("b"), 7);
    assert_eq!(ledger.list(), vec![bid("b", 12)]);
    ledger.upsert_add(&Addr::unchecked("b"), 0);
    assert_eq!(ledger.get(&Addr::unchecked("b")), Some(bid("b", 12)));
    assert_eq!(ledger.len(), 1);
}

#[test]
fn the_listing_is_in_ascending_order_of_the_bidders() {
    let mut ledger = BidLedger::new();
    for (who, amount) in [("m", 1u128), ("z", 2), ("a", 3), ("mm", 4), ("", 5), ("Z", 6), ("b", 7)] {
        ledger.upsert_add(&Addr::unchecked(who), amount);
    }
    assert_eq!(
        ledger.list(),
        vec![
            bid("", 5),
            bid("Z", 6),
            bid("a", 3),
            bid("b", 7),
            bid("m", 1),
            bid("mm", 4),
            bid("z", 2),
        ]
    );
    assert_eq!(ledger.position(&Addr::unchecked("")), Some(0));
    assert_eq!(ledger.position(&Addr::unchecked("mm")), Some(5));
    assert_eq!(ledger.position(&Addr::unchecked("z")), Some(6));
    assert_eq!(ledger.position(&Addr::unchecked("n")), None);
    let mut sorted: Vec<String> = ledger.list().into_iter().map(|b| b.bidder.into_string()).collect();
    let listed = sorted.clone();
    sorted.sort();
    assert_eq!(listed, sorted);
}

#[test]
fn remove_takes_out_one_entry_and_ignores_a_missing_one() {
    let mut ledger = BidLedger::new();
    for (who, amount) in [("a", 1u128), ("b", 2), ("c", 3)] {
        ledger.upsert_add(&Addr::unchecked(who), amount);
    }
    ledger.remove(&Addr::unchecked("b"));
    assert_eq!(ledger.list(), vec![bid("a", 1), bid("c", 3)]);
    ledger.remove(&Addr::unchecked("b"));
    ledger.remove(&Addr::unchecked("zz"));
    assert_eq!(ledger.list(), vec![bid("a", 1), bid("c", 3)]);
    assert_eq!(ledger.get(&Addr::unchecked("b")), None);
    ledger.remove(&Addr::unchecked("a"));
    ledger.remove(&Addr::unchecked("c"));
    assert_eq!(ledger.len(), 0);
}

#[test]
fn clear_takes_out_everything() {
    let mut ledger = BidLedger::new();
    ledger.upsert_add(&Addr::unchecked("a"), 1);
    ledger.upsert_add(&Addr::unchecked("b"), 2);
    ledger.clear();
    assert_eq!(ledger.len(), 0);
    assert_eq!(ledger.get(&Addr::unchecked("a")), None);
    ledger.clear();
    assert!(ledger.list().is_empty());
    ledger.upsert_add(&Addr::unchecked("a"), 4);
    assert_eq!(ledger.list(), vec![bid("a", 4)]);
}
