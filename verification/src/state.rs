//! What the contract keeps between commands.

use vstd::prelude::*;

use crate::admins::AdminList;
use crate::host::{Addr, Timestamp};
use crate::ledger::BidLedger;

verus! {

/// The deposit of one bidder: everything they paid in the current period.
#[derive(Debug, PartialEq, Eq)]
pub struct Bid {
    /// Address of the bidder
    pub bidder: Addr,
    /// Amount of tokens bid, in the smallest unit of the period's denomination
    pub amount: u128,
}

/// The mathematical value of a `Bid`.
pub ghost struct BidView {
    pub bidder: Seq<char>,
    pub amount: nat,
}

impl View for Bid {
    type V = BidView;

    open spec fn view(&self) -> BidView {
        BidView { bidder: self.bidder@, amount: self.amount as nat }
    }
}

impl DeepView for Bid {
    type V = BidView;

    open spec fn deep_view(&self) -> BidView {
        self@
    }
}

impl Clone for Bid {
    fn clone(&self) -> (r: Self)
        ensures
            r@ == self@,
    {
        Bid { bidder: self.bidder.clone(), amount: self.amount }
    }
}

/// The terms of a bidding period.
#[derive(Debug, PartialEq, Eq)]
pub struct BiddingPeriod {
    /// Name of the bidding period
    pub name: String,
    /// Optional description string
    pub description: Option<String>,
    /// Expiry time for the bidding period.
    /// Bids made at or beyond this timestamp will not be accepted
    pub expires_at: Timestamp,
    /// Minimum amount of a single payment
    pub minimum_bid: u128,
    /// Amount of bids that can be accepted once the bidding period is ended
    pub accepted_bidders: u64,
    /// Denomination in which bids are to be made
    pub denom: String,
}

/// The mathematical value of a `BiddingPeriod`.
pub ghost struct BiddingPeriodView {
    pub name: Seq<char>,
    pub description: Option<Seq<char>>,
    pub expires_at: Timestamp,
    pub minimum_bid: nat,
    pub accepted_bidders: nat,
    pub denom: Seq<char>,
}

impl View for BiddingPeriod {
    type V = BiddingPeriodView;

    open spec fn view(&self) -> BiddingPeriodView {
        BiddingPeriodView {
            name: self.name@,
            description: match self.description {
                Some(d) => Some(d@),
                None => None,
            },
            expires_at: self.expires_at,
            minimum_bid: self.minimum_bid as nat,
            accepted_bidders: self.accepted_bidders as nat,
            denom: self.denom@,
        }
    }
}

impl Clone for BiddingPeriod {
    fn clone(&self) -> (r: Self)
        ensures
            r@ == self@,
    {
        BiddingPeriod {
            name: self.name.clone(),
            description: match &self.description {
                Some(d) => Some(d.clone()),
                None => None,
            },
            expires_at: self.expires_at,
            minimum_bid: self.minimum_bid,
            accepted_bidders: self.accepted_bidders,
            denom: self.denom.clone(),
        }
    }
}

/// Everything the contract keeps: the administrators, the bidding period if
/// one is open, and the bids made in it.
#[derive(Debug, PartialEq, Eq)]
pub struct State {
    /// The administrators; `None` until the contract is instantiated.
    pub admins: Option<AdminList>,
    /// The terms of the open bidding period; `None` while bidding is closed.
    pub bidding_period: Option<BiddingPeriod>,
    /// The bids of the open bidding period.
    pub bids: BidLedger,
}

/// The mathematical value of a `State`.
pub ghost struct StateView {
    pub admins: Option<Seq<Seq<char>>>,
    pub bidding_period: Option<BiddingPeriodView>,
    pub bids: Seq<BidView>,
}

impl View for State {
    type V = StateView;

    open spec fn view(&self) -> StateView {
        StateView {
            admins: match self.admins {
                Some(list) => Some(list@),
                None => None,
            },
            bidding_period: match self.bidding_period {
                Some(period) => Some(period@),
                None => None,
            },
            bids: self.bids@,
        }
    }
}

impl State {
    /// The ledger is in order. Every state this library hands out is.
    pub open spec fn wf(&self) -> bool {
        self.bids.wf()
    }

    /// The state before the contract is instantiated: no administrators, no
    /// bidding period, no bids.
    pub fn new() -> (r: State)
        ensures
            r.wf(),
            r@ == (StateView {
                admins: None,
                bidding_period: None,
                bids: Seq::<BidView>::empty(),
            }),
    {
        State { admins: None, bidding_period: None, bids: BidLedger::new() }
    }
}

} // verus!
