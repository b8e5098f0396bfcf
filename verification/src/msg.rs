//! The commands and queries the contract takes, and what queries answer.

use vstd::prelude::*;

use crate::host::Addr;
use crate::state::{Bid, BiddingPeriod};

verus! {

/// Sets up the contract with its administrators.
pub struct InstantiateMsg {
    pub admins: Vec<Addr>,
}

/// The commands that change the state.
pub enum ExecuteMsg {
    /// - ADMIN FACING -
    /// Start a new bidding period
    StartBidding { config: BiddingPeriod },
    /// End the current bidding period
    /// This will return all the bids to the bidders, except the accepted bids
    /// The accepted bids will be withdrawn to the address that executed the msg,
    /// unless `withdrawal_address` is specified, in which case the funds will be
    /// transferred to that address
    EndBidding { accepted_bids: Vec<Addr>, withdrawal_address: Option<Addr> },
    /// - BIDDER FACING -
    /// Create a new bid, optionally on behalf of another address
    Bid { address: Option<Addr> },
}

/// The queries.
pub enum QueryMsg {
    BiddingPeriod {},
    Bids {},
    Bid { address: Addr },
}

/// The terms of the open bidding period, if one is open.
#[derive(Debug, PartialEq, Eq)]
pub struct BiddingPeriodResponse {
    pub bidding_period: Option<BiddingPeriod>,
}

/// All bids, in descending order of their bidders.
#[derive(Debug, PartialEq, Eq)]
pub struct BidsResponse {
    pub bids: Vec<Bid>,
}

/// The bid of one bidder, if they have one.
#[derive(Debug, PartialEq, Eq)]
pub struct BidResponse {
    pub bid: Option<Bid>,
}

/// The answer to a query, one variant for each query.
#[derive(Debug, PartialEq, Eq)]
pub enum QueryResponse {
    BiddingPeriod(BiddingPeriodResponse),
    Bids(BidsResponse),
    Bid(BidResponse),
}

} // verus!
