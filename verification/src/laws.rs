//! What holds of the contract whatever the state and the command.

use vstd::prelude::*;

use crate::admins::authorized;
use crate::contract::{
    answers, bid_payment, bid_response, bidder_of, end_bidding, place_bid, start_bidding,
    withdrawal_target,
};
use crate::error::ContractError;
use crate::host::{MessageInfoView, ResponseView, Timestamp};
use crate::ledger::{amount_of, ascending, holds, lemma_credited, lemma_index_of, total};
use crate::msg::{QueryMsg, QueryResponse};
use crate::payment::paid;
use crate::settlement::{
    acceptable, accepted_total, lemma_refunds_total, lemma_sent_single, lemma_transfers_total,
    refunds, rejected, sent, sent_total, transfers,
};
use crate::state::{BidView, BiddingPeriodView, StateView};

verus! {

/// Admin gating. Once the administrators are set, opening and closing a
/// bidding period are refused as unauthorized for every sender that is not
/// one of them, whatever else the command holds. For an administrator they
/// succeed exactly where the state of the bidding period and the command
/// itself allow it.
pub proof fn law_admin_gating(
    pre: StateView,
    now: Timestamp,
    sender: Seq<char>,
    config: BiddingPeriodView,
    accepted: Seq<Seq<char>>,
    withdrawal_address: Option<Seq<char>>,
)
    requires
        pre.admins.is_some(),
    ensures
        !pre.admins.unwrap().contains(sender) ==> start_bidding(pre, now, sender, config) == Err::<
            (StateView, ResponseView),
            ContractError,
        >(ContractError::Unauthorized {}) && end_bidding(pre, sender, accepted, withdrawal_address)
            == Err::<(StateView, ResponseView), ContractError>(ContractError::Unauthorized {}),
        pre.admins.unwrap().contains(sender) ==> (start_bidding(pre, now, sender, config).is_ok()
            <==> pre.bidding_period.is_none() && config.expires_at.0 > now.0
            && config.accepted_bidders >= 1),
        pre.admins.unwrap().contains(sender) ==> (end_bidding(
            pre,
            sender,
            accepted,
            withdrawal_address,
        ).is_ok() <==> pre.bidding_period.is_some() && accepted.len()
            <= pre.bidding_period.unwrap().accepted_bidders && acceptable(pre.bids, accepted)),
{
}

/// Single active period. While a bidding period is open, an administrator
/// who tries to open one is refused with `BiddingPeriodActive`, and nobody
/// else opens one either. A bid leaves the period open and its terms as they
/// are; only a successful end closes it.
pub proof fn law_single_active_period(
    pre: StateView,
    now: Timestamp,
    info: MessageInfoView,
    config: BiddingPeriodView,
    address: Option<Seq<char>>,
    accepted: Seq<Seq<char>>,
)
    requires
        pre.bidding_period.is_some(),
    ensures
        authorized(pre, info.sender) == Some(true) ==> start_bidding(pre, now, info.sender, config)
            == Err::<(StateView, ResponseView), ContractError>(
            ContractError::BiddingPeriodActive {},
        ),
        start_bidding(pre, now, info.sender, config).is_err(),
        place_bid(pre, now, info, address) matches Ok((post, _)) ==> post.bidding_period
            == pre.bidding_period,
        end_bidding(pre, info.sender, accepted, address) matches Ok((post, _))
            ==> post.bidding_period.is_none(),
{
}

/// Conservation. Where ending the bidding period succeeds, the last transfer
/// moves the accepted bids, the transfers before it move the bids that are
/// not accepted, and together they move exactly the sum of the bids that the
/// ledger held.
pub proof fn law_conservation(
    pre: StateView,
    sender: Seq<char>,
    accepted: Seq<Seq<char>>,
    withdrawal_address: Option<Seq<char>>,
)
    requires
        ascending(pre.bids),
        end_bidding(pre, sender, accepted, withdrawal_address).is_ok(),
    ensures
        ({
            let msgs = end_bidding(pre, sender, accepted, withdrawal_address).unwrap().1.messages;
            &&& msgs.len() >= 1
            &&& sent(msgs.last()) == accepted_total(pre.bids, accepted)
            &&& sent_total(msgs.drop_last()) == total(rejected(pre.bids, accepted))
            &&& sent_total(msgs.drop_last()) + sent(msgs.last()) == total(pre.bids)
            &&& sent_total(msgs) == total(pre.bids)
        }),
{
    let period = pre.bidding_period.unwrap();
    let target = withdrawal_target(sender, withdrawal_address);
    let msgs = transfers(pre.bids, accepted, period.denom, target);
    lemma_transfers_total(pre.bids, accepted, period.denom, target);
    lemma_sent_single(target, accepted_total(pre.bids, accepted), period.denom);
    assert(msgs.drop_last() =~= refunds(rejected(pre.bids, accepted), period.denom));
    lemma_refunds_total(rejected(pre.bids, accepted), period.denom);
}

/// No double refund. Where ending the bidding period succeeds, the ledger is
/// empty afterwards: listing the bids gives nothing, and ending again is
/// refused, so no bid is refunded twice.
pub proof fn law_no_double_refund(
    pre: StateView,
    sender: Seq<char>,
    accepted: Seq<Seq<char>>,
    withdrawal_address: Option<Seq<char>>,
    again: Seq<Seq<char>>,
    listed: QueryResponse,
)
    requires
        end_bidding(pre, sender, accepted, withdrawal_address).is_ok(),
    ensures
        end_bidding(pre, sender, accepted, withdrawal_address).unwrap().0.bids.len() == 0,
        answers(
            end_bidding(pre, sender, accepted, withdrawal_address).unwrap().0,
            QueryMsg::Bids {},
            listed,
        ) ==> (listed matches QueryResponse::Bids(resp) && resp.bids.len() == 0),
        end_bidding(
            end_bidding(pre, sender, accepted, withdrawal_address).unwrap().0,
            sender,
            again,
            withdrawal_address,
        ) == Err::<(StateView, ResponseView), ContractError>(ContractError::NoActivePeriod {}),
{
    let post = end_bidding(pre, sender, accepted, withdrawal_address).unwrap().0;
    if answers(post, QueryMsg::Bids {}, listed) {
        match listed {
            QueryResponse::Bids(resp) => {
                assert(resp.bids.deep_view().len() == post.bids.reverse().len());
            },
            _ => {},
        }
    }
}

/// Accumulation. Two bids in a row for the same bidder add up: after the
/// second, the bidder's total is what it was before the first plus both
/// payments, and that is the new total the second bid reports. For a bidder
/// without a bid before the first, it is the sum of the two payments.
pub proof fn law_accumulation(
    pre: StateView,
    now1: Timestamp,
    info1: MessageInfoView,
    address1: Option<Seq<char>>,
    now2: Timestamp,
    info2: MessageInfoView,
    address2: Option<Seq<char>>,
)
    requires
        ascending(pre.bids),
        place_bid(pre, now1, info1, address1).is_ok(),
        place_bid(place_bid(pre, now1, info1, address1).unwrap().0, now2, info2, address2).is_ok(),
        bidder_of(info1.sender, address1) == bidder_of(info2.sender, address2),
    ensures
        ({
            let bidder = bidder_of(info1.sender, address1);
            let mid = place_bid(pre, now1, info1, address1).unwrap().0;
            let (post, resp) = place_bid(mid, now2, info2, address2).unwrap();
            let first = bid_payment(pre, now1, info1.funds).unwrap();
            let second = bid_payment(mid, now2, info2.funds).unwrap();
            &&& amount_of(post.bids, bidder) == amount_of(pre.bids, bidder) + first + second
            &&& resp == bid_response(bidder, second, amount_of(pre.bids, bidder) + first + second)
            &&& !holds(pre.bids, bidder) ==> amount_of(post.bids, bidder) == first + second
            &&& total(post.bids) == total(pre.bids) + first + second
        }),
{
    let bidder = bidder_of(info1.sender, address1);
    let mid = place_bid(pre, now1, info1, address1).unwrap().0;
    let first = bid_payment(pre, now1, info1.funds).unwrap();
    let second = bid_payment(mid, now2, info2.funds).unwrap();
    lemma_credited(pre.bids, bidder, first);
    lemma_credited(mid.bids, bidder, second);
}

/// Expiry. While a bidding period is open, a bid at the time the period
/// expires, or later, is refused with `BiddingPeriodExpired`, whatever is
/// paid. A bid at any earlier time, so also one unit before the expiry,
/// succeeds where the payment is one coin of the period's denomination and
/// at least the minimum bid.
pub proof fn law_expiry(
    pre: StateView,
    now: Timestamp,
    info: MessageInfoView,
    address: Option<Seq<char>>,
)
    requires
        pre.bidding_period.is_some(),
    ensures
        now.0 >= pre.bidding_period.unwrap().expires_at.0 ==> place_bid(pre, now, info, address)
            == Err::<(StateView, ResponseView), ContractError>(
            ContractError::BiddingPeriodExpired {},
        ),
        now.0 < pre.bidding_period.unwrap().expires_at.0 ==> (place_bid(
            pre,
            now,
            info,
            address,
        ).is_ok() <==> (paid(info.funds, pre.bidding_period.unwrap().denom) matches Ok(amount)
            && amount >= pre.bidding_period.unwrap().minimum_bid)),
{
}

/// Bids only grow. A bid keeps the ledger in order, takes no entry out,
/// lowers no bid, touches no bid but the bidder's own, and adds exactly the
/// payment to the sum of all bids.
pub proof fn law_bids_only_grow(
    pre: StateView,
    now: Timestamp,
    info: MessageInfoView,
    address: Option<Seq<char>>,
    other: Seq<char>,
)
    requires
        ascending(pre.bids),
        place_bid(pre, now, info, address).is_ok(),
    ensures
        ({
            let post = place_bid(pre, now, info, address).unwrap().0;
            &&& ascending(post.bids)
            &&& amount_of(post.bids, other) >= amount_of(pre.bids, other)
            &&& holds(pre.bids, other) ==> holds(post.bids, other)
            &&& other != bidder_of(info.sender, address) ==> amount_of(post.bids, other)
                == amount_of(pre.bids, other)
            &&& total(post.bids) == total(pre.bids) + bid_payment(pre, now, info.funds).unwrap()
        }),
{
    let bidder = bidder_of(info.sender, address);
    let amount = bid_payment(pre, now, info.funds).unwrap();
    lemma_credited(pre.bids, bidder, amount);
}

/// The administrators are set once: no command changes them, whether it
/// succeeds or is refused.
pub proof fn law_admins_are_fixed(
    pre: StateView,
    now: Timestamp,
    info: MessageInfoView,
    config: BiddingPeriodView,
    address: Option<Seq<char>>,
    accepted: Seq<Seq<char>>,
)
    ensures
        start_bidding(pre, now, info.sender, config) matches Ok((post, _)) ==> post.admins
            == pre.admins,
        place_bid(pre, now, info, address) matches Ok((post, _)) ==> post.admins == pre.admins,
        end_bidding(pre, info.sender, accepted, address) matches Ok((post, _)) ==> post.admins
            == pre.admins,
{
}

/// One entry per bidder: in a ledger that is in order, two entries are of
/// two bidders.
pub proof fn law_one_entry_per_bidder(bids: Seq<BidView>, i: int, j: int)
    requires
        ascending(bids),
        0 <= i < bids.len(),
        0 <= j < bids.len(),
        i != j,
    ensures
        bids[i].bidder != bids[j].bidder,
{
    lemma_index_of(bids, i);
    lemma_index_of(bids, j);
}

} // verus!
