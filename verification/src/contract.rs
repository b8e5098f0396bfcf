//! The commands of the contract: instantiating it, opening a bidding period,
//! bidding, closing the period, and the queries.
//!
//! Each command is first given as a function of the mathematical state
//! (`start_bidding`, `place_bid`, `end_bidding`); the handlers are proved to
//! compute exactly that, and to leave the state as it was where they refuse.

use vstd::prelude::*;

use crate::admins::{authorized, can_execute, AdminList};
use crate::error::{ContractError, PaymentError, TermsError};
use crate::host::{
    send, Addr, AttributeView, BankMsg, BankMsgView, CoinView, Env, MessageInfo, MessageInfoView,
    Response, ResponseView, Timestamp,
};
use crate::ledger::{amount_of, credited, entry_of, holds, lemma_index_of, BidLedger};
use crate::msg::{
    BidResponse, BiddingPeriodResponse, BidsResponse, ExecuteMsg, InstantiateMsg, QueryMsg,
    QueryResponse,
};
use crate::payment::{must_pay, paid};
use crate::settlement::{
    acceptable, accepted_total, lemma_accepted_total_grows, lemma_accepted_total_step, refunds,
    rejected, transfers,
};
use crate::state::{Bid, BidView, BiddingPeriod, BiddingPeriodView, State, StateView};
use crate::text::{decimal, to_decimal};

verus! {

/// An attribute of a response.
pub open spec fn attribute(key: Seq<char>, value: Seq<char>) -> AttributeView {
    AttributeView { key, value }
}

/// The characters of an identity that may be given.
pub open spec fn addr_view(address: Option<Addr>) -> Option<Seq<char>> {
    match address {
        Some(a) => Some(a@),
        None => None,
    }
}

/// The mathematical value of a bidding period that may be there.
pub open spec fn period_view(period: Option<BiddingPeriod>) -> Option<BiddingPeriodView> {
    match period {
        Some(p) => Some(p@),
        None => None,
    }
}

/// The mathematical value of a bid that may be there.
pub open spec fn bid_view(bid: Option<Bid>) -> Option<BidView> {
    match bid {
        Some(b) => Some(b@),
        None => None,
    }
}

/// What a handler returned and how it left the state agree with the outcome
/// that the command has in the mathematical state: on success the new state
/// and the response are those of the outcome, on refusal the error is that of
/// the outcome and the state is as it was.
pub open spec fn agrees(
    r: Result<Response, ContractError>,
    pre: StateView,
    post: StateView,
    outcome: Result<(StateView, ResponseView), ContractError>,
) -> bool {
    match r {
        Ok(resp) => outcome == Ok::<(StateView, ResponseView), ContractError>((post, resp@)),
        Err(e) => outcome == Err::<(StateView, ResponseView), ContractError>(e) && post == pre,
    }
}

/// Instantiating sets the administrators and touches nothing else.
pub open spec fn instantiated(pre: StateView, admins: Seq<Seq<char>>) -> (StateView, ResponseView) {
    (
        StateView { admins: Some(admins), bidding_period: pre.bidding_period, bids: pre.bids },
        ResponseView {
            attributes: seq![attribute("method"@, "instantiate"@)],
            messages: Seq::<BankMsgView>::empty(),
        },
    )
}

/// Sets the administrators. Run once, before any other command.
pub fn instantiate(state: &mut State, _env: Env, _info: MessageInfo, msg: InstantiateMsg) -> (r:
    Result<Response, ContractError>)
    requires
        old(state).wf(),
    ensures
        final(state).wf(),
        r matches Ok(resp) && instantiated(old(state)@, msg.admins.deep_view()) == (
            final(state)@,
            resp@,
        ),
{
    // Save the list of admins
    state.admins = Some(AdminList { admins: msg.admins });
    let resp = Response::new().add_attribute("method", "instantiate".to_string());
    assert(resp@.attributes =~= seq![attribute("method"@, "instantiate"@)]);
    Ok(resp)
}

/// What a successful start reports.
pub open spec fn start_bidding_response(config: BiddingPeriodView) -> ResponseView {
    ResponseView {
        attributes: seq![
            attribute("method"@, "start_bidding"@),
            attribute("bidding_period_name"@, config.name),
            attribute(
                "bidding_period_description"@,
                match config.description {
                    Some(d) => d,
                    None => "null"@,
                },
            ),
            attribute("bidding_period_expires_at"@, config.expires_at.text()),
            attribute("bidding_period_accepted_bidders"@, decimal(config.accepted_bidders)),
        ],
        messages: Seq::<BankMsgView>::empty(),
    }
}

/// Opening a bidding period. Only an administrator may, only while none is
/// open, and only with terms that expire after `now` and allow at least one
/// bid to be accepted. The checks are made in this order.
pub open spec fn start_bidding(
    pre: StateView,
    now: Timestamp,
    sender: Seq<char>,
    config: BiddingPeriodView,
) -> Result<(StateView, ResponseView), ContractError> {
    match authorized(pre, sender) {
        None => Err(ContractError::ConfigurationMissing {}),
        Some(false) => Err(ContractError::Unauthorized {}),
        Some(true) => if pre.bidding_period.is_some() {
            Err(ContractError::BiddingPeriodActive {})
        } else if config.expires_at.0 <= now.0 {
            Err(ContractError::InvalidTerms(TermsError::ExpiryNotInFuture {}))
        } else if config.accepted_bidders < 1 {
            Err(ContractError::InvalidTerms(TermsError::NoAcceptedBidders {}))
        } else {
            Ok(
                (
                    StateView { admins: pre.admins, bidding_period: Some(config), bids: pre.bids },
                    start_bidding_response(config),
                ),
            )
        },
    }
}

/// Opens a bidding period with the terms `config`, as `start_bidding` says.
pub fn execute_start_bidding(
    state: &mut State,
    env: Env,
    info: MessageInfo,
    config: BiddingPeriod,
) -> (r: Result<Response, ContractError>)
    requires
        old(state).wf(),
    ensures
        final(state).wf(),
        agrees(
            r,
            old(state)@,
            final(state)@,
            start_bidding(old(state)@, env.block.time, info@.sender, config@),
        ),
{
    // Method is privileged
    match can_execute(state, info.sender.as_str()) {
        Err(e) => {
            return Err(e);
        },
        Ok(can) => {
            if !can {
                return Err(ContractError::Unauthorized {});
            }
        },
    }

    // Check if another bidding period already exists
    if state.bidding_period.is_some() {
        return Err(ContractError::BiddingPeriodActive {});
    }

    // Verify that the date provided is not in the past
    if config.expires_at.nanos() <= env.block.time.nanos() {
        return Err(ContractError::InvalidTerms(TermsError::ExpiryNotInFuture {}));
    }

    // Verify that at least 1 bid will be accepted
    if config.accepted_bidders < 1 {
        return Err(ContractError::InvalidTerms(TermsError::NoAcceptedBidders {}));
    }
    let description = match &config.description {
        Some(d) => d.clone(),
        None => "null".to_string(),
    };
    let resp = Response::new().add_attribute("method", "start_bidding".to_string()).add_attribute(
        "bidding_period_name",
        config.name.clone(),
    ).add_attribute("bidding_period_description", description).add_attribute(
        "bidding_period_expires_at",
        config.expires_at.to_string(),
    ).add_attribute(
        "bidding_period_accepted_bidders",
        to_decimal(config.accepted_bidders as u128),
    );
    assert(resp@.attributes =~= start_bidding_response(config@).attributes);

    // Create the new bidding period
    state.bidding_period = Some(config);
    Ok(resp)
}

/// The amount that the funds attached to a bid pay, or why the bid is
/// refused: no period is open, the period has expired at `now`, the funds are
/// not one coin of the period's denomination above zero, or this one payment
/// is below the period's minimum. The checks are made in this order.
pub open spec fn bid_payment(pre: StateView, now: Timestamp, funds: Seq<CoinView>) -> Result<
    nat,
    ContractError,
> {
    match pre.bidding_period {
        None => Err(ContractError::NoActivePeriod {}),
        Some(period) => if now.0 >= period.expires_at.0 {
            Err(ContractError::BiddingPeriodExpired {})
        } else {
            match paid(funds, period.denom) {
                Err(e) => Err(ContractError::Payment(e)),
                Ok(amount) => if amount < period.minimum_bid {
                    Err(ContractError::Payment(PaymentError::BelowMinimumBid {}))
                } else {
                    Ok(amount)
                },
            }
        },
    }
}

/// Whose bid a payment counts for: the address given, else the sender's.
pub open spec fn bidder_of(sender: Seq<char>, address: Option<Seq<char>>) -> Seq<char> {
    match address {
        Some(a) => a,
        None => sender,
    }
}

/// What a successful bid reports: the payment and the bidder's new total.
pub open spec fn bid_response(bidder: Seq<char>, amount: nat, new_amount: nat) -> ResponseView {
    ResponseView {
        attributes: seq![
            attribute("method"@, "bid"@),
            attribute("address"@, bidder),
            attribute("amount"@, decimal(amount)),
            attribute("new_amount"@, decimal(new_amount)),
        ],
        messages: Seq::<BankMsgView>::empty(),
    }
}

/// Placing a bid: an accepted payment is added to the bidder's entry.
pub open spec fn place_bid(
    pre: StateView,
    now: Timestamp,
    info: MessageInfoView,
    address: Option<Seq<char>>,
) -> Result<(StateView, ResponseView), ContractError> {
    match bid_payment(pre, now, info.funds) {
        Err(e) => Err(e),
        Ok(amount) => {
            let bidder = bidder_of(info.sender, address);
            Ok(
                (
                    StateView {
                        admins: pre.admins,
                        bidding_period: pre.bidding_period,
                        bids: credited(pre.bids, bidder, amount),
                    },
                    bid_response(bidder, amount, amount_of(pre.bids, bidder) + amount),
                ),
            )
        },
    }
}

/// The bidder's new total can be held in 128 bits.
pub open spec fn bid_fits(
    pre: StateView,
    now: Timestamp,
    info: MessageInfoView,
    address: Option<Seq<char>>,
) -> bool {
    bid_payment(pre, now, info.funds) matches Ok(amount) ==> amount_of(
        pre.bids,
        bidder_of(info.sender, address),
    ) + amount <= u128::MAX
}

/// Checks a bid before anything is changed, and gives the amount it pays.
pub fn validate_bid(state: &State, env: &Env, info: &MessageInfo) -> (r: Result<
    u128,
    ContractError,
>)
    ensures
        match r {
            Ok(amount) => bid_payment(state@, env.block.time, info@.funds) == Ok::<
                nat,
                ContractError,
            >(amount as nat),
            Err(e) => bid_payment(state@, env.block.time, info@.funds) == Err::<nat, ContractError>(
                e,
            ),
        },
{
    // There must be a current bidding period for a user to submit a bid
    let bidding_period = match &state.bidding_period {
        Some(period) => period,
        None => {
            return Err(ContractError::NoActivePeriod {});
        },
    };

    // Verify that the bidding period is not expired
    if env.block.time.nanos() >= bidding_period.expires_at.nanos() {
        return Err(ContractError::BiddingPeriodExpired {});
    }

    // Get the amount of tokens paid
    let amount_paid = match must_pay(info, bidding_period.denom.as_str()) {
        Ok(amount) => amount,
        Err(e) => {
            return Err(ContractError::Payment(e));
        },
    };

    // Verify that the amount paid is over the minimum bid amount
    if amount_paid < bidding_period.minimum_bid {
        return Err(ContractError::Payment(PaymentError::BelowMinimumBid {}));
    }
    Ok(amount_paid)
}

/// Takes a bid, as `place_bid` says. The funds of `info` are the payment;
/// it counts for `address`, or for the sender where none is given.
pub fn execute_bid(state: &mut State, env: Env, info: MessageInfo, address: Option<Addr>) -> (r:
    Result<Response, ContractError>)
    requires
        old(state).wf(),
        bid_fits(old(state)@, env.block.time, info@, addr_view(address)),
    ensures
        final(state).wf(),
        agrees(
            r,
            old(state)@,
            final(state)@,
            place_bid(old(state)@, env.block.time, info@, addr_view(address)),
        ),
{
    let amount_paid = match validate_bid(state, &env, &info) {
        Ok(amount) => amount,
        Err(e) => {
            return Err(e);
        },
    };
    let ghost who = bidder_of(info@.sender, addr_view(address));
    let bidder = match address {
        Some(address) => address,
        None => info.sender,
    };

    // If the bid already exists, add on the amount sent
    // If not, create a new bid for the user
    let held = match state.bids.get(&bidder) {
        Some(bid) => bid.amount,
        None => 0,
    };
    state.bids.upsert_add(&bidder, amount_paid);
    let new_amount = held + amount_paid;

    let resp = Response::new().add_attribute("method", "bid".to_string()).add_attribute(
        "address",
        bidder.into_string(),
    ).add_attribute("amount", to_decimal(amount_paid)).add_attribute(
        "new_amount",
        to_decimal(new_amount),
    );
    assert(resp@.attributes =~= bid_response(who, amount_paid as nat, new_amount as nat).attributes);
    Ok(resp)
}

/// Where bidding ends the sender matters twice: as the one who must be an
/// administrator, and as the one the proceeds go to unless a withdrawal
/// address is given.
pub open spec fn withdrawal_target(sender: Seq<char>, withdrawal_address: Option<Seq<char>>) -> Seq<
    char,
> {
    match withdrawal_address {
        Some(a) => a,
        None => sender,
    }
}

/// What a successful end reports: the proceeds, the refunds, and the transfer
/// of the proceeds.
pub open spec fn end_bidding_response(
    bids: Seq<BidView>,
    accepted: Seq<Seq<char>>,
    denom: Seq<char>,
    target: Seq<char>,
) -> ResponseView {
    ResponseView {
        attributes: seq![
            attribute("method"@, "end_bidding"@),
            attribute("withdrawn"@, decimal(accepted_total(bids, accepted))),
        ],
        messages: transfers(bids, accepted, denom, target),
    }
}

/// Ending the bidding period. Only an administrator may, only while a period
/// is open, with no more accepted bidders than the period allows, each of
/// them named once and holding a bid. The checks are made in this order.
/// The period is closed, the ledger emptied, every bid that is not accepted
/// refunded, and the accepted bids forwarded.
pub open spec fn end_bidding(
    pre: StateView,
    sender: Seq<char>,
    accepted: Seq<Seq<char>>,
    withdrawal_address: Option<Seq<char>>,
) -> Result<(StateView, ResponseView), ContractError> {
    match authorized(pre, sender) {
        None => Err(ContractError::ConfigurationMissing {}),
        Some(false) => Err(ContractError::Unauthorized {}),
        Some(true) => match pre.bidding_period {
            None => Err(ContractError::NoActivePeriod {}),
            Some(period) => if accepted.len() > period.accepted_bidders {
                Err(ContractError::TooManyAccepted {})
            } else if !acceptable(pre.bids, accepted) {
                Err(ContractError::BidNotFound {})
            } else {
                Ok(
                    (
                        StateView {
                            admins: pre.admins,
                            bidding_period: None,
                            bids: Seq::<BidView>::empty(),
                        },
                        end_bidding_response(
                            pre.bids,
                            accepted,
                            period.denom,
                            withdrawal_target(sender, withdrawal_address),
                        ),
                    ),
                )
            },
        },
    }
}

/// The proceeds can be held in 128 bits.
pub open spec fn settlement_fits(
    pre: StateView,
    sender: Seq<char>,
    accepted: Seq<Seq<char>>,
) -> bool {
    end_bidding(pre, sender, accepted, None).is_ok() ==> accepted_total(pre.bids, accepted)
        <= u128::MAX
}

/// One of the first `j` names of the list is `bidder`.
pub open spec fn named_before(accepted: Seq<Seq<char>>, j: int, bidder: Seq<char>) -> bool {
    exists|i: int| 0 <= i < j && (#[trigger] accepted[i]) == bidder
}

/// Marks the entries of the accepted bidders, by their place in the ledger's
/// order; `None` where a bidder is named twice or has no bid.
fn mark_accepted(bids: &BidLedger, accepted: &Vec<Addr>) -> (r: Option<Vec<bool>>)
    requires
        bids.wf(),
    ensures
        r.is_some() == acceptable(bids@, accepted.deep_view()),
        r matches Some(marks) ==> marks@.len() == bids@.len() && forall|i: int|
            0 <= i < marks@.len() ==> marks@[i] == accepted.deep_view().contains(
                (#[trigger] bids@[i]).bidder,
            ),
{
    let ghost names = accepted.deep_view();
    let n = bids.len();
    let mut marks: Vec<bool> = vec![false; n];
    let mut j: usize = 0;
    while j < accepted.len()
        invariant
            j <= accepted.len(),
            bids.wf(),
            names == accepted.deep_view(),
            marks@.len() == bids@.len(),
            forall|i: int|
                0 <= i < marks@.len() ==> marks@[i] == named_before(
                    names,
                    j as int,
                    (#[trigger] bids@[i]).bidder,
                ),
            forall|a: int, b: int| 0 <= a < b < j ==> names[a] != names[b],
            forall|a: int| 0 <= a < j ==> holds(bids@, #[trigger] names[a]),
        decreases accepted.len() - j,
    {
        assert(names[j as int] == accepted[j as int]@);
        match bids.position(&accepted[j]) {
            None => {
                assert(!holds(bids@, names[j as int]));
                return None;
            },
            Some(i) => {
                if marks[i] {
                    proof {
                        assert(named_before(names, j as int, bids@[i as int].bidder));
                        let a = choose|a: int|
                            0 <= a < j && (#[trigger] names[a]) == bids@[i as int].bidder;
                        assert(names[a] == names[j as int]);
                    }
                    return None;
                }
                let ghost before = marks@;
                marks.set(i, true);
                proof {
                    assert forall|a: int, b: int| 0 <= a < b < j + 1 implies names[a]
                        != names[b] by {
                        if b == j && names[a] == names[b] {
                            assert(named_before(names, j as int, bids@[i as int].bidder));
                        }
                    }
                    assert forall|k: int| 0 <= k < marks@.len() implies marks@[k] == named_before(
                        names,
                        j + 1,
                        (#[trigger] bids@[k]).bidder,
                    ) by {
                        let who = bids@[k].bidder;
                        if k == i {
                            assert(names[j as int] == who);
                        } else {
                            lemma_index_of(bids@, k);
                            lemma_index_of(bids@, i as int);
                            assert(names[j as int] != who);
                            if named_before(names, j + 1, who) {
                                let a = choose|a: int| 0 <= a < j + 1 && (#[trigger] names[a]) == who;
                                assert(a < j);
                                assert(named_before(names, j as int, who));
                            }
                            if named_before(names, j as int, who) {
                                let a = choose|a: int| 0 <= a < j && (#[trigger] names[a]) == who;
                                assert(named_before(names, j + 1, who));
                            }
                        }
                    }
                }
            },
        }
        j += 1;
    }
    proof {
        assert(names.no_duplicates()) by {
            assert forall|a: int, b: int|
                0 <= a < names.len() && 0 <= b < names.len() && a != b implies names[a]
                != names[b] by {
                if a < b {
                    assert(names[a] != names[b]);
                } else {
                    assert(names[b] != names[a]);
                }
            }
        }
        assert forall|i: int| 0 <= i < marks@.len() implies marks@[i] == names.contains(
            (#[trigger] bids@[i]).bidder,
        ) by {
            let who = bids@[i].bidder;
            if named_before(names, j as int, who) {
                let a = choose|a: int| 0 <= a < j && (#[trigger] names[a]) == who;
                assert(names[a] == who);
            }
            if names.contains(who) {
                let a = choose|a: int| 0 <= a < names.len() && names[a] == who;
                assert(named_before(names, j as int, who));
            }
        }
    }
    Some(marks)
}

/// The sum of the bids of the accepted bidders, unless it is too large to
/// be held in 128 bits.
fn accepted_sum(bids: &BidLedger, accepted: &Vec<Addr>) -> (r: Option<u128>)
    requires
        bids.wf(),
    ensures
        match r {
            Some(sum) => sum == accepted_total(bids@, accepted.deep_view()),
            None => accepted_total(bids@, accepted.deep_view()) > u128::MAX,
        },
{
    let ghost names = accepted.deep_view();
    let mut sum: u128 = 0;
    let mut j: usize = 0;
    assert(names.take(0) =~= Seq::<Seq<char>>::empty());
    while j < accepted.len()
        invariant
            j <= accepted.len(),
            bids.wf(),
            names == accepted.deep_view(),
            sum == accepted_total(bids@, names.take(j as int)),
        decreases accepted.len() - j,
    {
        assert(names[j as int] == accepted[j as int]@);
        let amount = match bids.get(&accepted[j]) {
            Some(bid) => bid.amount,
            None => 0,
        };
        proof {
            lemma_accepted_total_step(bids@, names, j as int);
            lemma_accepted_total_grows(bids@, names, j + 1);
        }
        match sum.checked_add(amount) {
            Some(more) => {
                sum = more;
            },
            None => {
                return None;
            },
        }
        j += 1;
    }
    assert(names.take(j as int) =~= names);
    Some(sum)
}

/// The refunds of the entries that are not marked, in the ledger's order.
fn refund_unmarked(
    bids: &BidLedger,
    marks: &Vec<bool>,
    denom: &str,
    Ghost(accepted): Ghost<Seq<Seq<char>>>,
) -> (r: Vec<BankMsg>)
    requires
        marks@.len() == bids@.len(),
        forall|i: int|
            0 <= i < marks@.len() ==> marks@[i] == accepted.contains((#[trigger] bids@[i]).bidder),
    ensures
        r.deep_view() == refunds(rejected(bids@, accepted), denom@),
{
    let list = bids.list();
    let mut msgs: Vec<BankMsg> = Vec::new();
    let mut i: usize = 0;
    assert(bids@.take(0) =~= Seq::<BidView>::empty());
    assert(msgs.deep_view() =~= refunds(rejected(bids@.take(0), accepted), denom@));
    while i < list.len()
        invariant
            i <= list.len(),
            list.deep_view() == bids@,
            marks@.len() == bids@.len(),
            forall|k: int|
                0 <= k < marks@.len() ==> marks@[k] == accepted.contains(
                    (#[trigger] bids@[k]).bidder,
                ),
            msgs.deep_view() == refunds(rejected(bids@.take(i as int), accepted), denom@),
        decreases list.len() - i,
    {
        let ghost before = msgs.deep_view();
        let ghost upto = bids@.take(i as int);
        let ghost next = bids@.take(i + 1);
        proof {
            assert(next.drop_last() =~= upto);
            assert(next.last() == bids@[i as int]);
            assert(list[i as int]@ == bids@[i as int]);
            assert(marks@[i as int] == accepted.contains(bids@[i as int].bidder));
        }
        if !marks[i] {
            // Reimburse the rejected bid
            let refund_bidder = send(list[i].bidder.clone().into_string(), list[i].amount, denom);
            msgs.push(refund_bidder);
            assert(msgs.deep_view() =~= before.push(refund_bidder@));
            assert(msgs.deep_view() =~= refunds(rejected(next, accepted), denom@));
        }
        i += 1;
    }
    assert(bids@.take(i as int) =~= bids@);
    msgs
}

/// Checks the end of a bidding period before anything is changed. Where
/// nothing is wrong, gives the marks of the accepted entries, by their place
/// in the ledger's order, and the denomination of the period.
fn validate_end(state: &State, info: &MessageInfo, accepted_bids: &Vec<Addr>) -> (r: Result<
    (Vec<bool>, String),
    ContractError,
>)
    requires
        state.wf(),
    ensures
        match r {
            Ok((marks, denom)) => end_bidding(
                state@,
                info@.sender,
                accepted_bids.deep_view(),
                None,
            ).is_ok() && state@.bidding_period.is_some() && denom@
                == state@.bidding_period.unwrap().denom && marks@.len() == state@.bids.len()
                && forall|i: int|
                0 <= i < marks@.len() ==> marks@[i] == accepted_bids.deep_view().contains(
                    (#[trigger] state@.bids[i]).bidder,
                ),
            Err(e) => end_bidding(state@, info@.sender, accepted_bids.deep_view(), None) == Err::<
                (StateView, ResponseView),
                ContractError,
            >(e),
        },
{
    // Method is privileged
    match can_execute(state, info.sender.as_str()) {
        Err(e) => {
            return Err(e);
        },
        Ok(can) => {
            if !can {
                return Err(ContractError::Unauthorized {});
            }
        },
    }

    // Verify that there is a bidding period to end
    let bidding_period = match &state.bidding_period {
        Some(period) => period,
        None => {
            return Err(ContractError::NoActivePeriod {});
        },
    };

    // Verify that the list of accepted bids is no longer than the config dictates
    if accepted_bids.len() as u64 > bidding_period.accepted_bidders {
        return Err(ContractError::TooManyAccepted {});
    }

    // Verify that every accepted bidder has a bid and is named once
    match mark_accepted(&state.bids, accepted_bids) {
        Some(marks) => Ok((marks, bidding_period.denom.clone())),
        None => Err(ContractError::BidNotFound {}),
    }
}

/// Ends the bidding period, as `end_bidding` says: the response holds one
/// refund for each bid that is not accepted, in ascending order of the
/// bidders, and then the transfer of the accepted bids to
/// `withdrawal_address`, or to the sender where none is given.
pub fn execute_end_bidding(
    state: &mut State,
    _env: Env,
    info: MessageInfo,
    accepted_bids: Vec<Addr>,
    withdrawal_address: Option<Addr>,
) -> (r: Result<Response, ContractError>)
    requires
        old(state).wf(),
        settlement_fits(old(state)@, info@.sender, accepted_bids.deep_view()),
    ensures
        final(state).wf(),
        agrees(
            r,
            old(state)@,
            final(state)@,
            end_bidding(
                old(state)@,
                info@.sender,
                accepted_bids.deep_view(),
                addr_view(withdrawal_address),
            ),
        ),
{
    let ghost names = accepted_bids.deep_view();
    let ghost target = withdrawal_target(info@.sender, addr_view(withdrawal_address));
    let (marks, denom) = match validate_end(state, &info, &accepted_bids) {
        Ok(checked) => checked,
        Err(e) => {
            return Err(e);
        },
    };

    // Keep the funds of all accepted bids
    let total_to_withdraw = accepted_sum(&state.bids, &accepted_bids).unwrap();

    // Reimburse all rejected bids
    let msgs = refund_unmarked(&state.bids, &marks, denom.as_str(), Ghost(names));

    // Clear the bids and remove the current bidding period
    state.bids.clear();
    state.bidding_period = None;

    // Withdraw the accepted funds
    let to_address = match withdrawal_address {
        Some(address) => address.into_string(),
        None => info.sender.into_string(),
    };
    let withdrawal = send(to_address, total_to_withdraw, denom.as_str());
    let resp = Response::new().add_attribute("method", "end_bidding".to_string()).add_attribute(
        "withdrawn",
        to_decimal(total_to_withdraw),
    ).add_messages(msgs).add_message(withdrawal);
    proof {
        let want = end_bidding_response(old(state)@.bids, names, denom@, target);
        assert(resp@.attributes =~= want.attributes);
        assert(resp@.messages =~= want.messages);
    }
    Ok(resp)
}

/// What a command makes of the state, and what it answers.
pub open spec fn step(pre: StateView, env: Env, info: MessageInfoView, msg: ExecuteMsg) -> Result<
    (StateView, ResponseView),
    ContractError,
> {
    match msg {
        ExecuteMsg::StartBidding { config } => start_bidding(
            pre,
            env.block.time,
            info.sender,
            config@,
        ),
        ExecuteMsg::EndBidding { accepted_bids, withdrawal_address } => end_bidding(
            pre,
            info.sender,
            accepted_bids.deep_view(),
            addr_view(withdrawal_address),
        ),
        ExecuteMsg::Bid { address } => place_bid(pre, env.block.time, info, addr_view(address)),
    }
}

/// Every amount the command has to compute can be held in 128 bits.
pub open spec fn execute_fits(pre: StateView, env: Env, info: MessageInfoView, msg: ExecuteMsg) -> bool {
    match msg {
        ExecuteMsg::StartBidding { .. } => true,
        ExecuteMsg::EndBidding { accepted_bids, .. } => settlement_fits(
            pre,
            info.sender,
            accepted_bids.deep_view(),
        ),
        ExecuteMsg::Bid { address } => bid_fits(pre, env.block.time, info, addr_view(address)),
    }
}

/// Runs a command on the state. A command that is refused leaves the state
/// as it was.
pub fn execute(state: &mut State, env: Env, info: MessageInfo, msg: ExecuteMsg) -> (r: Result<
    Response,
    ContractError,
>)
    requires
        old(state).wf(),
        execute_fits(old(state)@, env, info@, msg),
    ensures
        final(state).wf(),
        agrees(r, old(state)@, final(state)@, step(old(state)@, env, info@, msg)),
{
    match msg {
        ExecuteMsg::StartBidding { config } => execute_start_bidding(state, env, info, config),
        ExecuteMsg::EndBidding { accepted_bids, withdrawal_address } => execute_end_bidding(
            state,
            env,
            info,
            accepted_bids,
            withdrawal_address,
        ),
        ExecuteMsg::Bid { address } => execute_bid(state, env, info, address),
    }
}

/// Whether every amount the command has to compute can be held in 128 bits.
pub fn fits(state: &State, env: &Env, info: &MessageInfo, msg: &ExecuteMsg) -> (r: bool)
    requires
        state.wf(),
    ensures
        r == execute_fits(state@, *env, info@, *msg),
{
    match msg {
        ExecuteMsg::StartBidding { .. } => true,
        ExecuteMsg::EndBidding { accepted_bids, .. } => {
            match validate_end(state, info, accepted_bids) {
                Ok(_) => accepted_sum(&state.bids, accepted_bids).is_some(),
                Err(_) => true,
            }
        },
        ExecuteMsg::Bid { address } => {
            match validate_bid(state, env, info) {
                Ok(amount_paid) => {
                    let bidder = match address {
                        Some(address) => address,
                        None => &info.sender,
                    };
                    let held = match state.bids.get(bidder) {
                        Some(bid) => bid.amount,
                        None => 0,
                    };
                    held.checked_add(amount_paid).is_some()
                },
                Err(_) => true,
            }
        },
    }
}

/// Runs the command where every amount it has to compute can be held in 128
/// bits; else answers `None` and leaves the state as it was.
pub fn try_execute(state: &mut State, env: Env, info: MessageInfo, msg: ExecuteMsg) -> (r: Option<
    Result<Response, ContractError>,
>)
    requires
        old(state).wf(),
    ensures
        final(state).wf(),
        match r {
            Some(res) => execute_fits(old(state)@, env, info@, msg) && agrees(
                res,
                old(state)@,
                final(state)@,
                step(old(state)@, env, info@, msg),
            ),
            None => !execute_fits(old(state)@, env, info@, msg) && final(state)@ == old(state)@,
        },
{
    if fits(state, &env, &info, &msg) {
        Some(execute(state, env, info, msg))
    } else {
        None
    }
}

/// What a query answers in the mathematical state.
pub open spec fn answers(state: StateView, msg: QueryMsg, r: QueryResponse) -> bool {
    match msg {
        QueryMsg::BiddingPeriod {} => r matches QueryResponse::BiddingPeriod(resp) && period_view(
            resp.bidding_period,
        ) == state.bidding_period,
        QueryMsg::Bids {} => r matches QueryResponse::Bids(resp) && resp.bids.deep_view()
            == state.bids.reverse(),
        QueryMsg::Bid { address } => r matches QueryResponse::Bid(resp) && bid_view(resp.bid)
            == entry_of(state.bids, address@),
    }
}

/// Answers a query. No query changes the state.
pub fn query(state: &State, _env: Env, msg: QueryMsg) -> (r: QueryResponse)
    requires
        state.wf(),
    ensures
        answers(state@, msg, r),
{
    match msg {
        QueryMsg::BiddingPeriod {} => QueryResponse::BiddingPeriod(query_bidding_period(state)),
        QueryMsg::Bids {} => QueryResponse::Bids(query_bids(state)),
        QueryMsg::Bid { address } => QueryResponse::Bid(query_bid(state, address)),
    }
}

/// The terms of the open bidding period, if one is open.
pub fn query_bidding_period(state: &State) -> (r: BiddingPeriodResponse)
    ensures
        period_view(r.bidding_period) == state@.bidding_period,
{
    let bidding_period = match &state.bidding_period {
        Some(period) => Some(period.clone()),
        None => None,
    };
    BiddingPeriodResponse { bidding_period }
}

/// All bids, in descending order of their bidders.
pub fn query_bids(state: &State) -> (r: BidsResponse)
    ensures
        r.bids.deep_view() == state@.bids.reverse(),
{
    let list = state.bids.list();
    let mut bids: Vec<Bid> = Vec::new();
    let mut i: usize = list.len();
    while i > 0
        invariant
            i <= list.len(),
            bids.len() == list.len() - i,
            forall|k: int| 0 <= k < bids.len() ==> bids[k]@ == list[list.len() - 1 - k]@,
        decreases i,
    {
        i -= 1;
        bids.push(list[i].clone());
    }
    assert(bids.deep_view() =~= list.deep_view().reverse());
    BidsResponse { bids }
}

/// The bid of `address`, if they have one.
pub fn query_bid(state: &State, address: Addr) -> (r: BidResponse)
    requires
        state.wf(),
    ensures
        bid_view(r.bid) == entry_of(state@.bids, address@),
{
    BidResponse { bid: state.bids.get(&address) }
}

} // verus!
