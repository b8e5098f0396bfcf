use juno_bid::contract::{
    execute, execute_bid, execute_end_bidding, execute_start_bidding, fits, instantiate, query,
    query_bid, query_bidding_period, query_bids, try_execute, validate_bid,
};
use juno_bid::error::{ContractError, PaymentError, TermsError};
use juno_bid::helpers::{JunoBidContract, WasmMsg};
use juno_bid::host::{
    coin, Addr, Attribute, BankMsg, BlockInfo, Coin, Env, MessageInfo, Response, Timestamp,
};
use juno_bid::msg::{
    BidResponse, BiddingPeriodResponse, BidsResponse, ExecuteMsg, InstantiateMsg, QueryMsg,
    QueryResponse,
};
use juno_bid::state::{Bid, BiddingPeriod, State};

const BIDDER: &str = "juno1bidder";
const OTHER_BIDDER: &str = "juno1otherbidder";
const ADMIN: &str = "juno1admin";
const NATIVE_DENOM: &str = "ujunox";

fn mock_env() -> Env {
    Env {
        block: BlockInfo {
            time: Timestamp::from_nanos(1_571_797_419_879_305_533),
        },
    }
}

fn env_at(nanos: u64) -> Env {
    Env {
        block: BlockInfo {
            time: Timestamp::from_nanos(nanos),
        },
    }
}

fn info(sender: &str, funds: Vec<Coin>) -> MessageInfo {
    MessageInfo {
        sender: Addr::unchecked(sender),
        funds,
    }
}

fn proper_instantiate() -> (State, JunoBidContract) {
    let mut state = State::new();
    let msg = InstantiateMsg {
        admins: vec![Addr::unchecked(ADMIN)],
    };
    instantiate(&mut state, mock_env(), info(ADMIN, vec![]), msg).unwrap();
    (state, JunoBidContract(Addr::unchecked("contract0")))
}

fn period(expires_at: Timestamp, minimum_bid: u128, accepted_bidders: u64, denom: &str) -> BiddingPeriod {
    BiddingPeriod {
        name: "My Bidding Period".into(),
        description: None,
        expires_at,
        minimum_bid,
        accepted_bidders,
        denom: denom.into(),
    }
}

fn my_period() -> BiddingPeriod {
    let env = mock_env();
    period(
        Timestamp::from_seconds(env.block.time.seconds() + 1440),
        500,
        1,
        NATIVE_DENOM,
    )
}

/// Sends the command as another contract would: through the helper, then to `execute`.
fn send(
    state: &mut State,
    contract: &JunoBidContract,
    sender: &str,
    msg: ExecuteMsg,
    funds: Vec<Coin>,
) -> Result<Response, ContractError> {
    match contract.call(msg) {
        WasmMsg::Execute { msg, .. } => execute(state, mock_env(), info(sender, funds), msg),
    }
}

/// What the transfers of a response move to `address`.
fn received(resp: &Response, address: &str) -> u128 {
    let mut sum = 0u128;
    for msg in resp.messages.iter() {
        match msg {
            BankMsg::Send { to_address, amount } => {
                if to_address == address {
                    for c in amount.iter() {
                        assert_eq!(c.denom, NATIVE_DENOM);
                        sum += c.amount;
                    }
                }
            }
        }
    }
    sum
}

fn attr(key: &str, value: &str) -> Attribute {
    Attribute {
        key: key.to_string(),
        value: value.to_string(),
    }
}

fn transfer(to: &str, amount: u128, denom: &str) -> BankMsg {
    BankMsg::Send {
        to_address: to.to_string(),
        amount: vec![coin(amount, denom)],
    }
}

fn listed(state: &State) -> Vec<Bid> {
    query_bids(state).bids
}

fn bid(bidder: &str, amount: u128) -> Bid {
    Bid {
        bidder: Addr::unchecked(bidder),
        amount,
    }
}

/// An open period with `minimum_bid = 500`, one accepted bidder and denomination "X".
fn open_x() -> State {
    let (mut state, _) = proper_instantiate();
    execute_start_bidding(
        &mut state,
        env_at(1_000),
        info(ADMIN, vec![]),
        period(Timestamp::from_nanos(2_000), 500, 1, "X"),
    )
    .unwrap();
    state
}

fn pay(state: &mut State, bidder: &str, amount: u128) -> Result<Response, ContractError> {
    execute_bid(state, env_at(1_500), info(bidder, vec![coin(amount, "X")]), None)
}

#[test]
fn try_start_bidding() {
    let (mut state, juno_bid_contract) = proper_instantiate();

    // Create a bidding period
    let msg = ExecuteMsg::StartBidding {
        config: my_period(),
    };
    send(&mut state, &juno_bid_contract, ADMIN, msg, vec![]).unwrap();
}

#[test]
fn try_end_bidding() {
    let (mut state, juno_bid_contract) = proper_instantiate();

    // Create a bidding period
    let msg = ExecuteMsg::StartBidding {
        config: my_period(),
    };
    send(&mut state, &juno_bid_contract, ADMIN, msg, vec![]).unwrap();

    // Create a bid for BIDDER
    let msg = ExecuteMsg::Bid { address: None };
    send(
        &mut state,
        &juno_bid_contract,
        BIDDER,
        msg,
        vec![Coin {
            denom: NATIVE_DENOM.to_string(),
            amount: 1000,
        }],
    )
    .unwrap();

    // Create a bid for OTHER_BIDDER
    let msg = ExecuteMsg::Bid { address: None };
    send(
        &mut state,
        &juno_bid_contract,
        OTHER_BIDDER,
        msg,
        vec![Coin {
            denom: NATIVE_DENOM.to_string(),
            amount: 500,
        }],
    )
    .unwrap();

    // Accept the bid from BIDDER and end the bidding period
    let msg = ExecuteMsg::EndBidding {
        accepted_bids: vec![Addr::unchecked(BIDDER)],
        withdrawal_address: None,
    };
    let resp = send(&mut state, &juno_bid_contract, ADMIN, msg, vec![]).unwrap();

    // Verify that the admin has withdrawn 1000 ujunox
    let balance = received(&resp, ADMIN);
    assert_eq!(balance, 1000);

    // Verify that OTHER_BIDDER has been refunded 500 ujunox
    let balance = received(&resp, OTHER_BIDDER);
    assert_eq!(balance, 500);
}

#[test]
fn try_bid() {
    let (mut state, juno_bid_contract) = proper_instantiate();

    // Create a bidding period
    let msg = ExecuteMsg::StartBidding {
        config: my_period(),
    };
    send(&mut state, &juno_bid_contract, ADMIN, msg, vec![]).unwrap();

    // Create a bid
    let msg = ExecuteMsg::Bid { address: None };
    send(
        &mut state,
        &juno_bid_contract,
        BIDDER,
        msg,
        vec![Coin {
            denom: NATIVE_DENOM.to_string(),
            amount: 1000,
        }],
    )
    .unwrap();
}

#[test]
fn try_proxy_bid() {
    let (mut state, juno_bid_contract) = proper_instantiate();

    // Create a bidding period
    let msg = ExecuteMsg::StartBidding {
        config: my_period(),
    };
    send(&mut state, &juno_bid_contract, ADMIN, msg, vec![]).unwrap();

    // Create a proxy bid
    let msg = ExecuteMsg::Bid {
        address: Some(Addr::unchecked(BIDDER)),
    };
    send(
        &mut state,
        &juno_bid_contract,
        BIDDER,
        msg,
        vec![Coin {
            denom: NATIVE_DENOM.to_string(),
            amount: 1000,
        }],
    )
    .unwrap();
}

#[test]
fn instantiate_sets_the_admins_and_reports_the_method() {
    let mut state = State::new();
    let resp = instantiate(
        &mut state,
        mock_env(),
        info("creator", vec![]),
        InstantiateMsg {
            admins: vec![Addr::unchecked("a"), Addr::unchecked("b")],
        },
    )
    .unwrap();
    assert_eq!(resp.attributes, vec![attr("method", "instantiate")]);
    assert!(resp.messages.is_empty());
    let admins = state.admins.as_ref().unwrap();
    assert_eq!(admins.admins, vec![Addr::unchecked("a"), Addr::unchecked("b")]);
    assert!(state.bidding_period.is_none());
    assert!(listed(&state).is_empty());
    // the creator is not an admin unless listed
    assert_eq!(
        execute_start_bidding(&mut state, mock_env(), info("creator", vec![]), my_period()),
        Err(ContractError::Unauthorized {})
    );
}

#[test]
fn start_bidding_reports_the_terms() {
    let (mut state, _) = proper_instantiate();
    let resp = execute_start_bidding(&mut state, mock_env(), info(ADMIN, vec![]), my_period()).unwrap();
    assert_eq!(
        resp.attributes,
        vec![
            attr("method", "start_bidding"),
            attr("bidding_period_name", "My Bidding Period"),
            attr("bidding_period_description", "null"),
            attr("bidding_period_expires_at", "1571798859.000000000"),
            attr("bidding_period_accepted_bidders", "1"),
        ]
    );
    assert!(resp.messages.is_empty());
    assert_eq!(
        query_bidding_period(&state),
        BiddingPeriodResponse {
            bidding_period: Some(my_period())
        }
    );
}

#[test]
fn start_bidding_reports_a_description_and_a_fraction_of_a_second() {
    let (mut state, _) = proper_instantiate();
    let mut config = period(Timestamp::from_nanos(3_000_000_042), 1, 18_446_744_073_709_551_615, "X");
    config.description = Some("spring sale".to_string());
    let resp = execute_start_bidding(&mut state, env_at(3_000_000_041), info(ADMIN, vec![]), config).unwrap();
    assert_eq!(
        resp.attributes,
        vec![
            attr("method", "start_bidding"),
            attr("bidding_period_name", "My Bidding Period"),
            attr("bidding_period_description", "spring sale"),
            attr("bidding_period_expires_at", "3.000000042"),
            attr("bidding_period_accepted_bidders", "18446744073709551615"),
        ]
    );
}

#[test]
fn start_bidding_before_instantiate_fails_with_configuration_missing() {
    let mut state = State::new();
    assert_eq!(
        execute_start_bidding(&mut state, mock_env(), info(ADMIN, vec![]), my_period()),
        Err(ContractError::ConfigurationMissing {})
    );
    assert!(state.bidding_period.is_none());
}

#[test]
fn only_admins_start_and_end_bidding() {
    let (mut state, _) = proper_instantiate();
    for stranger in [BIDDER, OTHER_BIDDER, "", "juno1admi", "juno1admin "] {
        assert_eq!(
            execute_start_bidding(&mut state, mock_env(), info(stranger, vec![]), my_period()),
            Err(ContractError::Unauthorized {})
        );
        assert_eq!(
            execute_end_bidding(&mut state, mock_env(), info(stranger, vec![]), vec![], None),
            Err(ContractError::Unauthorized {})
        );
    }
    assert!(state.bidding_period.is_none());
    execute_start_bidding(&mut state, mock_env(), info(ADMIN, vec![]), my_period()).unwrap();
    for stranger in [BIDDER, OTHER_BIDDER] {
        assert_eq!(
            execute_end_bidding(&mut state, mock_env(), info(stranger, vec![]), vec![], None),
            Err(ContractError::Unauthorized {})
        );
    }
    assert!(state.bidding_period.is_some());
    execute_end_bidding(&mut state, mock_env(), info(ADMIN, vec![]), vec![], None).unwrap();
    assert!(state.bidding_period.is_none());
}

#[test]
fn a_second_period_cannot_be_started_while_one_is_open() {
    let (mut state, _) = proper_instantiate();
    execute_start_bidding(&mut state, mock_env(), info(ADMIN, vec![]), my_period()).unwrap();
    let other = period(Timestamp::from_seconds(2_000_000_000), 1, 5, "uatom");
    assert_eq!(
        execute_start_bidding(&mut state, mock_env(), info(ADMIN, vec![]), other),
        Err(ContractError::BiddingPeriodActive {})
    );
    // the first period's terms stay
    assert_eq!(query_bidding_period(&state).bidding_period, Some(my_period()));
    // a bid does not close the period
    execute_bid(&mut state, mock_env(), info(BIDDER, vec![coin(500, NATIVE_DENOM)]), None).unwrap();
    assert_eq!(
        execute_start_bidding(&mut state, mock_env(), info(ADMIN, vec![]), my_period()),
        Err(ContractError::BiddingPeriodActive {})
    );
    // someone who is no admin is told so first
    assert_eq!(
        execute_start_bidding(&mut state, mock_env(), info(BIDDER, vec![]), my_period()),
        Err(ContractError::Unauthorized {})
    );
    // once closed, a new period can be started
    execute_end_bidding(&mut state, mock_env(), info(ADMIN, vec![]), vec![], None).unwrap();
    execute_start_bidding(&mut state, mock_env(), info(ADMIN, vec![]), my_period()).unwrap();
}

#[test]
fn start_bidding_rejects_an_expiry_that_is_not_in_the_future() {
    let (mut state, _) = proper_instantiate();
    let now = mock_env().block.time;
    for expires_at in [now, Timestamp::from_nanos(now.nanos() - 1), Timestamp::from_nanos(0)] {
        assert_eq!(
            execute_start_bidding(
                &mut state,
                mock_env(),
                info(ADMIN, vec![]),
                period(expires_at, 500, 1, NATIVE_DENOM)
            ),
            Err(ContractError::InvalidTerms(TermsError::ExpiryNotInFuture {}))
        );
        assert!(state.bidding_period.is_none());
    }
    // one nanosecond ahead is enough
    execute_start_bidding(
        &mut state,
        mock_env(),
        info(ADMIN, vec![]),
        period(Timestamp::from_nanos(now.nanos() + 1), 500, 1, NATIVE_DENOM),
    )
    .unwrap();
}

#[test]
fn start_bidding_rejects_terms_that_accept_no_bidder() {
    let (mut state, _) = proper_instantiate();
    assert_eq!(
        execute_start_bidding(
            &mut state,
            env_at(1_000),
            info(ADMIN, vec![]),
            period(Timestamp::from_nanos(2_000), 500, 0, "X")
        ),
        Err(ContractError::InvalidTerms(TermsError::NoAcceptedBidders {}))
    );
    assert!(state.bidding_period.is_none());
    // a past expiry is reported before the number of accepted bidders
    assert_eq!(
        execute_start_bidding(
            &mut state,
            env_at(1_000),
            info(ADMIN, vec![]),
            period(Timestamp::from_nanos(1_000), 500, 0, "X")
        ),
        Err(ContractError::InvalidTerms(TermsError::ExpiryNotInFuture {}))
    );
}

#[test]
fn bid_without_a_period_fails_with_no_active_period() {
    let (mut state, _) = proper_instantiate();
    assert_eq!(
        execute_bid(&mut state, mock_env(), info(BIDDER, vec![coin(1000, NATIVE_DENOM)]), None),
        Err(ContractError::NoActivePeriod {})
    );
    assert!(listed(&state).is_empty());
}

#[test]
fn bid_at_or_after_the_expiry_fails() {
    let mut state = open_x();
    for now in [2_000u64, 2_001, u64::MAX] {
        assert_eq!(
            execute_bid(&mut state, env_at(now), info(BIDDER, vec![coin(1000, "X")]), None),
            Err(ContractError::BiddingPeriodExpired {})
        );
        // the expiry is reported before anything about the payment
        assert_eq!(
            execute_bid(&mut state, env_at(now), info(BIDDER, vec![]), None),
            Err(ContractError::BiddingPeriodExpired {})
        );
    }
    assert!(listed(&state).is_empty());
    // one unit before the expiry the bid is taken
    let resp = execute_bid(&mut state, env_at(1_999), info(BIDDER, vec![coin(1000, "X")]), None).unwrap();
    assert_eq!(
        resp.attributes,
        vec![
            attr("method", "bid"),
            attr("address", BIDDER),
            attr("amount", "1000"),
            attr("new_amount", "1000"),
        ]
    );
    assert_eq!(listed(&state), vec![bid(BIDDER, 1000)]);
}

#[test]
fn an_expired_period_can_still_be_ended() {
    let mut state = open_x();
    pay(&mut state, BIDDER, 700).unwrap();
    let resp = execute_end_bidding(
        &mut state,
        env_at(5_000),
        info(ADMIN, vec![]),
        vec![Addr::unchecked(BIDDER)],
        None,
    )
    .unwrap();
    assert_eq!(resp.messages, vec![transfer(ADMIN, 700, "X")]);
}

#[test]
fn bid_payment_errors() {
    let mut state = open_x();
    let cases: Vec<(Vec<Coin>, PaymentError)> = vec![
        (vec![], PaymentError::NoFunds {}),
        (vec![coin(0, "X")], PaymentError::NoFunds {}),
        (vec![coin(0, "Y")], PaymentError::NoFunds {}),
        (vec![coin(1000, "X"), coin(1000, "Y")], PaymentError::MultipleDenoms {}),
        (vec![coin(1000, "X"), coin(1000, "X")], PaymentError::MultipleDenoms {}),
        (vec![coin(1000, "Y")], PaymentError::MissingDenom {}),
        (vec![coin(1000, "x")], PaymentError::MissingDenom {}),
        (vec![coin(499, "X")], PaymentError::BelowMinimumBid {}),
        (vec![coin(1, "X")], PaymentError::BelowMinimumBid {}),
    ];
    for (funds, want) in cases {
        assert_eq!(
            validate_bid(&state, &env_at(1_500), &info(BIDDER, funds.clone())),
            Err(ContractError::Payment(want))
        );
        assert_eq!(
            execute_bid(&mut state, env_at(1_500), info(BIDDER, funds), None),
            Err(ContractError::Payment(want))
        );
        assert!(listed(&state).is_empty());
    }
    assert_eq!(
        validate_bid(&state, &env_at(1_500), &info(BIDDER, vec![coin(500, "X")])),
        Ok(500)
    );
}

#[test]
fn the_minimum_applies_to_each_payment() {
    let mut state = open_x();
    pay(&mut state, BIDDER, 1000).unwrap();
    // a top-up below the minimum is refused although the total is above it
    assert_eq!(
        pay(&mut state, BIDDER, 499),
        Err(ContractError::Payment(PaymentError::BelowMinimumBid {}))
    );
    assert_eq!(listed(&state), vec![bid(BIDDER, 1000)]);
    // exactly the minimum is taken
    pay(&mut state, BIDDER, 500).unwrap();
    assert_eq!(listed(&state), vec![bid(BIDDER, 1500)]);
}

#[test]
fn two_payments_of_one_bidder_add_up() {
    let mut state = open_x();
    let first = pay(&mut state, BIDDER, 700).unwrap();
    assert_eq!(first.attributes[2], attr("amount", "700"));
    assert_eq!(first.attributes[3], attr("new_amount", "700"));
    let second = pay(&mut state, BIDDER, 1234).unwrap();
    assert_eq!(
        second.attributes,
        vec![
            attr("method", "bid"),
            attr("address", BIDDER),
            attr("amount", "1234"),
            attr("new_amount", "1934"),
        ]
    );
    assert!(second.messages.is_empty());
    assert_eq!(
        query_bid(&state, Addr::unchecked(BIDDER)),
        BidResponse {
            bid: Some(bid(BIDDER, 1934))
        }
    );
    assert_eq!(listed(&state).len(), 1);
}

#[test]
fn a_proxy_bid_counts_for_the_address_given() {
    let mut state = open_x();
    let resp = execute_bid(
        &mut state,
        env_at(1_500),
        info(BIDDER, vec![coin(600, "X")]),
        Some(Addr::unchecked(OTHER_BIDDER)),
    )
    .unwrap();
    assert_eq!(resp.attributes[1], attr("address", OTHER_BIDDER));
    assert_eq!(listed(&state), vec![bid(OTHER_BIDDER, 600)]);
    // the sender's own bid and the proxy bid are kept apart
    pay(&mut state, BIDDER, 500).unwrap();
    // a direct payment of the beneficiary adds to the proxy bid
    let resp = pay(&mut state, OTHER_BIDDER, 900).unwrap();
    assert_eq!(resp.attributes[3], attr("new_amount", "1500"));
    assert_eq!(listed(&state), vec![bid(OTHER_BIDDER, 1500), bid(BIDDER, 500)]);
}

#[test]
fn one_winner_and_one_refund() {
    let mut state = open_x();
    let a = pay(&mut state, "A", 1000).unwrap();
    assert_eq!(a.attributes[3], attr("new_amount", "1000"));
    let b = pay(&mut state, "B", 500).unwrap();
    assert_eq!(b.attributes[3], attr("new_amount", "500"));
    let resp = execute_end_bidding(
        &mut state,
        env_at(1_600),
        info(ADMIN, vec![]),
        vec![Addr::unchecked("A")],
        None,
    )
    .unwrap();
    assert_eq!(
        resp,
        Response {
            attributes: vec![attr("method", "end_bidding"), attr("withdrawn", "1000")],
            messages: vec![transfer("B", 500, "X"), transfer(ADMIN, 1000, "X")],
        }
    );
    assert!(listed(&state).is_empty());
    assert!(state.bidding_period.is_none());
    assert_eq!(state.bids.len(), 0);
}

#[test]
fn end_bidding_with_an_unknown_bidder_fails_and_keeps_the_ledger() {
    let mut state = open_x();
    pay(&mut state, "A", 1000).unwrap();
    pay(&mut state, "B", 500).unwrap();
    let before = listed(&state);
    assert_eq!(
        execute_end_bidding(
            &mut state,
            env_at(1_600),
            info(ADMIN, vec![]),
            vec![Addr::unchecked("C")],
            None
        ),
        Err(ContractError::BidNotFound {})
    );
    assert_eq!(listed(&state), before);
    assert_eq!(listed(&state), vec![bid("B", 500), bid("A", 1000)]);
    assert!(state.bidding_period.is_some());
}

#[test]
fn end_bidding_with_a_bidder_named_twice_fails() {
    let (mut state, _) = proper_instantiate();
    execute_start_bidding(
        &mut state,
        env_at(1_000),
        info(ADMIN, vec![]),
        period(Timestamp::from_nanos(2_000), 500, 3, "X"),
    )
    .unwrap();
    pay(&mut state, "A", 1000).unwrap();
    pay(&mut state, "B", 500).unwrap();
    for accepted in [vec!["A", "A"], vec!["A", "B", "A"], vec!["B", "C"], vec!["C", "A", "B"]] {
        assert_eq!(
            execute_end_bidding(
                &mut state,
                env_at(1_600),
                info(ADMIN, vec![]),
                accepted.into_iter().map(Addr::unchecked).collect(),
                None
            ),
            Err(ContractError::BidNotFound {})
        );
        assert_eq!(listed(&state), vec![bid("B", 500), bid("A", 1000)]);
        assert!(state.bidding_period.is_some());
    }
}

#[test]
fn end_bidding_with_too_many_accepted_fails_and_keeps_the_period() {
    let mut state = open_x();
    pay(&mut state, "A", 1000).unwrap();
    pay(&mut state, "B", 500).unwrap();
    assert_eq!(
        execute_end_bidding(
            &mut state,
            env_at(1_600),
            info(ADMIN, vec![]),
            vec![Addr::unchecked("A"), Addr::unchecked("B")],
            None
        ),
        Err(ContractError::TooManyAccepted {})
    );
    // too many is reported before an unknown bidder
    assert_eq!(
        execute_end_bidding(
            &mut state,
            env_at(1_600),
            info(ADMIN, vec![]),
            vec![Addr::unchecked("C"), Addr::unchecked("D")],
            None
        ),
        Err(ContractError::TooManyAccepted {})
    );
    assert_eq!(
        query_bidding_period(&state).bidding_period,
        Some(period(Timestamp::from_nanos(2_000), 500, 1, "X"))
    );
    assert_eq!(listed(&state), vec![bid("B", 500), bid("A", 1000)]);
    // the period still takes bids
    pay(&mut state, "C", 500).unwrap();
}

#[test]
fn end_bidding_without_a_period_fails_with_no_active_period() {
    let (mut state, _) = proper_instantiate();
    assert_eq!(
        execute_end_bidding(&mut state, mock_env(), info(ADMIN, vec![]), vec![], None),
        Err(ContractError::NoActivePeriod {})
    );
}

#[test]
fn end_bidding_before_instantiate_fails_with_configuration_missing() {
    let mut state = State::new();
    assert_eq!(
        execute_end_bidding(&mut state, mock_env(), info(ADMIN, vec![]), vec![], None),
        Err(ContractError::ConfigurationMissing {})
    );
}

#[test]
fn settlement_moves_exactly_what_was_bid() {
    let (mut state, _) = proper_instantiate();
    execute_start_bidding(
        &mut state,
        env_at(1_000),
        info(ADMIN, vec![]),
        period(Timestamp::from_nanos(2_000), 1, 2, "X"),
    )
    .unwrap();
    let payments: [(&str, u128); 7] = [
        ("delta", 40),
        ("alpha", 10),
        ("echo", 50),
        ("bravo", 20),
        ("alpha", 5),
        ("charlie", 30),
        ("echo", 1),
    ];
    let mut deposited = 0u128;
    for (who, amount) in payments {
        pay(&mut state, who, amount).unwrap();
        deposited += amount;
    }
    assert_eq!(deposited, 156);
    let resp = execute_end_bidding(
        &mut state,
        env_at(1_600),
        info(ADMIN, vec![]),
        vec![Addr::unchecked("echo"), Addr::unchecked("alpha")],
        Some(Addr::unchecked("treasury")),
    )
    .unwrap();
    // refunds in ascending order of the bidders, then the proceeds
    assert_eq!(
        resp.messages,
        vec![
            transfer("bravo", 20, "X"),
            transfer("charlie", 30, "X"),
            transfer("delta", 40, "X"),
            transfer("treasury", 66, "X"),
        ]
    );
    assert_eq!(
        resp.attributes,
        vec![attr("method", "end_bidding"), attr("withdrawn", "66")]
    );
    let mut moved = 0u128;
    for who in ["bravo", "charlie", "delta", "treasury", ADMIN, "alpha", "echo"] {
        moved += received_in(&resp, who, "X");
    }
    assert_eq!(moved, deposited);
    assert_eq!(received_in(&resp, ADMIN, "X"), 0);
}

fn received_in(resp: &Response, address: &str, denom: &str) -> u128 {
    let mut sum = 0u128;
    for msg in resp.messages.iter() {
        match msg {
            BankMsg::Send { to_address, amount } => {
                if to_address == address {
                    for c in amount.iter() {
                        assert_eq!(c.denom, denom);
                        sum += c.amount;
                    }
                }
            }
        }
    }
    sum
}

#[test]
fn end_bidding_with_nobody_accepted_refunds_everyone() {
    let mut state = open_x();
    pay(&mut state, "B", 500).unwrap();
    pay(&mut state, "A", 1000).unwrap();
    let resp = execute_end_bidding(&mut state, env_at(1_600), info(ADMIN, vec![]), vec![], None).unwrap();
    assert_eq!(
        resp.messages,
        vec![
            transfer("A", 1000, "X"),
            transfer("B", 500, "X"),
            transfer(ADMIN, 0, "X"),
        ]
    );
    assert_eq!(resp.attributes[1], attr("withdrawn", "0"));
}

#[test]
fn end_bidding_of_an_empty_ledger_sends_only_the_proceeds() {
    let mut state = open_x();
    let resp = execute_end_bidding(&mut state, env_at(1_600), info(ADMIN, vec![]), vec![], None).unwrap();
    assert_eq!(resp.messages, vec![transfer(ADMIN, 0, "X")]);
}

#[test]
fn nothing_is_refunded_twice() {
    let mut state = open_x();
    pay(&mut state, "A", 1000).unwrap();
    pay(&mut state, "B", 500).unwrap();
    execute_end_bidding(
        &mut state,
        env_at(1_600),
        info(ADMIN, vec![]),
        vec![Addr::unchecked("A")],
        None,
    )
    .unwrap();
    assert_eq!(query_bids(&state), BidsResponse { bids: vec![] });
    assert_eq!(
        query(&state, mock_env(), QueryMsg::Bids {}),
        QueryResponse::Bids(BidsResponse { bids: vec![] })
    );
    assert_eq!(query_bid(&state, Addr::unchecked("B")), BidResponse { bid: None });
    // ending again finds no period
    assert_eq!(
        execute_end_bidding(&mut state, env_at(1_700), info(ADMIN, vec![]), vec![], None),
        Err(ContractError::NoActivePeriod {})
    );
    // the next period starts with an empty ledger
    execute_start_bidding(
        &mut state,
        env_at(1_700),
        info(ADMIN, vec![]),
        period(Timestamp::from_nanos(2_000), 500, 1, "X"),
    )
    .unwrap();
    let resp = execute_end_bidding(&mut state, env_at(1_800), info(ADMIN, vec![]), vec![], None).unwrap();
    assert_eq!(resp.messages, vec![transfer(ADMIN, 0, "X")]);
}

#[test]
fn queries_answer_from_the_state() {
    let mut state = open_x();
    assert_eq!(
        query(&state, mock_env(), QueryMsg::BiddingPeriod {}),
        QueryResponse::BiddingPeriod(BiddingPeriodResponse {
            bidding_period: Some(period(Timestamp::from_nanos(2_000), 500, 1, "X"))
        })
    );
    pay(&mut state, "b", 500).unwrap();
    pay(&mut state, "a", 600).unwrap();
    pay(&mut state, "c", 700).unwrap();
    // the listing is in descending order of the bidders
    assert_eq!(
        query(&state, mock_env(), QueryMsg::Bids {}),
        QueryResponse::Bids(BidsResponse {
            bids: vec![bid("c", 700), bid("b", 500), bid("a", 600)]
        })
    );
    assert_eq!(
        query(
            &state,
            mock_env(),
            QueryMsg::Bid {
                address: Addr::unchecked("a")
            }
        ),
        QueryResponse::Bid(BidResponse {
            bid: Some(bid("a", 600))
        })
    );
    assert_eq!(
        query(
            &state,
            mock_env(),
            QueryMsg::Bid {
                address: Addr::unchecked("d")
            }
        ),
        QueryResponse::Bid(BidResponse { bid: None })
    );
    let (closed, _) = proper_instantiate();
    assert_eq!(
        query(&closed, mock_env(), QueryMsg::BiddingPeriod {}),
        QueryResponse::BiddingPeriod(BiddingPeriodResponse {
            bidding_period: None
        })
    );
}

#[test]
fn execute_dispatches_each_command() {
    let (mut state, _) = proper_instantiate();
    let started = execute(
        &mut state,
        env_at(1_000),
        info(ADMIN, vec![]),
        ExecuteMsg::StartBidding {
            config: period(Timestamp::from_nanos(2_000), 500, 1, "X"),
        },
    )
    .unwrap();
    assert_eq!(started.attributes[0], attr("method", "start_bidding"));
    let placed = execute(
        &mut state,
        env_at(1_000),
        info(BIDDER, vec![coin(500, "X")]),
        ExecuteMsg::Bid { address: None },
    )
    .unwrap();
    assert_eq!(placed.attributes[0], attr("method", "bid"));
    let ended = execute(
        &mut state,
        env_at(1_000),
        info(ADMIN, vec![]),
        ExecuteMsg::EndBidding {
            accepted_bids: vec![],
            withdrawal_address: None,
        },
    )
    .unwrap();
    assert_eq!(ended.attributes[0], attr("method", "end_bidding"));
    assert_eq!(ended.messages[0], transfer(BIDDER, 500, "X"));
}

#[test]
fn a_bid_that_would_overflow_is_not_run() {
    let mut state = open_x();
    pay(&mut state, BIDDER, u128::MAX - 499).unwrap();
    let msg = ExecuteMsg::Bid { address: None };
    let top_up = info(BIDDER, vec![coin(500, "X")]);
    assert!(!fits(&state, &env_at(1_500), &top_up, &msg));
    assert_eq!(try_execute(&mut state, env_at(1_500), top_up, msg), None);
    assert_eq!(listed(&state), vec![bid(BIDDER, u128::MAX - 499)]);
    // a refused bid fits, whatever it would have added
    let msg = ExecuteMsg::Bid { address: None };
    let late = info(BIDDER, vec![coin(500, "X")]);
    assert!(fits(&state, &env_at(2_000), &late, &msg));
    assert_eq!(
        try_execute(&mut state, env_at(2_000), late, msg),
        Some(Err(ContractError::BiddingPeriodExpired {}))
    );
    // another bidder's payment fits
    let msg = ExecuteMsg::Bid { address: None };
    let other = info(OTHER_BIDDER, vec![coin(u128::MAX, "X")]);
    assert!(fits(&state, &env_at(1_500), &other, &msg));
    let resp = try_execute(&mut state, env_at(1_500), other, msg).unwrap().unwrap();
    assert_eq!(
        resp.attributes[3],
        attr("new_amount", "340282366920938463463374607431768211455")
    );
}

#[test]
fn a_settlement_that_would_overflow_is_not_run() {
    let (mut state, _) = proper_instantiate();
    execute_start_bidding(
        &mut state,
        env_at(1_000),
        info(ADMIN, vec![]),
        period(Timestamp::from_nanos(2_000), 1, 2, "X"),
    )
    .unwrap();
    pay(&mut state, "A", u128::MAX).unwrap();
    pay(&mut state, "B", 1).unwrap();
    let both = || ExecuteMsg::EndBidding {
        accepted_bids: vec![Addr::unchecked("A"), Addr::unchecked("B")],
        withdrawal_address: None,
    };
    assert!(!fits(&state, &env_at(1_500), &info(ADMIN, vec![]), &both()));
    assert_eq!(try_execute(&mut state, env_at(1_500), info(ADMIN, vec![]), both()), None);
    assert_eq!(listed(&state), vec![bid("B", 1), bid("A", u128::MAX)]);
    assert!(state.bidding_period.is_some());
    // from someone who is no admin the command is refused, so it fits
    assert_eq!(
        try_execute(&mut state, env_at(1_500), info(BIDDER, vec![]), both()),
        Some(Err(ContractError::Unauthorized {}))
    );
    // accepting one of them fits
    let one = ExecuteMsg::EndBidding {
        accepted_bids: vec![Addr::unchecked("A")],
        withdrawal_address: None,
    };
    let resp = try_execute(&mut state, env_at(1_500), info(ADMIN, vec![]), one).unwrap().unwrap();
    assert_eq!(
        resp.messages,
        vec![transfer("B", 1, "X"), transfer(ADMIN, u128::MAX, "X")]
    );
}

#[test]
fn the_helper_addresses_a_command_to_the_contract() {
    let contract = JunoBidContract(Addr::unchecked("contract0"));
    assert_eq!(contract.addr(), Addr::unchecked("contract0"));
    match contract.call(ExecuteMsg::Bid {
        address: Some(Addr::unchecked(BIDDER)),
    }) {
        WasmMsg::Execute {
            contract_addr,
            msg,
            funds,
        } => {
            assert_eq!(contract_addr, "contract0");
            assert!(funds.is_empty());
            match msg {
                ExecuteMsg::Bid { address } => assert_eq!(address, Some(Addr::unchecked(BIDDER))),
                _ => panic!("another command came out"),
            }
        }
    }
}

#[test]
fn error_messages() {
    assert_eq!(ContractError::Unauthorized {}.to_string(), "Unauthorized");
    assert_eq!(ContractError::BiddingPeriodActive {}.to_string(), "Bidding Period Active");
    assert_eq!(ContractError::BiddingPeriodExpired {}.to_string(), "Bidding Period Expired");
    assert_eq!(ContractError::BidNotFound {}.to_string(), "NotFound");
    assert_eq!(
        ContractError::InvalidTerms(TermsError::ExpiryNotInFuture {}).to_string(),
        "Bidding period end time is in the past"
    );
    assert_eq!(
        ContractError::InvalidTerms(TermsError::NoAcceptedBidders {}).to_string(),
        "At least 1 bid needs to be able to be accepted"
    );
    assert_eq!(
        ContractError::TooManyAccepted {}.to_string(),
        "You cannot accept more bids than the bidding period configuration allows"
    );
    assert_eq!(
        ContractError::Payment(PaymentError::NoFunds {}).to_string(),
        "No funds sent"
    );
    assert_eq!(
        ContractError::Payment(PaymentError::MultipleDenoms {}).to_string(),
        PaymentError::MultipleDenoms {}.to_string()
    );
    assert_eq!(PaymentError::MultipleDenoms {}.to_string(), "Sent more than one denomination");
    assert_eq!(
        TermsError::NoAcceptedBidders {}.to_string(),
        "At least 1 bid needs to be able to be accepted"
    );
    assert_eq!(
        ContractError::Payment(PaymentError::BelowMinimumBid {}).to_string(),
        "Payment is below the minimum bid"
    );
    assert_eq!(
        ContractError::Payment(PaymentError::MissingDenom {}).to_string(),
        "Must send reserve token"
    );
    assert_eq!(ContractError::NoActivePeriod {}.to_string(), "No active bidding period");
    assert_eq!(ContractError::ConfigurationMissing {}.to_string(), "Administrators not set");
}
