//! Plain values exchanged with the ledger host: identities, coins, block
//! time, the caller of a command, and the response handed back.

use vstd::prelude::*;
use vstd::string::StringExecFns;

use crate::text::{decimal, fixed_width};

verus! {

/// An account identity. Two identities are the same exactly when their
/// characters are the same; no normalisation is applied.
#[derive(Debug, PartialEq, Eq)]
pub struct Addr(pub String);

impl View for Addr {
    type V = Seq<char>;

    open spec fn view(&self) -> Seq<char> {
        self.0@
    }
}

impl DeepView for Addr {
    type V = Seq<char>;

    open spec fn deep_view(&self) -> Seq<char> {
        self@
    }
}

impl Clone for Addr {
    fn clone(&self) -> (r: Self)
        ensures
            r@ == self@,
    {
        Addr(self.0.clone())
    }
}

impl Addr {
    /// Takes the text as an identity without validating it.
    pub fn unchecked(input: &str) -> (r: Addr)
        ensures
            r@ == input@,
    {
        Addr(String::from_str(input))
    }

    /// The identity as text.
    pub fn as_str(&self) -> (r: &str)
        ensures
            r@ == self@,
    {
        self.0.as_str()
    }

    /// The identity as owned text.
    pub fn into_string(self) -> (r: String)
        ensures
            r@ == self@,
    {
        self.0
    }

    /// Whether the two identities have the same characters.
    pub fn same(&self, other: &Addr) -> (r: bool)
        ensures
            r == (self@ == other@),
    {
        self.0 == other.0
    }
}

/// A point in time, in nanoseconds since the epoch.
#[derive(Clone, Copy, Debug, PartialEq, Eq, Structural)]
pub struct Timestamp(pub u64);

/// The nanoseconds of one second.
pub const NANOS_PER_SECOND: u64 = 1_000_000_000;

impl Timestamp {
    /// Creates a timestamp from nanoseconds since epoch
    pub fn from_nanos(nanos_since_epoch: u64) -> (r: Timestamp)
        ensures
            r.0 == nanos_since_epoch,
    {
        Timestamp(nanos_since_epoch)
    }

    /// Creates a timestamp from seconds since epoch
    pub fn from_seconds(seconds_since_epoch: u64) -> (r: Timestamp)
        requires
            seconds_since_epoch * NANOS_PER_SECOND <= u64::MAX,
        ensures
            r.0 == seconds_since_epoch * NANOS_PER_SECOND,
    {
        Timestamp(seconds_since_epoch * NANOS_PER_SECOND)
    }

    /// Returns nanoseconds since epoch
    pub fn nanos(&self) -> (r: u64)
        ensures
            r == self.0,
    {
        self.0
    }

    /// Whole seconds since the epoch; the nanoseconds are cut off.
    pub fn seconds(&self) -> (r: u64)
        ensures
            r == self.0 / NANOS_PER_SECOND,
    {
        self.0 / NANOS_PER_SECOND
    }

    /// Nanoseconds since the last whole second.
    pub fn subsec_nanos(&self) -> (r: u64)
        ensures
            r == self.0 % NANOS_PER_SECOND,
    {
        self.0 % NANOS_PER_SECOND
    }

    /// The seconds, a point, and the nanoseconds of the second in nine digits.
    pub open spec fn text(self) -> Seq<char> {
        decimal((self.0 / NANOS_PER_SECOND) as nat) + seq!['.'] + fixed_width(
            (self.0 % NANOS_PER_SECOND) as nat,
            9,
        )
    }

    /// Writes the timestamp as `text` says.
    pub fn to_string(&self) -> (r: String)
        ensures
            r@ == self.text(),
    {
        display_timestamp(self.0)
    }
}

/// Calls `Display` of `cosmwasm_std::Timestamp` on the timestamp of the given
/// nanoseconds. That impl writes the whole seconds in decimal, a point, and
/// the remaining nanoseconds padded with zeros to nine digits. The contract
/// is taken from that impl's source and is not proved here.
#[verifier::external_body]
fn display_timestamp(nanos: u64) -> (r: String)
    ensures
        r@ == Timestamp(nanos).text(),
{
    cosmwasm_std::Timestamp::from_nanos(nanos).to_string()
}

/// The block a command runs in. Only its time matters here.
#[derive(Clone, Copy, Debug, PartialEq, Eq, Structural)]
pub struct BlockInfo {
    pub time: Timestamp,
}

/// The environment of a command.
#[derive(Clone, Copy, Debug, PartialEq, Eq, Structural)]
pub struct Env {
    pub block: BlockInfo,
}

/// An amount of one denomination, in its smallest unit.
#[derive(Debug, PartialEq, Eq)]
pub struct Coin {
    pub denom: String,
    pub amount: u128,
}

/// The mathematical value of a `Coin`.
pub ghost struct CoinView {
    pub denom: Seq<char>,
    pub amount: nat,
}

impl View for Coin {
    type V = CoinView;

    open spec fn view(&self) -> CoinView {
        CoinView { denom: self.denom@, amount: self.amount as nat }
    }
}

impl DeepView for Coin {
    type V = CoinView;

    open spec fn deep_view(&self) -> CoinView {
        self@
    }
}

impl Clone for Coin {
    fn clone(&self) -> (r: Self)
        ensures
            r@ == self@,
    {
        Coin { denom: self.denom.clone(), amount: self.amount }
    }
}

/// A coin of `amount` units of `denom`.
pub fn coin(amount: u128, denom: &str) -> (r: Coin)
    ensures
        r@ == (CoinView { denom: denom@, amount: amount as nat }),
{
    Coin { denom: String::from_str(denom), amount }
}

/// Who sent a command, and the funds attached to it.
#[derive(Debug, PartialEq, Eq)]
pub struct MessageInfo {
    pub sender: Addr,
    pub funds: Vec<Coin>,
}

/// The mathematical value of a `MessageInfo`.
pub ghost struct MessageInfoView {
    pub sender: Seq<char>,
    pub funds: Seq<CoinView>,
}

impl View for MessageInfo {
    type V = MessageInfoView;

    open spec fn view(&self) -> MessageInfoView {
        MessageInfoView { sender: self.sender@, funds: self.funds.deep_view() }
    }
}

/// A key and a value reported with a response.
#[derive(Debug, PartialEq, Eq)]
pub struct Attribute {
    pub key: String,
    pub value: String,
}

/// The mathematical value of an `Attribute`.
pub ghost struct AttributeView {
    pub key: Seq<char>,
    pub value: Seq<char>,
}

impl View for Attribute {
    type V = AttributeView;

    open spec fn view(&self) -> AttributeView {
        AttributeView { key: self.key@, value: self.value@ }
    }
}

impl DeepView for Attribute {
    type V = AttributeView;

    open spec fn deep_view(&self) -> AttributeView {
        self@
    }
}

/// A transfer the host is asked to carry out.
#[derive(Debug, PartialEq, Eq)]
pub enum BankMsg {
    Send { to_address: String, amount: Vec<Coin> },
}

/// The mathematical value of a `BankMsg`.
pub ghost enum BankMsgView {
    Send { to_address: Seq<char>, amount: Seq<CoinView> },
}

impl View for BankMsg {
    type V = BankMsgView;

    open spec fn view(&self) -> BankMsgView {
        match *self {
            BankMsg::Send { to_address, amount } => BankMsgView::Send {
                to_address: to_address@,
                amount: amount.deep_view(),
            },
        }
    }
}

impl DeepView for BankMsg {
    type V = BankMsgView;

    open spec fn deep_view(&self) -> BankMsgView {
        self@
    }
}

/// The transfer of `amount` units of `denom` to `to_address`.
pub open spec fn send_view(to_address: Seq<char>, amount: nat, denom: Seq<char>) -> BankMsgView {
    BankMsgView::Send { to_address, amount: seq![CoinView { denom, amount }] }
}

/// A transfer of `amount` units of `denom` to `to_address`.
pub fn send(to_address: String, amount: u128, denom: &str) -> (r: BankMsg)
    ensures
        r@ == send_view(to_address@, amount as nat, denom@),
{
    let amount = vec![coin(amount, denom)];
    assert(amount.deep_view() =~= seq![CoinView { denom: denom@, amount: amount[0].amount as nat }]);
    BankMsg::Send { to_address, amount }
}

/// What a successful command hands back: attributes for the log, and the
/// transfers to carry out, in order.
#[derive(Debug, PartialEq, Eq)]
pub struct Response {
    pub attributes: Vec<Attribute>,
    pub messages: Vec<BankMsg>,
}

/// The mathematical value of a `Response`.
pub ghost struct ResponseView {
    pub attributes: Seq<AttributeView>,
    pub messages: Seq<BankMsgView>,
}

impl View for Response {
    type V = ResponseView;

    open spec fn view(&self) -> ResponseView {
        ResponseView {
            attributes: self.attributes.deep_view(),
            messages: self.messages.deep_view(),
        }
    }
}

impl Response {
    /// A response without attributes or transfers.
    pub fn new() -> (r: Response)
        ensures
            r@.attributes == Seq::<AttributeView>::empty(),
            r@.messages == Seq::<BankMsgView>::empty(),
    {
        Response { attributes: Vec::new(), messages: Vec::new() }
    }

    /// Adds an attribute after those that are there.
    pub fn add_attribute(self, key: &str, value: String) -> (r: Response)
        ensures
            r@.attributes == self@.attributes.push(AttributeView { key: key@, value: value@ }),
            r@.messages == self@.messages,
    {
        let mut attributes = self.attributes;
        let ghost before = attributes.deep_view();
        attributes.push(Attribute { key: String::from_str(key), value });
        assert(attributes.deep_view() =~= before.push(
            AttributeView { key: key@, value: value@ },
        ));
        Response { attributes, messages: self.messages }
    }

    /// Adds transfers, in their order, after those that are there.
    pub fn add_messages(self, msgs: Vec<BankMsg>) -> (r: Response)
        ensures
            r@.attributes == self@.attributes,
            r@.messages == self@.messages + msgs.deep_view(),
    {
        let mut messages = self.messages;
        let mut msgs = msgs;
        let ghost before = messages.deep_view();
        let ghost added = msgs.deep_view();
        messages.append(&mut msgs);
        assert(messages.deep_view() =~= before + added);
        Response { attributes: self.attributes, messages }
    }

    /// Adds a transfer after those that are there.
    pub fn add_message(self, msg: BankMsg) -> (r: Response)
        ensures
            r@.attributes == self@.attributes,
            r@.messages == self@.messages.push(msg@),
    {
        let mut messages = self.messages;
        let ghost before = messages.deep_view();
        messages.push(msg);
        assert(messages.deep_view() =~= before.push(msg@));
        Response { attributes: self.attributes, messages }
    }
}

} // verus!
