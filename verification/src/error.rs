//! The reasons a command is refused.

use vstd::prelude::*;

verus! {

/// What is wrong with the funds attached to a bid.
#[derive(Clone, Copy, Debug, PartialEq, Eq, Structural)]
pub enum PaymentError {
    /// The one coin attached is of another denomination than the one asked for.
    MissingDenom {},
    /// A coin of a denomination that is not accepted came along.
    ExtraDenom {},
    /// More than one coin is attached.
    MultipleDenoms {},
    /// No coin is attached, or one of amount zero.
    NoFunds {},
    /// Funds are attached to a command that takes none.
    NonPayable {},
    /// The payment is smaller than the period's minimum bid.
    BelowMinimumBid {},
}

/// What is wrong with the terms of a bidding period.
#[derive(Clone, Copy, Debug, PartialEq, Eq, Structural)]
pub enum TermsError {
    /// The period would expire now or earlier.
    ExpiryNotInFuture {},
    /// The period would allow no bid to be accepted.
    NoAcceptedBidders {},
}

/// Why a command is refused.
#[derive(Clone, Copy, Debug, PartialEq, Eq, Structural)]
pub enum ContractError {
    /// The attached funds are not a valid payment.
    Payment(PaymentError),
    /// The caller is not an administrator.
    Unauthorized {},
    /// The administrators were never set.
    ConfigurationMissing {},
    /// There is no bidding period to act on.
    NoActivePeriod {},
    /// There is already an active bidding period.
    BiddingPeriodActive {},
    /// The current bidding period has expired.
    BiddingPeriodExpired {},
    /// The terms of the new bidding period are not acceptable.
    InvalidTerms(TermsError),
    /// More bids are accepted than the bidding period allows.
    TooManyAccepted {},
    /// An accepted bidder has no bid, or is accepted twice.
    BidNotFound {},
}

impl PaymentError {
    /// The message for a person to read.
    pub open spec fn message(self) -> Seq<char> {
        match self {
            PaymentError::MissingDenom {} => "Must send reserve token"@,
            PaymentError::ExtraDenom {} => "Received unsupported denom"@,
            PaymentError::MultipleDenoms {} => "Sent more than one denomination"@,
            PaymentError::NoFunds {} => "No funds sent"@,
            PaymentError::NonPayable {} => "This message does no accept funds"@,
            PaymentError::BelowMinimumBid {} => "Payment is below the minimum bid"@,
        }
    }

    pub fn to_string(&self) -> (r: String)
        ensures
            r@ == self.message(),
    {
        match self {
            PaymentError::MissingDenom {} => "Must send reserve token".to_string(),
            PaymentError::ExtraDenom {} => "Received unsupported denom".to_string(),
            PaymentError::MultipleDenoms {} => "Sent more than one denomination".to_string(),
            PaymentError::NoFunds {} => "No funds sent".to_string(),
            PaymentError::NonPayable {} => "This message does no accept funds".to_string(),
            PaymentError::BelowMinimumBid {} => "Payment is below the minimum bid".to_string(),
        }
    }
}

impl TermsError {
    /// The message for a person to read.
    pub open spec fn message(self) -> Seq<char> {
        match self {
            TermsError::ExpiryNotInFuture {} => "Bidding period end time is in the past"@,
            TermsError::NoAcceptedBidders {} => "At least 1 bid needs to be able to be accepted"@,
        }
    }

    pub fn to_string(&self) -> (r: String)
        ensures
            r@ == self.message(),
    {
        match self {
            TermsError::ExpiryNotInFuture {} => "Bidding period end time is in the past".to_string(),
            TermsError::NoAcceptedBidders {} =>
                "At least 1 bid needs to be able to be accepted".to_string(),
        }
    }
}

impl ContractError {
    /// The message for a person to read.
    pub open spec fn message(self) -> Seq<char> {
        match self {
            ContractError::Payment(e) => e.message(),
            ContractError::Unauthorized {} => "Unauthorized"@,
            ContractError::ConfigurationMissing {} => "Administrators not set"@,
            ContractError::NoActivePeriod {} => "No active bidding period"@,
            ContractError::BiddingPeriodActive {} => "Bidding Period Active"@,
            ContractError::BiddingPeriodExpired {} => "Bidding Period Expired"@,
            ContractError::InvalidTerms(e) => e.message(),
            ContractError::TooManyAccepted {} =>
                "You cannot accept more bids than the bidding period configuration allows"@,
            ContractError::BidNotFound {} => "NotFound"@,
        }
    }

    pub fn to_string(&self) -> (r: String)
        ensures
            r@ == self.message(),
    {
        match self {
            ContractError::Payment(e) => e.to_string(),
            ContractError::Unauthorized {} => "Unauthorized".to_string(),
            ContractError::ConfigurationMissing {} => "Administrators not set".to_string(),
            ContractError::NoActivePeriod {} => "No active bidding period".to_string(),
            ContractError::BiddingPeriodActive {} => "Bidding Period Active".to_string(),
            ContractError::BiddingPeriodExpired {} => "Bidding Period Expired".to_string(),
            ContractError::InvalidTerms(e) => e.to_string(),
            ContractError::TooManyAccepted {} =>
                "You cannot accept more bids than the bidding period configuration allows".to_string(),
            ContractError::BidNotFound {} => "NotFound".to_string(),
        }
    }
}

} // verus!
