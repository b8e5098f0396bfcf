//! The payment attached to a bid.

use vstd::prelude::*;

use crate::error::PaymentError;
use crate::host::{CoinView, MessageInfo};

verus! {

/// The amount paid in `denom`, where exactly one coin is attached, of that
/// denomination and of an amount above zero; else what is wrong with the funds.
pub open spec fn paid(funds: Seq<CoinView>, denom: Seq<char>) -> Result<nat, PaymentError> {
    if funds.len() == 0 {
        Err(PaymentError::NoFunds {})
    } else if funds.len() > 1 {
        Err(PaymentError::MultipleDenoms {})
    } else if funds[0].amount == 0 {
        Err(PaymentError::NoFunds {})
    } else if funds[0].denom != denom {
        Err(PaymentError::MissingDenom {})
    } else {
        Ok(funds[0].amount)
    }
}

/// Calls `cw_utils::must_pay` on the funds of `info`. That function returns
/// the amount of the one coin attached if it is above zero and of `denom`;
/// `NoFunds` for no coin or an amount of zero, `MultipleDenoms` for two coins
/// or more, and `MissingDenom` for one coin of another denomination. The
/// denomination that its `MissingDenom` carries is not handed on. The
/// contract is taken from that function's source and is not proved here.
#[verifier::external_body]
pub(crate) fn must_pay(info: &MessageInfo, denom: &str) -> (r: Result<u128, PaymentError>)
    ensures
        match r {
            Ok(amount) => paid(info@.funds, denom@) == Ok::<nat, PaymentError>(amount as nat),
            Err(e) => paid(info@.funds, denom@) == Err::<nat, PaymentError>(e),
        },
{
    let sender = cosmwasm_std::Addr::unchecked(info.sender.as_str());
    let funds = info.funds.iter().map(|c| cosmwasm_std::coin(c.amount, c.denom.as_str())).collect();
    match cw_utils::must_pay(&cosmwasm_std::MessageInfo { sender, funds }, denom) {
        Ok(amount) => Ok(amount.u128()),
        Err(cw_utils::PaymentError::MissingDenom(_)) => Err(PaymentError::MissingDenom {}),
        Err(cw_utils::PaymentError::ExtraDenom(_)) => Err(PaymentError::ExtraDenom {}),
        Err(cw_utils::PaymentError::MultipleDenoms {}) => Err(PaymentError::MultipleDenoms {}),
        Err(cw_utils::PaymentError::NoFunds {}) => Err(PaymentError::NoFunds {}),
        Err(cw_utils::PaymentError::NonPayable {}) => Err(PaymentError::NonPayable {}),
    }
}

} // verus!
