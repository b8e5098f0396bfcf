//! Helpers for another contract that sends commands to this one.

use vstd::prelude::*;

use crate::host::{Addr, Coin, CoinView};
use crate::msg::ExecuteMsg;

verus! {

/// JunoBidContract is a wrapper around Addr that provides helpers
/// for working with this contract.
#[derive(Debug, PartialEq, Eq)]
pub struct JunoBidContract(pub Addr);

/// A command to be sent to a contract, before it is put into bytes.
pub enum WasmMsg {
    Execute { contract_addr: String, msg: ExecuteMsg, funds: Vec<Coin> },
}

impl JunoBidContract {
    /// The address of the contract.
    pub fn addr(&self) -> (r: Addr)
        ensures
            r@ == self.0@,
    {
        self.0.clone()
    }

    /// Wrapper for calling execute messages: the command, addressed to this
    /// contract, with no funds attached.
    pub fn call(&self, msg: ExecuteMsg) -> (r: WasmMsg)
        ensures
            r matches WasmMsg::Execute { contract_addr, msg: sent, funds } && contract_addr@
                == self.0@ && sent == msg && funds.deep_view() == Seq::<CoinView>::empty(),
    {
        let funds: Vec<Coin> = Vec::new();
        assert(funds.deep_view() =~= Seq::<CoinView>::empty());
        WasmMsg::Execute { contract_addr: self.addr().into_string(), msg, funds }
    }
}

} // verus!
